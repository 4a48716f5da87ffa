//! Outcome events and their fan-out.
//!
//! Every operation's outcome, success or failure, becomes exactly one
//! `MessagingEvent` carrying the message's tag. Events are shared across
//! subscribers behind a reference count rather than cloned, and delivery to
//! a slow subscriber is best effort: one that falls more than the lag
//! capacity behind observes a gap rather than stalling the engine.

use std::sync::Arc;

use vstd::prelude::*;

use crate::message::{NodeId, OutboundMessage};
use crate::tag::MessageTag;

verus! {

/// Why a send attempt failed: the closed taxonomy other components reason
/// about.
#[derive(Clone, Copy, PartialEq, Eq, Structural, Debug)]
pub enum SendFailReason {
    /// No connection to the peer could be established.
    PeerDialFailed,
    /// A connection existed, but opening a substream on it or writing to an
    /// already-open substream failed.
    SubstreamSendFailed,
}

/// The outcome of one operation, tagged with the message it concerns.
pub enum MessagingEvent {
    /// A message was received from the peer and forwarded to the inbound
    /// sink, under the freshly minted tag.
    MessageReceived(NodeId, MessageTag),
    /// The message with this tag was written to the wire.
    MessageSent(MessageTag),
    /// The send attempt for this message failed for the given reason; the
    /// message itself is handed back for the caller to resubmit if desired.
    SendMessageFailed(OutboundMessage, SendFailReason),
}

impl MessagingEvent {
    /// The tag the event carries.
    pub open spec fn spec_tag(&self) -> MessageTag {
        match self {
            MessagingEvent::MessageReceived(_, t) => *t,
            MessagingEvent::MessageSent(t) => *t,
            MessagingEvent::SendMessageFailed(m, _) => m.tag,
        }
    }

    /// The tag the event carries.
    pub fn tag(&self) -> (t: MessageTag)
        ensures
            t == self.spec_tag(),
    {
        match self {
            MessagingEvent::MessageReceived(_, t) => *t,
            MessagingEvent::MessageSent(t) => *t,
            MessagingEvent::SendMessageFailed(m, _) => m.tag,
        }
    }
}

/// Relies on `Arc::clone` of std: cloning the handle yields a handle to the
/// same value, without touching the value itself.
#[verifier::external_body]
fn share_event(e: &Arc<MessagingEvent>) -> (r: Arc<MessagingEvent>)
    ensures
        r == *e,
{
    Arc::clone(e)
}

/// Multi-subscriber fan-out of events. Publishing appends to a shared log;
/// each subscriber holds a cursor into it and reads at its own pace. A
/// subscriber more than `lag_capacity` events behind the head is skipped
/// forward and observes a gap; it never holds the engine back.
pub struct EventBroadcaster {
    published: Vec<Arc<MessagingEvent>>,
    capacity: usize,
    cursors: Vec<usize>,
}

impl EventBroadcaster {
    /// Every event ever published, in publish order.
    pub closed spec fn published_events(&self) -> Seq<MessagingEvent> {
        self.published@.map(|i: int, e: Arc<MessagingEvent>| *e)
    }

    /// Number of subscribers.
    pub closed spec fn num_subscribers(&self) -> nat {
        self.cursors@.len()
    }

    /// Index of the next event subscriber `s` has not read.
    pub closed spec fn cursor_of(&self, s: int) -> nat {
        self.cursors@[s] as nat
    }

    /// How far a subscriber may fall behind before it starts losing events.
    pub closed spec fn lag_capacity(&self) -> nat {
        self.capacity as nat
    }

    pub closed spec fn wf(&self) -> bool {
        &&& self.capacity >= 1
        &&& forall|s: int|
            0 <= s < self.cursors@.len() ==> #[trigger] self.cursors@[s] <= self.published@.len()
    }

    /// Where subscriber `s` actually reads next: its cursor, or the start
    /// of the lag window if it has fallen out of it.
    pub open spec fn read_start(&self, s: int) -> int {
        if self.cursor_of(s) + self.lag_capacity() >= self.published_events().len() {
            self.cursor_of(s) as int
        } else {
            self.published_events().len() - self.lag_capacity()
        }
    }

    /// The events still owed to subscriber `s`.
    pub open spec fn pending_events(&self, s: int) -> Seq<MessagingEvent> {
        self.published_events().subrange(self.read_start(s), self.published_events().len() as int)
    }

    pub fn new(capacity: usize) -> (b: EventBroadcaster)
        requires
            capacity >= 1,
        ensures
            b.wf(),
            b.published_events() == Seq::<MessagingEvent>::empty(),
            b.num_subscribers() == 0,
            b.lag_capacity() == capacity,
    {
        let b = EventBroadcaster { published: Vec::new(), capacity, cursors: Vec::new() };
        proof {
            assert(b.published_events() =~= Seq::<MessagingEvent>::empty());
        }
        b
    }

    /// Registers a new subscriber; it will observe only events published
    /// from now on.
    pub fn subscribe(&mut self) -> (s: usize)
        requires
            old(self).wf(),
        ensures
            final(self).wf(),
            s == old(self).num_subscribers(),
            final(self).num_subscribers() == old(self).num_subscribers() + 1,
            final(self).published_events() == old(self).published_events(),
            final(self).lag_capacity() == old(self).lag_capacity(),
            forall|t: int|
                0 <= t < old(self).num_subscribers() ==> #[trigger] final(self).cursor_of(t)
                    == old(self).cursor_of(t),
            final(self).cursor_of(s as int) == old(self).published_events().len(),
    {
        let s = self.cursors.len();
        let n = self.published.len();
        self.cursors.push(n);
        s
    }

    /// Publishes an event: appends it to the log for every subscriber.
    pub fn publish(&mut self, e: MessagingEvent)
        requires
            old(self).wf(),
        ensures
            final(self).wf(),
            final(self).published_events() == old(self).published_events().push(e),
            final(self).num_subscribers() == old(self).num_subscribers(),
            final(self).lag_capacity() == old(self).lag_capacity(),
            forall|t: int|
                0 <= t < old(self).num_subscribers() ==> #[trigger] final(self).cursor_of(t)
                    == old(self).cursor_of(t),
    {
        self.published.push(Arc::new(e));
        proof {
            assert(self.published_events() =~= old(self).published_events().push(e));
        }
    }

    /// Reads the next event for subscriber `s`, skipping forward over a gap
    /// if the subscriber has fallen out of the lag window. Returns `None`
    /// when the subscriber is caught up.
    pub fn poll(&mut self, s: usize) -> (r: Option<Arc<MessagingEvent>>)
        requires
            old(self).wf(),
            s < old(self).num_subscribers(),
        ensures
            final(self).wf(),
            final(self).published_events() == old(self).published_events(),
            final(self).num_subscribers() == old(self).num_subscribers(),
            final(self).lag_capacity() == old(self).lag_capacity(),
            forall|t: int|
                0 <= t < old(self).num_subscribers() && t != s
                    ==> #[trigger] final(self).cursor_of(t) == old(self).cursor_of(t),
            old(self).cursor_of(s as int) == old(self).published_events().len() ==> r is None
                && final(self).cursor_of(s as int) == old(self).cursor_of(s as int),
            old(self).cursor_of(s as int) < old(self).published_events().len() ==> {
                &&& r matches Some(e)
                &&& *e == old(self).published_events()[old(self).read_start(s as int)]
                &&& final(self).cursor_of(s as int) == old(self).read_start(s as int) + 1
            },
    {
        let c = self.cursors[s];
        let len = self.published.len();
        if c >= len {
            return None;
        }
        let start: usize = if len - c > self.capacity {
            len - self.capacity
        } else {
            c
        };
        let e = share_event(&self.published[start]);
        self.cursors[s] = start + 1;
        Some(e)
    }

    /// Reads everything still owed to subscriber `s`, in publish order:
    /// exactly its pending events, gap or not.
    pub fn drain(&mut self, s: usize) -> (out: Vec<Arc<MessagingEvent>>)
        requires
            old(self).wf(),
            s < old(self).num_subscribers(),
        ensures
            final(self).wf(),
            final(self).published_events() == old(self).published_events(),
            final(self).num_subscribers() == old(self).num_subscribers(),
            final(self).lag_capacity() == old(self).lag_capacity(),
            forall|t: int|
                0 <= t < old(self).num_subscribers() && t != s
                    ==> #[trigger] final(self).cursor_of(t) == old(self).cursor_of(t),
            final(self).cursor_of(s as int) == old(self).published_events().len(),
            out@.map(|i: int, e: Arc<MessagingEvent>| *e) == old(self).pending_events(s as int),
    {
        let ghost orig = *self;
        let mut out: Vec<Arc<MessagingEvent>> = Vec::new();
        let mut done = false;
        while !done
            invariant
                self.wf(),
                s < self.num_subscribers(),
                self.published_events() == orig.published_events(),
                self.num_subscribers() == orig.num_subscribers(),
                self.lag_capacity() == orig.lag_capacity(),
                forall|t: int|
                    0 <= t < orig.num_subscribers() && t != s ==> #[trigger] self.cursor_of(t)
                        == orig.cursor_of(t),
                (self.cursor_of(s as int) == orig.cursor_of(s as int) && out@.len() == 0) || (
                orig.read_start(s as int) <= self.cursor_of(s as int)
                    <= orig.published_events().len() && self.cursor_of(s as int)
                    + self.lag_capacity() >= self.published_events().len() && out@.map(
                    |i: int, e: Arc<MessagingEvent>| *e,
                ) == orig.published_events().subrange(
                    orig.read_start(s as int),
                    self.cursor_of(s as int) as int,
                )),
                done ==> self.cursor_of(s as int) == orig.published_events().len(),
            decreases orig.published_events().len() - self.cursor_of(s as int) + (if done {
                0int
            } else {
                1int
            }),
        {
            let ghost before = *self;
            match self.poll(s) {
                Some(e) => {
                    out.push(e);
                    proof {
                        let ghost si = s as int;
                        // after a first read the cursor is inside the lag
                        // window, so later reads step one by one
                        if before.cursor_of(si) == orig.cursor_of(si) && out@.len() == 1 {
                            assert(before.read_start(si) == orig.read_start(si));
                        } else {
                            assert(before.read_start(si) == before.cursor_of(si) as int);
                        }
                        assert(out@.map(|i: int, e: Arc<MessagingEvent>| *e) =~= orig
                            .published_events().subrange(
                            orig.read_start(si),
                            self.cursor_of(si) as int,
                        ));
                    }
                },
                None => {
                    done = true;
                },
            }
        }
        proof {
            let ghost si = s as int;
            if self.cursor_of(si) == orig.cursor_of(si) && out@.len() == 0 {
                assert(orig.read_start(si) == orig.published_events().len());
            }
            assert(out@.map(|i: int, e: Arc<MessagingEvent>| *e) =~= orig.pending_events(si));
        }
        out
    }
}

/// A subscriber no further behind than the lag capacity loses nothing: its
/// pending events are exactly the suffix of the log from its own cursor, so
/// everything already published past its cursor is still delivered to it.
pub proof fn lemma_no_loss_within_lag(b: &EventBroadcaster, s: int)
    requires
        b.wf(),
        0 <= s < b.num_subscribers(),
        b.cursor_of(s) + b.lag_capacity() >= b.published_events().len(),
    ensures
        b.pending_events(s) == b.published_events().subrange(
            b.cursor_of(s) as int,
            b.published_events().len() as int,
        ),
{
}

} // verus!
