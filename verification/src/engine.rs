//! The messaging protocol engine: the state machine that coordinates
//! outbound sends over cached per-peer substreams, inbound envelope
//! decoding, failure classification and shutdown.
//!
//! The engine is the decision core of the long-lived protocol task. The
//! asynchronous outside work — dialing, opening substreams, writing and
//! reading frames — is carried out by the plumbing around it, which reports
//! each outcome back as a plain value (`OpenOutcome`, a write result, a
//! received frame). Every step function here is total over those reported
//! outcomes, so the engine's guarantees hold whatever the network did.

use vstd::prelude::*;

use crate::bytesutil::bytes_equal;
use crate::cache::SubstreamCache;
use crate::envelope;
use crate::envelope::{envelope_valid, frame_body, frame_flags};
use crate::events::{MessagingEvent, SendFailReason};
use crate::message::{InboundMessage, NodeId, OutboundMessage};
use crate::tag::TagMinter;

verus! {

/// Lifecycle of the engine: single use, never back to `Running`.
#[derive(Clone, Copy, PartialEq, Eq, Structural, Debug)]
pub enum EngineStatus {
    Running,
    ShuttingDown,
    Stopped,
}

/// A request submitted to the engine by an external caller.
pub enum MessagingRequest {
    SendMessage(OutboundMessage),
}

/// What the connection layer reports when the engine asked it to establish
/// a substream to a peer that had none cached.
#[derive(Clone, Copy, PartialEq, Eq, Structural, Debug)]
pub enum OpenOutcome {
    /// A connection was available or dialed, and a substream was opened on
    /// it, with this handle.
    Opened(u64),
    /// No connection could be established at all.
    DialFailed,
    /// A connection existed but opening the substream on it failed.
    OpenFailed,
}

/// The messaging protocol engine's own state: status, the substream cache
/// it exclusively owns, the tag minter for inbound messages, and the
/// protocol identifier it accepts inbound substream notifications for.
pub struct MessagingEngine {
    status: EngineStatus,
    cache: SubstreamCache,
    minter: TagMinter,
    protocol_id: Vec<u8>,
}

/// One outbound dispatch step, as a function of the cache, the message and
/// the reported outside outcomes: the new cache, the single outcome event,
/// whether an establishment (dial/open) was attempted, and the successful
/// write, if any, as (substream handle, payload).
///
/// A cached substream is used without any establishment attempt; a write
/// failure on it evicts the entry and is classified `SubstreamSendFailed`.
/// With nothing cached, the outcome of establishment decides: a dial
/// failure is `PeerDialFailed`; an open failure is `SubstreamSendFailed`; a
/// fresh substream is cached and written to, and a failing write evicts it
/// again.
pub open spec fn dispatch_step(
    cache: Map<Seq<u8>, u64>,
    msg: OutboundMessage,
    open: OpenOutcome,
    write_ok: bool,
) -> (Map<Seq<u8>, u64>, MessagingEvent, bool, Option<(u64, Seq<u8>)>) {
    if cache.contains_key(msg.peer@) {
        if write_ok {
            (
                cache,
                MessagingEvent::MessageSent(msg.tag),
                false,
                Some((cache[msg.peer@], msg.body@)),
            )
        } else {
            (
                cache.remove(msg.peer@),
                MessagingEvent::SendMessageFailed(msg, SendFailReason::SubstreamSendFailed),
                false,
                None,
            )
        }
    } else {
        match open {
            OpenOutcome::DialFailed => (
                cache,
                MessagingEvent::SendMessageFailed(msg, SendFailReason::PeerDialFailed),
                true,
                None,
            ),
            OpenOutcome::OpenFailed => (
                cache,
                MessagingEvent::SendMessageFailed(msg, SendFailReason::SubstreamSendFailed),
                true,
                None,
            ),
            OpenOutcome::Opened(id) => {
                if write_ok {
                    (
                        cache.insert(msg.peer@, id),
                        MessagingEvent::MessageSent(msg.tag),
                        true,
                        Some((id, msg.body@)),
                    )
                } else {
                    (
                        cache.remove(msg.peer@),
                        MessagingEvent::SendMessageFailed(
                            msg,
                            SendFailReason::SubstreamSendFailed,
                        ),
                        true,
                        None,
                    )
                }
            },
        }
    }
}

/// A run of dispatch steps over a batch of messages, with the reported
/// outcome of each: the final cache, the events in acceptance order, how
/// many establishment attempts were made, and the successful writes in
/// order.
pub open spec fn dispatch_trace(
    cache: Map<Seq<u8>, u64>,
    msgs: Seq<OutboundMessage>,
    opens: Seq<OpenOutcome>,
    writes: Seq<bool>,
) -> (Map<Seq<u8>, u64>, Seq<MessagingEvent>, nat, Seq<(u64, Seq<u8>)>)
    decreases msgs.len(),
{
    if msgs.len() == 0 {
        (cache, Seq::empty(), 0nat, Seq::empty())
    } else {
        let prev = dispatch_trace(cache, msgs.drop_last(), opens.drop_last(), writes.drop_last());
        let step = dispatch_step(prev.0, msgs.last(), opens.last(), writes.last());
        (
            step.0,
            prev.1.push(step.1),
            prev.2 + if step.2 {
                1nat
            } else {
                0nat
            },
            match step.3 {
                Some(w) => prev.3.push(w),
                None => prev.3,
            },
        )
    }
}

/// The records decoded off one inbound substream: (flags, payload) of each
/// valid envelope, in receipt order; invalid frames leave no trace.
pub open spec fn inbound_records(frames: Seq<Seq<u8>>) -> Seq<(u8, Seq<u8>)>
    decreases frames.len(),
{
    if frames.len() == 0 {
        Seq::empty()
    } else {
        let rest = inbound_records(frames.drop_last());
        if envelope_valid(frames.last()) {
            rest.push((frame_flags(frames.last()), frame_body(frames.last())))
        } else {
            rest
        }
    }
}

/// No more records than frames.
pub proof fn lemma_inbound_records_len(frames: Seq<Seq<u8>>)
    ensures
        inbound_records(frames).len() <= frames.len(),
    decreases frames.len(),
{
    if frames.len() > 0 {
        lemma_inbound_records_len(frames.drop_last());
    }
}

/// The payload bytes of a sequence of frames, each frame as its bytes.
pub open spec fn frames_view(frames: Seq<Vec<u8>>) -> Seq<Seq<u8>> {
    frames.map(|i: int, v: Vec<u8>| v@)
}

impl MessagingEngine {
    pub closed spec fn status(&self) -> EngineStatus {
        self.status
    }

    pub closed spec fn cache_view(&self) -> Map<Seq<u8>, u64> {
        self.cache@
    }

    pub closed spec fn next_tag(&self) -> u64 {
        self.minter.next_tag()
    }

    pub closed spec fn protocol(&self) -> Seq<u8> {
        self.protocol_id@
    }

    pub closed spec fn wf(&self) -> bool {
        self.cache.wf()
    }

    /// A fresh engine: running, with an empty cache, accepting inbound
    /// substream notifications for `protocol_id`.
    pub fn new(protocol_id: Vec<u8>) -> (e: MessagingEngine)
        ensures
            e.wf(),
            e.status() is Running,
            e.cache_view() == Map::<Seq<u8>, u64>::empty(),
            e.next_tag() == 0,
            e.protocol() == protocol_id@,
    {
        MessagingEngine {
            status: EngineStatus::Running,
            cache: SubstreamCache::new(),
            minter: TagMinter::new(),
            protocol_id,
        }
    }

    /// Whether the engine still accepts new outbound requests and inbound
    /// notifications: only while running.
    pub fn accepts_input(&self) -> (r: bool)
        ensures
            r == (self.status() is Running),
    {
        match self.status {
            EngineStatus::Running => true,
            _ => false,
        }
    }

    /// Whether an inbound substream notification is taken up: it must carry
    /// this engine's protocol identifier, and the engine must be running.
    pub fn accepts_notification(&self, protocol: &[u8]) -> (r: bool)
        ensures
            r == (protocol@ == self.protocol() && self.status() is Running),
    {
        let running = self.accepts_input();
        running && bytes_equal(protocol, self.protocol_id.as_slice())
    }

    /// The route for a send to `peer`: the cached substream handle to write
    /// on, or `None` when a substream must first be established.
    pub fn prepare_send(&self, peer: &NodeId) -> (r: Option<u64>)
        requires
            self.wf(),
        ensures
            r matches Some(id) ==> self.cache_view().contains_key(peer@) && self.cache_view()[peer@]
                == id,
            r is None ==> !self.cache_view().contains_key(peer@),
    {
        self.cache.get(peer)
    }

    /// Settles one outbound message, given what the outside work reported:
    /// `open` is the establishment outcome (ignored when a substream was
    /// cached), `write_ok` whether the framed write went through. Returns
    /// the single outcome event for the message — its tag is always the
    /// message's own — and whether an establishment was attempted, exactly
    /// as `dispatch_step` says.
    pub fn dispatch_one(&mut self, msg: OutboundMessage, open: OpenOutcome, write_ok: bool) -> (r:
        (MessagingEvent, bool))
        requires
            old(self).wf(),
            old(self).status() is Running,
        ensures
            final(self).wf(),
            final(self).status() == old(self).status(),
            final(self).next_tag() == old(self).next_tag(),
            final(self).protocol() == old(self).protocol(),
            final(self).cache_view() == dispatch_step(
                old(self).cache_view(),
                msg,
                open,
                write_ok,
            ).0,
            r.0 == dispatch_step(old(self).cache_view(), msg, open, write_ok).1,
            r.1 == dispatch_step(old(self).cache_view(), msg, open, write_ok).2,
    {
        let cached = self.cache.get(&msg.peer);
        match cached {
            Some(_) => {
                if write_ok {
                    (MessagingEvent::MessageSent(msg.tag), false)
                } else {
                    self.cache.invalidate(&msg.peer);
                    (
                        MessagingEvent::SendMessageFailed(
                            msg,
                            SendFailReason::SubstreamSendFailed,
                        ),
                        false,
                    )
                }
            },
            None => {
                match open {
                    OpenOutcome::DialFailed => (
                        MessagingEvent::SendMessageFailed(msg, SendFailReason::PeerDialFailed),
                        true,
                    ),
                    OpenOutcome::OpenFailed => (
                        MessagingEvent::SendMessageFailed(
                            msg,
                            SendFailReason::SubstreamSendFailed,
                        ),
                        true,
                    ),
                    OpenOutcome::Opened(id) => {
                        self.cache.insert(msg.peer.clone(), id);
                        if write_ok {
                            (MessagingEvent::MessageSent(msg.tag), true)
                        } else {
                            self.cache.invalidate(&msg.peer);
                            proof {
                                assert(self.cache@ =~= old(self).cache@.remove(msg.peer@));
                            }
                            (
                                MessagingEvent::SendMessageFailed(
                                    msg,
                                    SendFailReason::SubstreamSendFailed,
                                ),
                                true,
                            )
                        }
                    },
                }
            },
        }
    }

    /// Settles a whole batch of outbound messages in acceptance order,
    /// given the reported outcome of each: returns the outcome events, one
    /// per message in order, and how many establishment attempts were made,
    /// exactly as `dispatch_trace` says.
    pub fn dispatch_batch(
        &mut self,
        msgs: Vec<OutboundMessage>,
        opens: &Vec<OpenOutcome>,
        writes: &Vec<bool>,
    ) -> (r: (Vec<MessagingEvent>, usize))
        requires
            old(self).wf(),
            old(self).status() is Running,
            msgs@.len() == opens@.len() == writes@.len(),
        ensures
            final(self).wf(),
            final(self).status() == old(self).status(),
            final(self).next_tag() == old(self).next_tag(),
            final(self).protocol() == old(self).protocol(),
            final(self).cache_view() == dispatch_trace(
                old(self).cache_view(),
                msgs@,
                opens@,
                writes@,
            ).0,
            r.0@ == dispatch_trace(old(self).cache_view(), msgs@, opens@, writes@).1,
            r.1 == dispatch_trace(old(self).cache_view(), msgs@, opens@, writes@).2,
    {
        let ghost all = msgs@;
        let ghost allo = opens@;
        let ghost allw = writes@;
        let ghost cache0 = self.cache_view();
        let mut rest = msgs;
        let mut events: Vec<MessagingEvent> = Vec::new();
        let mut attempts: usize = 0;
        let n: usize = rest.len();
        let mut i: usize = 0;
        while i < n
            invariant
                self.wf(),
                self.status() is Running,
                self.status() == old(self).status(),
                self.next_tag() == old(self).next_tag(),
                self.protocol() == old(self).protocol(),
                0 <= i <= n,
                n == all.len() == allo.len() == allw.len(),
                allo == opens@,
                allw == writes@,
                rest@ == all.subrange(i as int, n as int),
                cache0 == old(self).cache_view(),
                self.cache_view() == dispatch_trace(
                    cache0,
                    all.subrange(0, i as int),
                    allo.subrange(0, i as int),
                    allw.subrange(0, i as int),
                ).0,
                events@ == dispatch_trace(
                    cache0,
                    all.subrange(0, i as int),
                    allo.subrange(0, i as int),
                    allw.subrange(0, i as int),
                ).1,
                attempts == dispatch_trace(
                    cache0,
                    all.subrange(0, i as int),
                    allo.subrange(0, i as int),
                    allw.subrange(0, i as int),
                ).2,
                attempts <= i,
            decreases n - i,
        {
            let msg = rest.remove(0);
            assert(msg == all[i as int]);
            let open = opens[i];
            let write_ok = writes[i];
            let (ev, attempted) = self.dispatch_one(msg, open, write_ok);
            events.push(ev);
            if attempted {
                attempts = attempts + 1;
            }
            proof {
                let pre = all.subrange(0, i as int);
                let pre1 = all.subrange(0, i + 1);
                let preo = allo.subrange(0, i as int);
                let preo1 = allo.subrange(0, i + 1);
                let prew = allw.subrange(0, i as int);
                let prew1 = allw.subrange(0, i + 1);
                assert(pre1.drop_last() =~= pre);
                assert(preo1.drop_last() =~= preo);
                assert(prew1.drop_last() =~= prew);
                assert(pre1.last() == all[i as int]);
                assert(rest@ =~= all.subrange(i + 1, n as int));
            }
            i = i + 1;
        }
        proof {
            assert(all.subrange(0, n as int) =~= all);
            assert(allo.subrange(0, n as int) =~= allo);
            assert(allw.subrange(0, n as int) =~= allw);
        }
        (events, attempts)
    }

    /// Handles one frame read off an inbound substream from `peer`:
    /// decodes and verifies it as a signed envelope. A valid envelope
    /// yields exactly one inbound message — carrying the envelope's payload
    /// and flags, the source peer, and a freshly minted tag — and exactly
    /// one `MessageReceived` event with that tag. An invalid frame yields
    /// nothing and leaves the engine unchanged: it does not tear the
    /// substream down.
    pub fn on_inbound_frame(&mut self, peer: &NodeId, frame: &[u8]) -> (r: Option<
        (InboundMessage, MessagingEvent),
    >)
        requires
            old(self).wf(),
            old(self).next_tag() < u64::MAX,
        ensures
            final(self).wf(),
            final(self).status() == old(self).status(),
            final(self).cache_view() == old(self).cache_view(),
            final(self).protocol() == old(self).protocol(),
            r is Some <==> envelope_valid(frame@),
            r matches Some(p) ==> {
                &&& p.0.source@ == peer@
                &&& p.0.flags.bits == frame_flags(frame@)
                &&& p.0.body@ == frame_body(frame@)
                &&& p.0.tag.value == old(self).next_tag()
                &&& (p.1 matches MessagingEvent::MessageReceived(n, t) && n@ == peer@ && t
                    == p.0.tag)
                &&& final(self).next_tag() == old(self).next_tag() + 1
            },
            r is None ==> final(self).next_tag() == old(self).next_tag(),
    {
        match envelope::decode(frame) {
            Ok(env) => {
                let tag = self.minter.mint();
                let m = InboundMessage {
                    source: peer.clone(),
                    flags: env.flags,
                    body: env.body,
                    tag,
                };
                let ev = MessagingEvent::MessageReceived(peer.clone(), tag);
                Some((m, ev))
            },
            Err(_) => None,
        }
    }

    /// Decodes a run of frames read off one inbound substream, in receipt
    /// order: exactly the valid envelopes become inbound messages and
    /// `MessageReceived` events, in order, with consecutive fresh tags; the
    /// invalid frames are dropped without stopping the run.
    pub fn process_inbound_batch(&mut self, peer: &NodeId, frames: &Vec<Vec<u8>>) -> (r: (
        Vec<InboundMessage>,
        Vec<MessagingEvent>,
    ))
        requires
            old(self).wf(),
            old(self).next_tag() + frames@.len() <= u64::MAX,
        ensures
            final(self).wf(),
            final(self).status() == old(self).status(),
            final(self).cache_view() == old(self).cache_view(),
            final(self).protocol() == old(self).protocol(),
            r.0@.len() == inbound_records(frames_view(frames@)).len(),
            r.1@.len() == r.0@.len(),
            final(self).next_tag() == old(self).next_tag() + r.0@.len(),
            forall|i: int|
                0 <= i < r.0@.len() ==> {
                    &&& (#[trigger] r.0@[i]).source@ == peer@
                    &&& r.0@[i].flags.bits == inbound_records(frames_view(frames@))[i].0
                    &&& r.0@[i].body@ == inbound_records(frames_view(frames@))[i].1
                    &&& r.0@[i].tag.value == old(self).next_tag() + i
                },
            forall|i: int|
                0 <= i < r.1@.len() ==> ({
                    &&& (#[trigger] r.1@[i]) matches MessagingEvent::MessageReceived(n, t)
                    &&& n@ == peer@
                    &&& t == r.0@[i].tag
                }),
    {
        let ghost fv = frames_view(frames@);
        let mut msgs: Vec<InboundMessage> = Vec::new();
        let mut events: Vec<MessagingEvent> = Vec::new();
        let n: usize = frames.len();
        let mut i: usize = 0;
        while i < n
            invariant
                self.wf(),
                self.status() == old(self).status(),
                self.cache_view() == old(self).cache_view(),
                self.protocol() == old(self).protocol(),
                0 <= i <= n,
                n == frames@.len(),
                fv == frames_view(frames@),
                old(self).next_tag() + frames@.len() <= u64::MAX,
                msgs@.len() == inbound_records(fv.subrange(0, i as int)).len(),
                events@.len() == msgs@.len(),
                self.next_tag() == old(self).next_tag() + msgs@.len(),
                forall|k: int|
                    0 <= k < msgs@.len() ==> {
                        &&& (#[trigger] msgs@[k]).source@ == peer@
                        &&& msgs@[k].flags.bits == inbound_records(fv.subrange(0, i as int))[k].0
                        &&& msgs@[k].body@ == inbound_records(fv.subrange(0, i as int))[k].1
                        &&& msgs@[k].tag.value == old(self).next_tag() + k
                    },
                forall|k: int|
                    0 <= k < events@.len() ==> ({
                        &&& (#[trigger] events@[k]) matches MessagingEvent::MessageReceived(nd, t)
                        &&& nd@ == peer@
                        &&& t == msgs@[k].tag
                    }),
            decreases n - i,
        {
            proof {
                lemma_inbound_records_len(fv.subrange(0, i as int));
            }
            let ghost pre = fv.subrange(0, i as int);
            let ghost pre1 = fv.subrange(0, i + 1);
            match self.on_inbound_frame(peer, frames[i].as_slice()) {
                Some(p) => {
                    let (m, ev) = p;
                    msgs.push(m);
                    events.push(ev);
                },
                None => {
                },
            }
            proof {
                assert(pre1.drop_last() =~= pre);
                assert(pre1.last() == fv[i as int]);
                assert(fv[i as int] == frames@[i as int]@);
            }
            i = i + 1;
        }
        proof {
            assert(fv.subrange(0, n as int) =~= fv);
        }
        (msgs, events)
    }

    /// The shutdown signal: a running engine stops accepting new input and
    /// begins shutting down; in-flight work may still settle. In any other
    /// state the signal changes nothing.
    pub fn on_shutdown(&mut self)
        requires
            old(self).wf(),
        ensures
            final(self).wf(),
            final(self).cache_view() == old(self).cache_view(),
            final(self).next_tag() == old(self).next_tag(),
            final(self).protocol() == old(self).protocol(),
            final(self).status() == (if old(self).status() is Running {
                EngineStatus::ShuttingDown
            } else {
                old(self).status()
            }),
    {
        match self.status {
            EngineStatus::Running => {
                self.status = EngineStatus::ShuttingDown;
            },
            _ => {
            },
        }
    }

    /// The last transition: once in-flight work has settled, the engine
    /// stops and releases every cached substream handle. There is no way
    /// back to `Running`.
    pub fn finalize(&mut self)
        requires
            old(self).wf(),
            old(self).status() is ShuttingDown,
        ensures
            final(self).wf(),
            final(self).status() is Stopped,
            final(self).cache_view() == Map::<Seq<u8>, u64>::empty(),
            final(self).next_tag() == old(self).next_tag(),
            final(self).protocol() == old(self).protocol(),
    {
        self.status = EngineStatus::Stopped;
        self.cache.clear();
    }

    /// Whether a fresh inbound tag can still be minted.
    pub fn can_mint_tag(&self) -> (r: bool)
        ensures
            r == (self.next_tag() < u64::MAX),
    {
        self.minter.can_mint()
    }

    /// Number of peers with a cached substream.
    pub fn cached_count(&self) -> (n: usize)
        requires
            self.wf(),
        ensures
            n == self.cache_view().dom().len(),
    {
        self.cache.len()
    }
}

/// Every submitted message yields exactly one outcome event, and that
/// event carries the message's own tag: no silent drop, no duplicate, full
/// correlation — whatever the network reported.
pub proof fn lemma_one_event_per_message(
    cache: Map<Seq<u8>, u64>,
    msgs: Seq<OutboundMessage>,
    opens: Seq<OpenOutcome>,
    writes: Seq<bool>,
)
    requires
        msgs.len() == opens.len() == writes.len(),
    ensures
        dispatch_trace(cache, msgs, opens, writes).1.len() == msgs.len(),
        forall|i: int|
            0 <= i < msgs.len() ==> (#[trigger] dispatch_trace(
                cache,
                msgs,
                opens,
                writes,
            ).1[i]).spec_tag() == msgs[i].tag,
    decreases msgs.len(),
{
    if msgs.len() > 0 {
        lemma_one_event_per_message(
            cache,
            msgs.drop_last(),
            opens.drop_last(),
            writes.drop_last(),
        );
    }
}

/// With pairwise-distinct submission tags, the outcome events' tags are
/// pairwise distinct too: one event per tag, no duplicates, no omissions.
pub proof fn lemma_outcome_tags_distinct(
    cache: Map<Seq<u8>, u64>,
    msgs: Seq<OutboundMessage>,
    opens: Seq<OpenOutcome>,
    writes: Seq<bool>,
)
    requires
        msgs.len() == opens.len() == writes.len(),
        forall|i: int, j: int|
            0 <= i < j < msgs.len() ==> (#[trigger] msgs[i].tag) != (#[trigger] msgs[j].tag),
    ensures
        forall|i: int, j: int|
            0 <= i < j < msgs.len() ==> (#[trigger] dispatch_trace(
                cache,
                msgs,
                opens,
                writes,
            ).1[i]).spec_tag() != (#[trigger] dispatch_trace(
                cache,
                msgs,
                opens,
                writes,
            ).1[j]).spec_tag(),
{
    lemma_one_event_per_message(cache, msgs, opens, writes);
}

/// Substream reuse: a batch of sends to one previously-uncached peer whose
/// first establishment succeeds and whose writes all go through makes
/// exactly one establishment attempt; every message is sent, in order, on
/// that one substream, and the substream stays cached.
pub proof fn lemma_substream_reuse(
    cache: Map<Seq<u8>, u64>,
    msgs: Seq<OutboundMessage>,
    opens: Seq<OpenOutcome>,
    writes: Seq<bool>,
    peer: Seq<u8>,
    id: u64,
)
    requires
        msgs.len() == opens.len() == writes.len(),
        msgs.len() >= 1,
        forall|i: int| 0 <= i < msgs.len() ==> (#[trigger] msgs[i]).peer@ == peer,
        !cache.contains_key(peer),
        opens[0] == OpenOutcome::Opened(id),
        forall|i: int| 0 <= i < writes.len() ==> (#[trigger] writes[i]) == true,
    ensures
        dispatch_trace(cache, msgs, opens, writes).2 == 1,
        dispatch_trace(cache, msgs, opens, writes).0 == cache.insert(peer, id),
        dispatch_trace(cache, msgs, opens, writes).3.len() == msgs.len(),
        forall|i: int|
            0 <= i < msgs.len() ==> (#[trigger] dispatch_trace(cache, msgs, opens, writes).3[i])
                == (id, msgs[i].body@),
        forall|i: int|
            0 <= i < msgs.len() ==> (#[trigger] dispatch_trace(cache, msgs, opens, writes).1[i])
                == MessagingEvent::MessageSent(msgs[i].tag),
    decreases msgs.len(),
{
    lemma_one_event_per_message(cache, msgs, opens, writes);
    let full = dispatch_trace(cache, msgs, opens, writes);
    if msgs.len() == 1 {
        assert(msgs.drop_last().len() == 0);
        assert(msgs.last() == msgs[0]);
        assert(opens.last() == opens[0]);
        assert(writes.last() == writes[0]);
        assert(msgs[0].peer@ == peer);
        assert(writes[0] == true);
        let prev = dispatch_trace(cache, msgs.drop_last(), opens.drop_last(), writes.drop_last());
        assert(prev.0 == cache && prev.2 == 0);
        assert(prev.1 == Seq::<MessagingEvent>::empty());
        assert(prev.3 == Seq::<(u64, Seq<u8>)>::empty());
        let step = dispatch_step(cache, msgs[0], opens[0], writes[0]);
        assert(step.0 == cache.insert(peer, id));
        assert(step.1 == MessagingEvent::MessageSent(msgs[0].tag));
        assert(step.2 == true);
        assert(step.3 == Some((id, msgs[0].body@)));
        assert(full.2 == 1);
        assert(full.1[0] == MessagingEvent::MessageSent(msgs[0].tag));
        assert(full.3[0] == (id, msgs[0].body@));
    } else {
        lemma_substream_reuse(
            cache,
            msgs.drop_last(),
            opens.drop_last(),
            writes.drop_last(),
            peer,
            id,
        );
        lemma_one_event_per_message(
            cache,
            msgs.drop_last(),
            opens.drop_last(),
            writes.drop_last(),
        );
        let prev = dispatch_trace(cache, msgs.drop_last(), opens.drop_last(), writes.drop_last());
        assert(prev.0 == cache.insert(peer, id));
        assert(prev.0.contains_key(peer) && prev.0[peer] == id);
        assert(msgs.last().peer@ == peer);
        assert(writes.last() == true);
        let step = dispatch_step(prev.0, msgs.last(), opens.last(), writes.last());
        assert(step.1 == MessagingEvent::MessageSent(msgs.last().tag));
        assert(step.3 == Some((id, msgs.last().body@)));
        assert forall|i: int| 0 <= i < msgs.len() implies (#[trigger] full.1[i])
            == MessagingEvent::MessageSent(msgs[i].tag) by {
            if i < msgs.len() - 1 {
                assert(full.1[i] == prev.1[i]);
                assert(msgs.drop_last()[i] == msgs[i]);
            } else {
                assert(full.1[i] == step.1);
                assert(msgs.last() == msgs[i]);
            }
        }
        assert forall|i: int| 0 <= i < msgs.len() implies (#[trigger] full.3[i]) == (
            id,
            msgs[i].body@,
        ) by {
            if i < msgs.len() - 1 {
                assert(full.3[i] == prev.3[i]);
                assert(msgs.drop_last()[i] == msgs[i]);
            } else {
                assert(full.3[i] == (id, msgs.last().body@));
                assert(msgs.last() == msgs[i]);
            }
        }
    }
}

/// Dial failure classification: a single send to an unreachable,
/// previously-uncached peer makes exactly one dial attempt and yields
/// exactly one event, `SendMessageFailed` with reason `PeerDialFailed`,
/// and the cache is untouched.
pub proof fn lemma_dial_failure_classified(
    cache: Map<Seq<u8>, u64>,
    msg: OutboundMessage,
    write_ok: bool,
)
    requires
        !cache.contains_key(msg.peer@),
    ensures
        dispatch_trace(cache, seq![msg], seq![OpenOutcome::DialFailed], seq![write_ok]).1
            =~= seq![
            MessagingEvent::SendMessageFailed(msg, SendFailReason::PeerDialFailed),
        ],
        dispatch_trace(cache, seq![msg], seq![OpenOutcome::DialFailed], seq![write_ok]).2 == 1,
        dispatch_trace(cache, seq![msg], seq![OpenOutcome::DialFailed], seq![write_ok]).0 == cache,
{
    let msgs = seq![msg];
    let opens = seq![OpenOutcome::DialFailed];
    let writes = seq![write_ok];
    assert(msgs.drop_last().len() == 0);
    assert(msgs.last() == msg);
    assert(opens.last() == OpenOutcome::DialFailed);
    assert(writes.last() == write_ok);
    let prev = dispatch_trace(cache, msgs.drop_last(), opens.drop_last(), writes.drop_last());
    assert(prev.1 == Seq::<MessagingEvent>::empty());
    assert(prev.2 == 0);
    assert(prev.0 == cache);
    let full = dispatch_trace(cache, msgs, opens, writes);
    assert(full.1 =~= seq![
        MessagingEvent::SendMessageFailed(msg, SendFailReason::PeerDialFailed),
    ]);
    assert(full.2 == 1);
}

/// Mid-stream failure classification and cache invalidation: once the
/// channel to a peer is severed — every write fails and no dial is
/// reported as failing (a connection still exists) — every send to that
/// peer fails with `SubstreamSendFailed`, there is still exactly one event
/// per message, and the peer's cache entry is gone afterwards, so the next
/// send re-establishes from scratch.
pub proof fn lemma_severed_substream(
    cache: Map<Seq<u8>, u64>,
    msgs: Seq<OutboundMessage>,
    opens: Seq<OpenOutcome>,
    writes: Seq<bool>,
    peer: Seq<u8>,
)
    requires
        msgs.len() == opens.len() == writes.len(),
        forall|i: int| 0 <= i < msgs.len() ==> (#[trigger] msgs[i]).peer@ == peer,
        forall|i: int| 0 <= i < writes.len() ==> (#[trigger] writes[i]) == false,
        forall|i: int| 0 <= i < opens.len() ==> !((#[trigger] opens[i]) is DialFailed),
    ensures
        dispatch_trace(cache, msgs, opens, writes).1.len() == msgs.len(),
        forall|i: int|
            0 <= i < msgs.len() ==> (#[trigger] dispatch_trace(cache, msgs, opens, writes).1[i])
                == MessagingEvent::SendMessageFailed(
                msgs[i],
                SendFailReason::SubstreamSendFailed,
            ),
        msgs.len() >= 1 ==> !dispatch_trace(cache, msgs, opens, writes).0.contains_key(peer),
    decreases msgs.len(),
{
    if msgs.len() > 0 {
        lemma_severed_substream(cache, msgs.drop_last(), opens.drop_last(), writes.drop_last(), peer);
    }
}

} // verus!
