//! The event broadcaster's fan-out, lag and delivery behaviour, and the
//! substream cache's own operations.

use messaging::cache::SubstreamCache;
use messaging::events::{EventBroadcaster, MessagingEvent};
use messaging::message::NodeId;
use messaging::tag::MessageTag;

fn sent(v: u64) -> MessagingEvent {
    MessagingEvent::MessageSent(MessageTag { value: v })
}

fn event_value(e: &MessagingEvent) -> u64 {
    match e {
        MessagingEvent::MessageSent(t) => t.value,
        _ => panic!("only MessageSent events are published in these tests"),
    }
}

#[test]
fn broadcaster_fans_out_to_all_subscribers() {
    let mut b = EventBroadcaster::new(16);
    let s1 = b.subscribe();
    let s2 = b.subscribe();
    b.publish(sent(0));
    b.publish(sent(1));
    b.publish(sent(2));

    for s in [s1, s2] {
        for expected in 0..3u64 {
            let e = b.poll(s).expect("event owed");
            assert_eq!(event_value(&e), expected);
        }
        assert!(b.poll(s).is_none(), "caught up");
    }
}

#[test]
fn subscriber_sees_only_later_events() {
    let mut b = EventBroadcaster::new(16);
    b.publish(sent(0));
    let s = b.subscribe();
    b.publish(sent(1));
    let e = b.poll(s).unwrap();
    assert_eq!(event_value(&e), 1);
    assert!(b.poll(s).is_none());
}

#[test]
fn slow_subscriber_observes_gap_not_backpressure() {
    let mut b = EventBroadcaster::new(2);
    let s = b.subscribe();
    for v in 0..5u64 {
        b.publish(sent(v));
    }
    // only the last two events are still within the lag window
    assert_eq!(event_value(&b.poll(s).unwrap()), 3);
    assert_eq!(event_value(&b.poll(s).unwrap()), 4);
    assert!(b.poll(s).is_none());
}

#[test]
fn drain_delivers_every_queued_event_before_stop() {
    // the shutdown path: everything already published is still handed to a
    // subscriber that kept up, in publish order
    let mut b = EventBroadcaster::new(100);
    let s = b.subscribe();
    for v in 0..10u64 {
        b.publish(sent(v));
    }
    let drained = b.drain(s);
    let values: Vec<u64> = drained.iter().map(|e| event_value(e)).collect();
    assert_eq!(values, (0..10u64).collect::<Vec<u64>>());
    assert!(b.poll(s).is_none());
}

#[test]
fn cache_insert_get_invalidate() {
    let mut c = SubstreamCache::new();
    let a = NodeId::new(b"peer-a".to_vec());
    let b_ = NodeId::new(b"peer-b".to_vec());

    assert_eq!(c.get(&a), None);
    c.insert(a.clone(), 11);
    c.insert(b_.clone(), 22);
    assert_eq!(c.get(&a), Some(11));
    assert_eq!(c.get(&b_), Some(22));
    assert_eq!(c.len(), 2);

    c.invalidate(&a);
    assert_eq!(c.get(&a), None);
    assert_eq!(c.get(&b_), Some(22));
    assert_eq!(c.len(), 1);
}

#[test]
fn cache_invalidate_is_idempotent() {
    let mut c = SubstreamCache::new();
    let a = NodeId::new(b"peer-a".to_vec());
    c.invalidate(&a);
    assert_eq!(c.get(&a), None);
    c.insert(a.clone(), 5);
    c.invalidate(&a);
    c.invalidate(&a);
    assert_eq!(c.get(&a), None);
    assert_eq!(c.len(), 0);
}

#[test]
fn cache_clear_releases_everything() {
    let mut c = SubstreamCache::new();
    c.insert(NodeId::new(b"x".to_vec()), 1);
    c.insert(NodeId::new(b"y".to_vec()), 2);
    c.clear();
    assert_eq!(c.len(), 0);
    assert_eq!(c.get(&NodeId::new(b"x".to_vec())), None);
}
