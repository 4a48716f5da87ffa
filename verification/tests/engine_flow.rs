//! The engine's outbound dispatch and inbound decode flows, mirroring the
//! protocol scenarios: substream reuse, dial failure, bulk mid-stream
//! failure, inbound handling, malformed tolerance and shutdown.

use messaging::engine::{MessagingEngine, OpenOutcome};
use messaging::envelope::encode;
use messaging::events::{MessagingEvent, SendFailReason};
use messaging::message::{MessageFlags, NodeId, OutboundMessage};
use messaging::tag::TagMinter;

fn proto() -> Vec<u8> {
    b"t/msg/0.1".to_vec()
}

fn node(b: &[u8]) -> NodeId {
    NodeId::new(b.to_vec())
}

fn msg_to(minter: &mut TagMinter, peer: &[u8], body: &[u8]) -> OutboundMessage {
    OutboundMessage::new(minter, node(peer), MessageFlags::none(), body.to_vec())
}

fn secret_key_bytes() -> Vec<u8> {
    let mut sk = vec![0u8; 32];
    sk[0] = 42;
    sk
}

#[test]
fn send_message_request() {
    // a cached-less peer with a healthy connection: one establishment, the
    // message is sent, and the outcome event carries the message's tag
    let mut engine = MessagingEngine::new(proto());
    let mut minter = TagMinter::new();
    let m = msg_to(&mut minter, b"peer-a", b"TEST_MSG1");
    let tag = m.tag;

    assert!(engine.prepare_send(&node(b"peer-a")).is_none());
    let (event, attempted) = engine.dispatch_one(m, OpenOutcome::Opened(7), true);
    assert!(attempted);
    assert!(matches!(event, MessagingEvent::MessageSent(t) if t == tag));
    // the substream is now cached for reuse
    assert_eq!(engine.prepare_send(&node(b"peer-a")), Some(7));
    assert_eq!(engine.cached_count(), 1);
}

#[test]
fn send_message_dial_failed() {
    let mut engine = MessagingEngine::new(proto());
    let mut minter = TagMinter::new();
    let m = msg_to(&mut minter, b"unreachable", b"TEST_MSG1");
    let tag = m.tag;

    let (event, attempted) = engine.dispatch_one(m, OpenOutcome::DialFailed, false);
    assert!(attempted, "exactly one dial attempt was made");
    match event {
        MessagingEvent::SendMessageFailed(failed, reason) => {
            assert_eq!(reason, SendFailReason::PeerDialFailed);
            assert_eq!(failed.tag, tag);
            assert_eq!(failed.body, b"TEST_MSG1".to_vec());
        },
        _ => panic!("expected SendMessageFailed"),
    }
    // nothing was cached
    assert_eq!(engine.cached_count(), 0);
}

#[test]
fn open_failure_is_substream_send_failed() {
    let mut engine = MessagingEngine::new(proto());
    let mut minter = TagMinter::new();
    let m = msg_to(&mut minter, b"peer-a", b"x");
    let (event, attempted) = engine.dispatch_one(m, OpenOutcome::OpenFailed, false);
    assert!(attempted);
    assert!(matches!(
        event,
        MessagingEvent::SendMessageFailed(_, SendFailReason::SubstreamSendFailed)
    ));
}

#[test]
fn many_concurrent_send_message_requests() {
    // 100 sends to one fresh peer: exactly one establishment, every message
    // sent, one event per tag, no duplicates
    const NUM_MSGS: usize = 100;
    let mut engine = MessagingEngine::new(proto());
    let mut minter = TagMinter::new();

    let mut msgs = Vec::new();
    let mut tags = Vec::new();
    for _ in 0..NUM_MSGS {
        let m = msg_to(&mut minter, b"peer-b", b"TEST_MSG1");
        tags.push(m.tag);
        msgs.push(m);
    }
    let opens = vec![OpenOutcome::Opened(1); NUM_MSGS];
    let writes = vec![true; NUM_MSGS];
    let (events, attempts) = engine.dispatch_batch(msgs, &opens, &writes);

    assert_eq!(attempts, 1, "a single call to create a substream");
    assert_eq!(events.len(), NUM_MSGS);
    for event in events {
        match event {
            MessagingEvent::MessageSent(tag) => {
                // each tag is emitted exactly once
                let index = tags.iter().position(|t| *t == tag).unwrap();
                tags.remove(index);
            },
            _ => panic!("expected MessageSent"),
        }
    }
    assert!(tags.is_empty());
}

#[test]
fn send_message_substream_bulk_failure() {
    // the first message goes out; then the channel is severed: every
    // subsequent send fails with SubstreamSendFailed, the event count still
    // equals the message count, and the tags come back in order
    const NUM_MSGS: usize = 10;
    let mut engine = MessagingEngine::new(proto());
    let mut minter = TagMinter::new();

    let mut msgs = Vec::new();
    let mut tags = Vec::new();
    for _ in 0..NUM_MSGS {
        let m = msg_to(&mut minter, b"peer-c", b"TEST_MSG1");
        tags.push(m.tag);
        msgs.push(m);
    }
    let mut opens = vec![OpenOutcome::OpenFailed; NUM_MSGS];
    opens[0] = OpenOutcome::Opened(3);
    let mut writes = vec![false; NUM_MSGS];
    writes[0] = true;

    let (events, _) = engine.dispatch_batch(msgs, &opens, &writes);
    assert_eq!(events.len(), NUM_MSGS);
    assert!(matches!(&events[0], MessagingEvent::MessageSent(t) if *t == tags[0]));
    for i in 1..NUM_MSGS {
        match &events[i] {
            MessagingEvent::SendMessageFailed(failed, reason) => {
                assert_eq!(*reason, SendFailReason::SubstreamSendFailed);
                assert_eq!(failed.tag, tags[i]);
            },
            _ => panic!("expected SendMessageFailed"),
        }
    }
    // the broken substream was evicted: the next send re-establishes
    assert_eq!(engine.prepare_send(&node(b"peer-c")), None);
}

#[test]
fn write_failure_evicts_cache_entry() {
    let mut engine = MessagingEngine::new(proto());
    let mut minter = TagMinter::new();
    let m1 = msg_to(&mut minter, b"peer-d", b"a");
    engine.dispatch_one(m1, OpenOutcome::Opened(9), true);
    assert_eq!(engine.prepare_send(&node(b"peer-d")), Some(9));

    let m2 = msg_to(&mut minter, b"peer-d", b"b");
    let (event, attempted) = engine.dispatch_one(m2, OpenOutcome::Opened(99), false);
    assert!(!attempted, "the cached substream was used");
    assert!(matches!(
        event,
        MessagingEvent::SendMessageFailed(_, SendFailReason::SubstreamSendFailed)
    ));
    assert_eq!(engine.prepare_send(&node(b"peer-d")), None);
}

#[test]
fn peers_do_not_share_substreams() {
    let mut engine = MessagingEngine::new(proto());
    let mut minter = TagMinter::new();
    let m1 = msg_to(&mut minter, b"peer-e", b"a");
    let m2 = msg_to(&mut minter, b"peer-f", b"b");
    let (_, a1) = engine.dispatch_one(m1, OpenOutcome::Opened(1), true);
    let (_, a2) = engine.dispatch_one(m2, OpenOutcome::Opened(2), true);
    assert!(a1 && a2, "each fresh peer needs its own establishment");
    assert_eq!(engine.prepare_send(&node(b"peer-e")), Some(1));
    assert_eq!(engine.prepare_send(&node(b"peer-f")), Some(2));
    assert_eq!(engine.cached_count(), 2);
}

#[test]
fn new_inbound_substream_handling() {
    // a validly signed envelope from peer X yields exactly one inbound
    // message with the right body and source, and one MessageReceived
    // event carrying that message's tag
    let mut engine = MessagingEngine::new(proto());
    let sk = secret_key_bytes();
    let frame = encode(&sk, MessageFlags::none(), b"TEST_MSG1").unwrap();

    let peer = node(b"expected-node");
    let out = engine.on_inbound_frame(&peer, &frame);
    let (in_msg, event) = out.expect("valid envelope must decode");
    assert!(in_msg.source.equals(&peer));
    assert_eq!(in_msg.body, b"TEST_MSG1".to_vec());
    match event {
        MessagingEvent::MessageReceived(n, tag) => {
            assert!(n.equals(&peer));
            assert_eq!(tag, in_msg.tag);
        },
        _ => panic!("expected MessageReceived"),
    }
}

#[test]
fn malformed_inbound_frame_is_dropped() {
    let mut engine = MessagingEngine::new(proto());
    let peer = node(b"someone");
    assert!(engine.on_inbound_frame(&peer, &[1, 2, 3]).is_none());
    // a frame of header size but with a garbage signature is dropped too
    assert!(engine.on_inbound_frame(&peer, &[0u8; 97]).is_none());
}

#[test]
fn malformed_inbound_tolerance() {
    // invalid frames produce nothing and do not stop later valid frames on
    // the same substream from being processed
    let mut engine = MessagingEngine::new(proto());
    let sk = secret_key_bytes();
    let good1 = encode(&sk, MessageFlags::none(), b"first").unwrap();
    let good2 = encode(&sk, MessageFlags::none(), b"second").unwrap();
    let frames = vec![vec![0u8; 5], good1, vec![0xau8; 200], good2];

    let peer = node(b"peer-x");
    let (msgs, events) = engine.process_inbound_batch(&peer, &frames);
    assert_eq!(msgs.len(), 2);
    assert_eq!(events.len(), 2);
    assert_eq!(msgs[0].body, b"first".to_vec());
    assert_eq!(msgs[1].body, b"second".to_vec());
    assert!(msgs[0].source.equals(&peer));
    assert_ne!(msgs[0].tag, msgs[1].tag, "each receipt mints a fresh tag");
    for (m, e) in msgs.iter().zip(events.iter()) {
        match e {
            MessagingEvent::MessageReceived(n, t) => {
                assert!(n.equals(&peer));
                assert_eq!(*t, m.tag);
            },
            _ => panic!("expected MessageReceived"),
        }
    }
}

#[test]
fn shutdown_stops_acceptance() {
    let mut engine = MessagingEngine::new(proto());
    assert!(engine.accepts_input());
    assert!(engine.accepts_notification(b"t/msg/0.1"));
    engine.on_shutdown();
    assert!(!engine.accepts_input());
    assert!(!engine.accepts_notification(b"t/msg/0.1"));
    engine.finalize();
    assert!(!engine.accepts_input());
    assert_eq!(engine.cached_count(), 0, "all cached handles released");
}

#[test]
fn notification_for_other_protocol_rejected() {
    let engine = MessagingEngine::new(proto());
    assert!(engine.accepts_notification(b"t/msg/0.1"));
    assert!(!engine.accepts_notification(b"t/other/1.0"));
    assert!(!engine.accepts_notification(b""));
}

#[test]
fn tags_unique_across_messages() {
    let mut minter = TagMinter::new();
    let mut tags = Vec::new();
    for i in 0..100u8 {
        let m = OutboundMessage::new(
            &mut minter,
            node(&[i]),
            MessageFlags::none(),
            vec![i],
        );
        tags.push(m.tag);
    }
    for i in 0..tags.len() {
        for j in (i + 1)..tags.len() {
            assert_ne!(tags[i], tags[j]);
        }
    }
}

#[test]
fn send_recovers_after_severance() {
    // once the broken entry is evicted, the next send establishes a fresh
    // substream and starts a new ordering domain
    let mut engine = MessagingEngine::new(proto());
    let mut minter = TagMinter::new();

    let m1 = msg_to(&mut minter, b"peer-g", b"a");
    engine.dispatch_one(m1, OpenOutcome::Opened(1), true);
    let m2 = msg_to(&mut minter, b"peer-g", b"b");
    let (event, _) = engine.dispatch_one(m2, OpenOutcome::Opened(1), false);
    assert!(matches!(
        event,
        MessagingEvent::SendMessageFailed(_, SendFailReason::SubstreamSendFailed)
    ));
    assert_eq!(engine.prepare_send(&node(b"peer-g")), None);

    let m3 = msg_to(&mut minter, b"peer-g", b"c");
    let (event, attempted) = engine.dispatch_one(m3, OpenOutcome::Opened(2), true);
    assert!(attempted, "a fresh establishment after eviction");
    assert!(matches!(event, MessagingEvent::MessageSent(_)));
    assert_eq!(engine.prepare_send(&node(b"peer-g")), Some(2));
}
