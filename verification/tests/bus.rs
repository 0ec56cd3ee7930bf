use vrc_osc_manager::bus::{Envelope, InboundBus, OscValue, OutboundQueue, RecvOutcome};
use vrc_osc_manager::errors::CoreError;

fn msg(addr: &str) -> Envelope {
    Envelope { addr: addr.to_string(), args: vec![OscValue::Bool(true)] }
}

#[test]
fn slow_subscriber_lags_and_fast_subscriber_sees_everything() {
    let mut bus = InboundBus::new(1);
    let mut slow = bus.subscribe();
    let mut fast = bus.subscribe();
    bus.publish(msg("/one"));
    match bus.recv(&mut fast) {
        RecvOutcome::Message(m) => assert_eq!(m.addr, "/one"),
        _ => panic!("the fast subscriber keeps up"),
    }
    bus.publish(msg("/two"));
    match bus.recv(&mut fast) {
        RecvOutcome::Message(m) => assert_eq!(m.addr, "/two"),
        _ => panic!("the fast subscriber keeps up"),
    }
    bus.publish(msg("/three"));
    match bus.recv(&mut fast) {
        RecvOutcome::Message(m) => assert_eq!(m.addr, "/three"),
        _ => panic!("the fast subscriber keeps up"),
    }
    // the slow subscriber has not read at all: with a buffer of one it
    // lost the two oldest of the three messages
    match bus.recv(&mut slow) {
        RecvOutcome::Lagged(n) => assert_eq!(n, 2),
        _ => panic!("the slow subscriber must be told it lagged"),
    }
    match bus.recv(&mut slow) {
        RecvOutcome::Message(m) => assert_eq!(m.addr, "/three"),
        _ => panic!("after the lag report the newest message is still there"),
    }
    assert!(matches!(bus.recv(&mut slow), RecvOutcome::Empty));
}

#[test]
fn subscriber_only_sees_messages_published_after_subscribing() {
    let mut bus = InboundBus::new(8);
    bus.publish(msg("/before"));
    let mut sub = bus.subscribe();
    assert!(matches!(bus.recv(&mut sub), RecvOutcome::Empty));
    bus.publish(msg("/after"));
    match bus.recv(&mut sub) {
        RecvOutcome::Message(m) => assert_eq!(m.addr, "/after"),
        _ => panic!("the message published after subscribing must arrive"),
    }
}

#[test]
fn outbound_queue_delivers_in_fifo_order() {
    let mut q = OutboundQueue::new(4);
    assert_eq!(q.try_send(msg("/a")), Ok(true));
    assert_eq!(q.try_send(msg("/b")), Ok(true));
    assert_eq!(q.pop().unwrap().addr, "/a");
    assert_eq!(q.try_send(msg("/c")), Ok(true));
    assert_eq!(q.pop().unwrap().addr, "/b");
    assert_eq!(q.pop().unwrap().addr, "/c");
    assert!(q.pop().is_none());
}

#[test]
fn full_outbound_queue_backpressures_the_producer() {
    let mut q = OutboundQueue::new(1);
    assert_eq!(q.try_send(msg("/a")), Ok(true));
    assert_eq!(q.try_send(msg("/b")), Ok(false));
    // draining makes room again
    assert_eq!(q.pop().unwrap().addr, "/a");
    assert_eq!(q.try_send(msg("/b")), Ok(true));
}

#[test]
fn closed_bus_rejects_sends_with_bus_closed() {
    let mut q = OutboundQueue::new(4);
    q.try_send(msg("/pending")).unwrap();
    q.close();
    assert_eq!(q.try_send(msg("/late")), Err(CoreError::BusClosed));
    // already queued messages can still be drained
    assert_eq!(q.pop().unwrap().addr, "/pending");
}

#[test]
fn duplicate_copies_an_envelope_structurally() {
    let a = Envelope {
        addr: "/x".to_string(),
        args: vec![
            OscValue::Int(3),
            OscValue::Str("s".to_string()),
            OscValue::FloatBits(0x3f800000),
        ],
    };
    let b = a.duplicate();
    assert_eq!(a.addr, b.addr);
    assert_eq!(a.args.len(), b.args.len());
    match (&a.args[1], &b.args[1]) {
        (OscValue::Str(x), OscValue::Str(y)) => assert_eq!(x, y),
        _ => panic!("the string argument must survive the copy"),
    }
}
