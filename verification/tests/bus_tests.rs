use notify_core::bus::{Bus, RecvOutcome};
use notify_core::{MessageType, Notification};

fn data(user_id: &str, payload: &str) -> Notification {
    Notification {
        user_id: user_id.to_string(),
        message: MessageType::Data(payload.to_string()),
    }
}

fn expect_received(r: RecvOutcome) -> Notification {
    match r {
        RecvOutcome::Received(n) => n,
        RecvOutcome::Lagged(k) => panic!("unexpected lag of {k}"),
        RecvOutcome::Pending => panic!("unexpected pending"),
    }
}

#[test]
fn subscriber_sees_publishes_in_order_exactly_once() {
    let mut bus = Bus::new(100);
    let mut sub = bus.subscribe();
    bus.publish(data("alice", "one"));
    bus.publish(data("alice", "two"));
    bus.publish(data("bob", "three"));
    assert_eq!(expect_received(bus.receive(&mut sub)), data("alice", "one"));
    assert_eq!(expect_received(bus.receive(&mut sub)), data("alice", "two"));
    assert_eq!(expect_received(bus.receive(&mut sub)), data("bob", "three"));
    assert!(matches!(bus.receive(&mut sub), RecvOutcome::Pending));
}

#[test]
fn subscriber_misses_messages_published_before_subscribing() {
    let mut bus = Bus::new(100);
    bus.publish(data("alice", "early"));
    let mut sub = bus.subscribe();
    assert!(matches!(bus.receive(&mut sub), RecvOutcome::Pending));
    bus.publish(data("alice", "late"));
    assert_eq!(expect_received(bus.receive(&mut sub)), data("alice", "late"));
}

#[test]
fn independent_cursors_advance_independently() {
    let mut bus = Bus::new(100);
    let mut fast = bus.subscribe();
    let mut slow = bus.subscribe();
    bus.publish(data("a", "1"));
    bus.publish(data("a", "2"));
    assert_eq!(expect_received(bus.receive(&mut fast)), data("a", "1"));
    assert_eq!(expect_received(bus.receive(&mut fast)), data("a", "2"));
    // The slow cursor still observes everything, from its own position.
    assert_eq!(expect_received(bus.receive(&mut slow)), data("a", "1"));
    assert_eq!(expect_received(bus.receive(&mut slow)), data("a", "2"));
}

#[test]
fn lagging_cursor_observes_overflow_then_resumes() {
    let mut bus = Bus::new(2);
    let mut sub = bus.subscribe();
    bus.publish(data("a", "1"));
    bus.publish(data("a", "2"));
    bus.publish(data("a", "3"));
    bus.publish(data("a", "4"));
    // Two envelopes fell out of the window; the lag is surfaced once, to
    // this subscriber only, and the cursor realigns to the oldest retained.
    match bus.receive(&mut sub) {
        RecvOutcome::Lagged(missed) => assert_eq!(missed, 2),
        _ => panic!("expected lag"),
    }
    assert_eq!(expect_received(bus.receive(&mut sub)), data("a", "3"));
    assert_eq!(expect_received(bus.receive(&mut sub)), data("a", "4"));
    assert!(matches!(bus.receive(&mut sub), RecvOutcome::Pending));
}
