//! End-to-end scenarios over the verified core, with the bus model standing
//! in for the process-wide channel, and over the live tokio channel for the
//! publish path.

use notify_core::bus::{Bus, RecvOutcome};
use notify_core::publish::{publish_data, publish_inbound_reply};
use notify_core::session::{inbound_step, is_active, session_step, SessionEvent, SessionState};
use notify_core::stream::sse_step;
use notify_core::{MessageType, Notification};

fn expect_received(r: RecvOutcome) -> Notification {
    match r {
        RecvOutcome::Received(n) => n,
        _ => panic!("expected an envelope"),
    }
}

#[test]
fn admin_publish_reaches_alice_stream_but_not_bobs() {
    // One streaming connection is open for alice and one for bob.
    let mut bus = Bus::new(100);
    let mut alice_sub = bus.subscribe();
    let mut bob_sub = bus.subscribe();
    let alice = "alice".to_string();
    let bob = "bob".to_string();

    // The administrative endpoint publishes {"message":"hello"} for alice.
    bus.publish(Notification {
        user_id: "alice".to_string(),
        message: MessageType::Data("hello".to_string()),
    });

    // Alice's stream emits an event whose data carries the "hello" payload.
    let received = expect_received(bus.receive(&mut alice_sub));
    let event = sse_step(&alice, Ok(received)).unwrap();
    assert_eq!(event, "{\"user_id\":\"alice\",\"message\":{\"data\":\"hello\"}}");

    // Bob's stream sees the same bus item but emits nothing for it.
    let received = expect_received(bus.receive(&mut bob_sub));
    assert!(sse_step(&bob, Ok(received)).is_none());
}

#[test]
fn socket_ping_pong_reaches_second_subscriber() {
    let alice = "alice".to_string();

    // A socket client connects for alice: probe goes out, the client replies
    // with some non-close frame, and the session becomes active.
    let s = session_step(SessionState::Handshaking, SessionEvent::ProbeSent);
    let s = session_step(s, SessionEvent::FirstFrameOther);
    assert_eq!(s, SessionState::Active);
    assert!(is_active(s));

    // Only now does the session subscribe; a second subscriber for alice is
    // also listening.
    let mut bus = Bus::new(100);
    let mut session_sub = bus.subscribe();
    let mut second_sub = bus.subscribe();

    // The client sends a ping envelope; the session publishes one pong under
    // its own user identifier.
    let reply = inbound_step(&alice, "{\"user_id\":\"x\",\"message\":\"ping\"}").unwrap();
    assert_eq!(
        reply,
        Notification { user_id: "alice".to_string(), message: MessageType::Pong }
    );
    bus.publish(reply);

    // Both of alice's subscribers observe the pong.
    let n = expect_received(bus.receive(&mut session_sub));
    assert_eq!(n.user_id, "alice");
    assert_eq!(n.message, MessageType::Pong);
    let n = expect_received(bus.receive(&mut second_sub));
    assert_eq!(
        sse_step(&alice, Ok(n)).unwrap(),
        "{\"user_id\":\"alice\",\"message\":\"pong\"}"
    );
}

#[test]
fn publish_data_delivers_on_the_live_channel() {
    let (tx, mut rx) = tokio::sync::broadcast::channel::<Notification>(100);
    let published = publish_data(&tx, "alice".to_string(), "hello".to_string());
    assert_eq!(
        published,
        Notification {
            user_id: "alice".to_string(),
            message: MessageType::Data("hello".to_string()),
        }
    );
    // The receiver observes a value-equal envelope.
    let got = rx.try_recv().unwrap();
    assert_eq!(got, published);
}

#[test]
fn publish_inbound_reply_delivers_pong_on_the_live_channel() {
    let (tx, mut rx) = tokio::sync::broadcast::channel::<Notification>(100);
    let alice = "alice".to_string();
    let published =
        publish_inbound_reply(&tx, &alice, "{\"user_id\":\"x\",\"message\":\"ping\"}").unwrap();
    assert_eq!(
        published,
        Notification { user_id: "alice".to_string(), message: MessageType::Pong }
    );
    assert_eq!(rx.try_recv().unwrap(), published);
}

#[test]
fn publish_inbound_reply_ignores_non_ping_on_the_live_channel() {
    let (tx, mut rx) = tokio::sync::broadcast::channel::<Notification>(100);
    let alice = "alice".to_string();
    let published =
        publish_inbound_reply(&tx, &alice, "{\"user_id\":\"x\",\"message\":{\"data\":\"d\"}}");
    assert!(published.is_none());
    assert!(rx.try_recv().is_err());
}
