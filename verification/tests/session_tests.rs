use notify_core::session::{
    inbound_step, is_active, outbound_step, session_step, SessionEvent, SessionState,
};
use notify_core::{MessageType, Notification};

#[test]
fn probe_failure_closes_without_reading() {
    let s = session_step(SessionState::Handshaking, SessionEvent::ProbeSendFailed);
    assert_eq!(s, SessionState::Closed);
    assert!(!is_active(s));
    // Whatever the transport would report next, the session stays closed.
    let s = session_step(s, SessionEvent::FirstFrameOther);
    assert_eq!(s, SessionState::Closed);
}

#[test]
fn close_frame_closes_without_subscribing() {
    let s = session_step(SessionState::Handshaking, SessionEvent::ProbeSent);
    assert_eq!(s, SessionState::Handshaking);
    let s = session_step(s, SessionEvent::FirstFrameClose);
    assert_eq!(s, SessionState::Closed);
    assert!(!is_active(s));
}

#[test]
fn invalid_first_frame_closes() {
    let s = session_step(SessionState::Handshaking, SessionEvent::FirstFrameInvalid);
    assert_eq!(s, SessionState::Closed);
}

#[test]
fn any_other_first_frame_activates() {
    let s = session_step(SessionState::Handshaking, SessionEvent::ProbeSent);
    let s = session_step(s, SessionEvent::FirstFrameOther);
    assert_eq!(s, SessionState::Active);
    assert!(is_active(s));
}

#[test]
fn ended_loop_closes_active_session_for_good() {
    let s = session_step(SessionState::Active, SessionEvent::LoopEnded);
    assert_eq!(s, SessionState::Closed);
    // No later event reopens the session.
    let s = session_step(s, SessionEvent::FirstFrameOther);
    assert_eq!(s, SessionState::Closed);
    let s = session_step(s, SessionEvent::ProbeSent);
    assert_eq!(s, SessionState::Closed);
}

#[test]
fn inbound_ping_becomes_pong() {
    let user = "alice".to_string();
    let reply = inbound_step(&user, "{\"user_id\":\"x\",\"message\":\"ping\"}").unwrap();
    assert_eq!(
        reply,
        Notification { user_id: "alice".to_string(), message: MessageType::Pong }
    );
}

#[test]
fn inbound_malformed_falls_back_to_ping() {
    let user = "alice".to_string();
    // Undecodable input substitutes the default envelope, whose message is a
    // ping, so a pong is still published.
    let reply = inbound_step(&user, "not json at all").unwrap();
    assert_eq!(
        reply,
        Notification { user_id: "alice".to_string(), message: MessageType::Pong }
    );
}

#[test]
fn inbound_non_ping_is_ignored() {
    let user = "alice".to_string();
    assert!(inbound_step(&user, "{\"user_id\":\"x\",\"message\":\"pong\"}").is_none());
    assert!(inbound_step(&user, "{\"user_id\":\"x\",\"message\":{\"data\":\"hi\"}}").is_none());
    assert!(inbound_step(&user, "{\"user_id\":\"x\",\"message\":{\"error\":\"e\"}}").is_none());
}

#[test]
fn outbound_forwards_own_user_only() {
    let user = "alice".to_string();
    let own = Notification { user_id: "alice".to_string(), message: MessageType::Pong };
    let other = Notification { user_id: "bob".to_string(), message: MessageType::Pong };
    assert_eq!(
        outbound_step(&user, &own).unwrap(),
        "{\"user_id\":\"alice\",\"message\":\"pong\"}"
    );
    assert!(outbound_step(&user, &other).is_none());
}
