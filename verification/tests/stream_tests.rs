use notify_core::stream::sse_step;
use notify_core::{MessageType, Notification};

fn data(user_id: &str, payload: &str) -> Notification {
    Notification {
        user_id: user_id.to_string(),
        message: MessageType::Data(payload.to_string()),
    }
}

#[test]
fn matching_envelope_is_serialized() {
    let user = "alice".to_string();
    let event = sse_step(&user, Ok(data("alice", "hello"))).unwrap();
    assert_eq!(event, "{\"user_id\":\"alice\",\"message\":{\"data\":\"hello\"}}");
}

#[test]
fn other_users_envelope_is_filtered_out() {
    let user = "bob".to_string();
    assert!(sse_step(&user, Ok(data("alice", "hello"))).is_none());
}

#[test]
fn subscription_error_becomes_self_addressed_error_event() {
    let user = "alice".to_string();
    // A lagged subscription is surfaced to this subscriber as an Error
    // envelope addressed to itself, so it always passes the filter.
    let event = sse_step(&user, Err("channel lagged by 5".to_string())).unwrap();
    assert_eq!(
        event,
        "{\"user_id\":\"alice\",\"message\":{\"error\":\"channel lagged by 5\"}}"
    );
}

#[test]
fn pong_envelopes_pass_the_stream_filter_too() {
    let user = "alice".to_string();
    let pong = Notification { user_id: "alice".to_string(), message: MessageType::Pong };
    assert_eq!(
        sse_step(&user, Ok(pong)).unwrap(),
        "{\"user_id\":\"alice\",\"message\":\"pong\"}"
    );
}
