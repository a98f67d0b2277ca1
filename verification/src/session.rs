//! The socket session: lifecycle state machine and per-frame logic.
//!
//! A session performs a liveness handshake (probe out, one frame in), then
//! runs an inbound loop (client pings become published pongs) and an
//! outbound loop (bus envelopes addressed to this session's user go out to
//! the client). Every failure path converges on `Closed`; the transport
//! driver feeds events to [`session_step`] and consults the resulting state.

use vstd::prelude::*;

use crate::codec::{envelope_json, parse_envelope};
use crate::envelope::{
    default_model, MessageModel, MessageType, Notification, NotificationModel,
};

verus! {

/// The lifecycle of one socket session.
#[derive(Debug, Clone, Copy, PartialEq, Eq, Structural)]
pub enum SessionState {
    /// Probe sent (or about to be sent); waiting for the first inbound frame.
    Handshaking,
    /// Handshake confirmed; both loops run and a bus subscription exists.
    Active,
    /// Torn down; terminal.
    Closed,
}

/// What the transport reported to a session.
#[derive(Debug, Clone, Copy, PartialEq, Eq, Structural)]
pub enum SessionEvent {
    /// The liveness probe was handed to the transport.
    ProbeSent,
    /// The liveness probe could not be sent.
    ProbeSendFailed,
    /// The first inbound frame was a close frame.
    FirstFrameClose,
    /// The first inbound frame failed to decode, the peer errored, or the
    /// stream ended before any frame arrived.
    FirstFrameInvalid,
    /// Any other first inbound frame; its content is discarded.
    FirstFrameOther,
    /// The inbound or the outbound loop of an active session finished.
    LoopEnded,
}

/// The session transition function.
pub open spec fn session_next(s: SessionState, e: SessionEvent) -> SessionState {
    match (s, e) {
        (SessionState::Handshaking, SessionEvent::ProbeSent) => SessionState::Handshaking,
        (SessionState::Handshaking, SessionEvent::ProbeSendFailed) => SessionState::Closed,
        (SessionState::Handshaking, SessionEvent::FirstFrameClose) => SessionState::Closed,
        (SessionState::Handshaking, SessionEvent::FirstFrameInvalid) => SessionState::Closed,
        (SessionState::Handshaking, SessionEvent::FirstFrameOther) => SessionState::Active,
        (SessionState::Handshaking, SessionEvent::LoopEnded) => SessionState::Handshaking,
        (SessionState::Active, SessionEvent::LoopEnded) => SessionState::Closed,
        (SessionState::Active, _) => SessionState::Active,
        (SessionState::Closed, _) => SessionState::Closed,
    }
}

/// Drives one step of the session lifecycle.
pub fn session_step(s: SessionState, e: SessionEvent) -> (s2: SessionState)
    ensures
        s2 == session_next(s, e),
{
    match (s, e) {
        (SessionState::Handshaking, SessionEvent::ProbeSent) => SessionState::Handshaking,
        (SessionState::Handshaking, SessionEvent::ProbeSendFailed) => SessionState::Closed,
        (SessionState::Handshaking, SessionEvent::FirstFrameClose) => SessionState::Closed,
        (SessionState::Handshaking, SessionEvent::FirstFrameInvalid) => SessionState::Closed,
        (SessionState::Handshaking, SessionEvent::FirstFrameOther) => SessionState::Active,
        (SessionState::Handshaking, SessionEvent::LoopEnded) => SessionState::Handshaking,
        (SessionState::Active, SessionEvent::LoopEnded) => SessionState::Closed,
        (SessionState::Active, _) => SessionState::Active,
        (SessionState::Closed, _) => SessionState::Closed,
    }
}

/// A session reads frames and subscribes to the bus only while active.
pub open spec fn may_subscribe(s: SessionState) -> bool {
    s is Active
}

/// True exactly when the state is `Active`; the driver gates its loops and
/// its bus subscription on this.
pub fn is_active(s: SessionState) -> (r: bool)
    ensures
        r == may_subscribe(s),
{
    match s {
        SessionState::Active => true,
        _ => false,
    }
}

/// The state after a whole sequence of events.
pub open spec fn session_run(s: SessionState, evs: Seq<SessionEvent>) -> SessionState
    decreases evs.len(),
{
    if evs.len() == 0 {
        s
    } else {
        session_run(session_next(s, evs[0]), evs.skip(1))
    }
}

/// `Closed` is terminal: no sequence of later events leaves it.
pub proof fn lemma_closed_absorbing(evs: Seq<SessionEvent>)
    ensures
        session_run(SessionState::Closed, evs) == SessionState::Closed,
    decreases evs.len(),
{
    if evs.len() > 0 {
        lemma_closed_absorbing(evs.skip(1));
    }
}

/// A session whose liveness probe could not be sent closes at once and stays
/// closed whatever happens afterwards: it never becomes active, so it never
/// reads a frame and never subscribes to the bus.
pub proof fn lemma_probe_failure_never_active(evs: Seq<SessionEvent>)
    ensures
        session_run(
            session_next(SessionState::Handshaking, SessionEvent::ProbeSendFailed),
            evs,
        ) == SessionState::Closed,
{
    lemma_closed_absorbing(evs);
}

/// A session whose first inbound frame is a close frame closes and stays
/// closed: it never becomes active, so it never subscribes to the bus.
pub proof fn lemma_close_frame_never_active(evs: Seq<SessionEvent>)
    ensures
        session_run(
            session_next(SessionState::Handshaking, SessionEvent::FirstFrameClose),
            evs,
        ) == SessionState::Closed,
{
    lemma_closed_absorbing(evs);
}

/// The first loop to finish tears the whole session down: once either loop
/// of an active session ends, the session is closed for good — there is no
/// path back to `Active`, so the driver cancels the other loop and returns.
pub proof fn lemma_loop_end_closes_session(evs: Seq<SessionEvent>)
    ensures
        session_run(
            session_next(SessionState::Active, SessionEvent::LoopEnded),
            evs,
        ) == SessionState::Closed,
{
    lemma_closed_absorbing(evs);
}

// ---------------------------------------------------------------------------
// The two loops, one item at a time.
// ---------------------------------------------------------------------------

/// The envelope a session publishes in reply to one inbound text frame.
/// Undecodable text falls back to the default envelope, whose message is a
/// ping; a ping — decoded or fallback — is answered with a pong under the
/// session's own user identifier; every other message is ignored.
pub open spec fn inbound_reply(user_id: Seq<char>, text: Seq<char>) -> Option<NotificationModel> {
    let received = match parse_envelope(text) {
        Some(n) => n,
        None => default_model(),
    };
    if received.message is Ping {
        Some(NotificationModel { user_id: user_id, message: MessageModel::Pong })
    } else {
        None
    }
}

/// One step of the inbound loop: decides which envelope, if any, the session
/// publishes for one inbound text frame.
pub fn inbound_step(user_id: &String, text: &str) -> (r: Option<Notification>)
    ensures
        r matches Some(n) ==> inbound_reply(user_id@, text@) == Some(n@),
        r is None ==> inbound_reply(user_id@, text@) is None,
{
    let received = match crate::codec::decode_notification(text) {
        Some(n) => n,
        None => Notification::default(),
    };
    if received.is_ping() {
        Some(Notification { user_id: user_id.clone(), message: MessageType::Pong })
    } else {
        None
    }
}

/// Exactly one pong is published in reply to a ping, and none in reply to
/// any other message: for every envelope a client can put on the wire, the
/// session with user identifier `user_id` replies with the single envelope
/// `{user_id, Pong}` when the inbound message is a ping, and with nothing
/// otherwise.
pub proof fn lemma_ping_begets_one_pong(user_id: Seq<char>, n: NotificationModel)
    ensures
        inbound_reply(user_id, envelope_json(n)) == if n.message is Ping {
            Some(NotificationModel { user_id: user_id, message: MessageModel::Pong })
        } else {
            None::<NotificationModel>
        },
{
    crate::codec::lemma_codec_round_trip(n);
}

/// What the outbound loop sends for one envelope received from the bus: its
/// wire form exactly when it is addressed to this session's user, nothing
/// otherwise.
pub open spec fn outbound_event(user_id: Seq<char>, n: NotificationModel) -> Option<Seq<char>> {
    if n.user_id == user_id {
        Some(envelope_json(n))
    } else {
        None
    }
}

/// One step of the outbound loop: serializes a bus envelope for the client
/// exactly when it is addressed to this session's user.
pub fn outbound_step(user_id: &String, received: &Notification) -> (r: Option<String>)
    ensures
        r matches Some(s) ==> outbound_event(user_id@, received@) == Some(s@),
        r is None ==> outbound_event(user_id@, received@) is None,
{
    if received.user_id == *user_id {
        Some(crate::codec::encode_notification(received))
    } else {
        None
    }
}

} // verus!
