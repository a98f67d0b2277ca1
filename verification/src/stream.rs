//! The streaming endpoint's per-item logic.
//!
//! The one-way delivery path subscribes to the bus and turns each raw
//! subscription item into at most one outbound event payload. The transport
//! around it supplies the items and emits the heartbeats; the decision of
//! what, if anything, each item becomes is made here.

use vstd::prelude::*;

use crate::codec::envelope_json;
use crate::envelope::{MessageModel, MessageType, Notification, NotificationModel};

verus! {

/// The model of one raw subscription item: an envelope received from the
/// bus, or the description of a subscription error (a lagged cursor).
pub open spec fn item_model(item: Result<Notification, String>) -> Result<
    NotificationModel,
    Seq<char>,
> {
    match item {
        Ok(n) => Ok(n@),
        Err(e) => Err(e@),
    }
}

/// What the streaming endpoint emits for one raw subscription item.
/// A received envelope passes exactly when addressed to this stream's user;
/// a subscription error is surfaced as a self-addressed error envelope,
/// which therefore always passes. The event payload is the envelope's wire
/// form.
pub open spec fn sse_event(user_id: Seq<char>, item: Result<NotificationModel, Seq<char>>) -> Option<
    Seq<char>,
> {
    match item {
        Ok(n) => if n.user_id == user_id {
            Some(envelope_json(n))
        } else {
            None
        },
        Err(desc) => Some(
            envelope_json(
                NotificationModel { user_id: user_id, message: MessageModel::Error(desc) },
            ),
        ),
    }
}

/// One step of the streaming endpoint: filters and serializes one raw
/// subscription item into at most one event payload.
pub fn sse_step(user_id: &String, item: Result<Notification, String>) -> (r: Option<String>)
    ensures
        r matches Some(s) ==> sse_event(user_id@, item_model(item)) == Some(s@),
        r is None ==> sse_event(user_id@, item_model(item)) is None,
{
    match item {
        Ok(n) => {
            if n.user_id == *user_id {
                Some(crate::codec::encode_notification(&n))
            } else {
                None
            }
        },
        Err(desc) => {
            let synthesized = Notification {
                user_id: user_id.clone(),
                message: MessageType::Error(desc),
            };
            Some(crate::codec::encode_notification(&synthesized))
        },
    }
}

/// No cross-user delivery: an envelope addressed to user `a` is never
/// emitted for a subscriber filtering on a different user `b`, neither on
/// the streaming path nor on the socket's outbound path.
pub proof fn lemma_no_cross_delivery(a: Seq<char>, b: Seq<char>, n: NotificationModel)
    requires
        n.user_id == a,
        a != b,
    ensures
        sse_event(b, Ok(n)) is None,
        crate::session::outbound_event(b, n) is None,
{
}

} // verus!
