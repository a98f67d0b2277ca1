//! Publishing onto the live broadcast channel.
//!
//! The process fans envelopes out on a tokio broadcast channel; its sender
//! handle is shared by every connection. Publishing is the one channel
//! operation the core logic performs itself, so it stands here behind a
//! trusted wrapper; receiving suspends and is driven by the transport layer,
//! which hands each received envelope back into the verified step functions.

use vstd::prelude::*;

use tokio::sync::broadcast::Sender;

use crate::envelope::{MessageModel, MessageType, Notification, NotificationModel};
use crate::session::inbound_reply;

verus! {

/// tokio's `broadcast::Sender`, declared so the producer handle can appear
/// in signatures; the value is opaque here.
#[verifier::external_type_specification]
#[verifier::external_body]
#[verifier::reject_recursive_types(T)]
pub struct ExSender<T>(Sender<T>);

/// Relies on tokio's `broadcast::Sender::send`: the envelope is placed in
/// the buffer of every receiver existing at the call; `Ok` carries the
/// number of such receivers, and when none exists the envelope comes back
/// unchanged in the error.
#[verifier::external_body]
fn bus_send(tx: &Sender<Notification>, n: Notification) -> (r: Result<usize, Notification>)
    ensures
        r matches Err(m) ==> m == n,
{
    match tx.send(n) {
        Ok(k) => Ok(k),
        Err(tokio::sync::broadcast::error::SendError(m)) => Err(m),
    }
}

/// The administrative publish path: wraps a notification body addressed to
/// `user_id` as a Data envelope and publishes it. Publishing cannot
/// observably fail — an envelope nobody is subscribed for is simply dropped
/// by the channel — so the published envelope itself is returned.
pub fn publish_data(tx: &Sender<Notification>, user_id: String, message: String) -> (n:
    Notification)
    ensures
        n@ == (NotificationModel { user_id: user_id@, message: MessageModel::Data(message@) }),
{
    let n = Notification { user_id, message: MessageType::Data(message) };
    let _ = bus_send(tx, n.clone());
    n
}

/// One inbound socket frame, decided and published: a ping — or
/// undecodable text, which falls back to one — begets exactly one published
/// `{user_id, Pong}` envelope, returned here; any other frame publishes
/// nothing.
pub fn publish_inbound_reply(tx: &Sender<Notification>, user_id: &String, text: &str) -> (r:
    Option<Notification>)
    ensures
        r matches Some(n) ==> inbound_reply(user_id@, text@) == Some(n@),
        r is None ==> inbound_reply(user_id@, text@) is None,
{
    match crate::session::inbound_step(user_id, text) {
        Some(n) => {
            let _ = bus_send(tx, n.clone());
            Some(n)
        },
        None => None,
    }
}

} // verus!
