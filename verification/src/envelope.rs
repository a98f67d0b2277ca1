//! The envelope: the addressed, typed notification unit exchanged between
//! publishers and subscribers, together with its mathematical model.

use vstd::prelude::*;

verus! {

/// The tagged message body of a notification envelope.
#[derive(Debug, PartialEq, Eq)]
pub enum MessageType {
    /// Client liveness / subscribe-intent signal; carries no payload.
    Ping,
    /// Server-relayed acknowledgment of a client ping; carries no payload.
    Pong,
    /// An actual notification payload.
    Data(String),
    /// A transport-level failure description, synthesized locally when a
    /// subscription yields an error; never sent by a remote peer.
    Error(String),
}

/// The notification envelope: a message body addressed to one user.
#[derive(Debug, PartialEq, Eq)]
pub struct Notification {
    /// Opaque identifier of the addressed user; compared only for equality.
    pub user_id: String,
    /// The typed message body.
    pub message: MessageType,
}

/// Mathematical model of a message body: payloads as character sequences.
pub enum MessageModel {
    Ping,
    Pong,
    Data(Seq<char>),
    Error(Seq<char>),
}

/// Mathematical model of an envelope.
pub struct NotificationModel {
    pub user_id: Seq<char>,
    pub message: MessageModel,
}

impl View for MessageType {
    type V = MessageModel;

    open spec fn view(&self) -> MessageModel {
        match self {
            MessageType::Ping => MessageModel::Ping,
            MessageType::Pong => MessageModel::Pong,
            MessageType::Data(p) => MessageModel::Data(p@),
            MessageType::Error(p) => MessageModel::Error(p@),
        }
    }
}

impl View for Notification {
    type V = NotificationModel;

    open spec fn view(&self) -> NotificationModel {
        NotificationModel { user_id: self.user_id@, message: self.message@ }
    }
}

impl Clone for MessageType {
    /// Cloning preserves the modelled value.
    fn clone(&self) -> (res: Self)
        ensures
            res@ == self@,
    {
        match self {
            MessageType::Ping => MessageType::Ping,
            MessageType::Pong => MessageType::Pong,
            MessageType::Data(p) => MessageType::Data(p.clone()),
            MessageType::Error(p) => MessageType::Error(p.clone()),
        }
    }
}

impl Clone for Notification {
    /// Cloning preserves the modelled value.
    fn clone(&self) -> (res: Self)
        ensures
            res@ == self@,
    {
        Notification { user_id: self.user_id.clone(), message: self.message.clone() }
    }
}

/// The model of the fallback envelope substituted for undecodable input.
pub open spec fn default_model() -> NotificationModel {
    NotificationModel { user_id: Seq::empty(), message: MessageModel::Ping }
}

impl Default for Notification {
    /// The fallback envelope: addressed to nobody, carrying a bare ping.
    fn default() -> (res: Self)
        ensures
            res@ == default_model(),
    {
        Notification { user_id: String::new(), message: MessageType::Ping }
    }
}

impl Notification {
    /// True exactly when the message body is a bare ping.
    pub fn is_ping(&self) -> (r: bool)
        ensures
            r == (self@.message is Ping),
    {
        match self.message {
            MessageType::Ping => true,
            _ => false,
        }
    }
}

} // verus!
