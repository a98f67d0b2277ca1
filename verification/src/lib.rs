//! User-scoped real-time notification core.
//!
//! A single broadcast bus fans every published envelope out to every
//! subscriber; each connection filters locally by its user identifier.
//! This crate holds the verified core of that design: the envelope model,
//! its wire codec, the per-item filtering steps of the two delivery paths,
//! the socket session state machine, and the bus delivery semantics.
//! Transport plumbing (HTTP routing, socket upgrades, timers) lives outside.

pub mod bus;
pub mod codec;
pub mod envelope;
pub mod publish;
pub mod session;
pub mod stream;

pub use envelope::{MessageModel, MessageType, Notification, NotificationModel};
