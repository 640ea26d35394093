//! The session handlers: connect, disconnect and message.

pub mod event;
pub mod on_connect;
pub mod on_disconnect;
pub mod on_message;
pub mod session;
pub mod socket;
