//! Room-based messaging core for WebSocket connections whose handlers keep no
//! state between events: the connection registry, the storage and push
//! interfaces, and the connect / disconnect / message handlers.

pub mod database;
pub mod domain;
pub mod notifier;
pub mod service;
pub mod text;
