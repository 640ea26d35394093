//! The data model: errors, connection records, chat messages, and the
//! sources of fresh identifiers and timestamps.

pub mod errors;
pub mod json;
pub mod message;
pub mod timestamp;
pub mod unique;
pub mod websocket_record;
