//! The connection store: items, operations, the store interface, the
//! in-memory backend and the mapping between records and items.

pub mod db_local;
pub mod db_trait;
pub mod item;
pub mod websocket_table;
