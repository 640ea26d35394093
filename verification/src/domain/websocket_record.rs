//! The session state of one live connection.

use vstd::prelude::*;
use vstd::string::StringExecFns;
use crate::domain::timestamp::now_micros;
use crate::domain::unique::{fresh_unique_id, UNIQUE_ID_LEN};

verus! {

/// One connection's record in the registry.
#[derive(Clone, Debug)]
pub struct WebsocketRecord {
    /// The connection id: assigned outside, the primary key.
    pub id: String,
    /// The room this connection currently asserts.
    pub room_id: String,
    /// The display name of the connection.
    pub name: String,
    /// When the record was last written, in microseconds since the epoch.
    pub modified_at: i64,
}

/// A [`WebsocketRecord`] as a value of the model.
pub struct RecordView {
    pub id: Seq<char>,
    pub room_id: Seq<char>,
    pub name: Seq<char>,
    pub modified_at: i64,
}

impl View for WebsocketRecord {
    type V = RecordView;

    open spec fn view(&self) -> RecordView {
        RecordView {
            id: self.id@,
            room_id: self.room_id@,
            name: self.name@,
            modified_at: self.modified_at,
        }
    }
}

impl WebsocketRecord {
    /// A record for `id` with a freshly generated room and display name,
    /// stamped with the current time.
    pub fn new(id: &str) -> (record: WebsocketRecord)
        ensures
            record@.id == id@,
            record@.room_id.len() == UNIQUE_ID_LEN,
            record@.name.len() == UNIQUE_ID_LEN,
    {
        WebsocketRecord {
            id: String::from_str(id),
            room_id: fresh_unique_id(),
            name: fresh_unique_id(),
            modified_at: now_micros(),
        }
    }

    /// A record for `id` in the room `room_id`, with a freshly generated
    /// display name, stamped with the current time.
    pub fn new_with_room(id: &str, room_id: &str) -> (record: WebsocketRecord)
        ensures
            record@.id == id@,
            record@.room_id == room_id@,
            record@.name.len() == UNIQUE_ID_LEN,
    {
        WebsocketRecord {
            id: String::from_str(id),
            room_id: String::from_str(room_id),
            name: fresh_unique_id(),
            modified_at: now_micros(),
        }
    }

    /// A record for `id` with the display name `name`, in a freshly
    /// generated room, stamped with the current time.
    pub fn new_with_name(id: &str, name: &str) -> (record: WebsocketRecord)
        ensures
            record@.id == id@,
            record@.room_id.len() == UNIQUE_ID_LEN,
            record@.name == name@,
    {
        WebsocketRecord {
            id: String::from_str(id),
            room_id: fresh_unique_id(),
            name: String::from_str(name),
            modified_at: now_micros(),
        }
    }

    /// The record with every field given: what the constructors above build
    /// once the fresh values are known.
    pub fn from_parts(id: &str, room_id: &str, name: &str, modified_at: i64) -> (record:
        WebsocketRecord)
        ensures
            record@ == (RecordView {
                id: id@,
                room_id: room_id@,
                name: name@,
                modified_at: modified_at,
            }),
    {
        WebsocketRecord {
            id: String::from_str(id),
            room_id: String::from_str(room_id),
            name: String::from_str(name),
            modified_at,
        }
    }
}

} // verus!
