//! The connect handler.

use vstd::prelude::*;
use crate::database::db_trait::{IDatabase, Rows};
use crate::database::websocket_table::{written, WebsocketTable};
use crate::domain::errors::{ErrorKind, LogicError};
use crate::domain::unique::UNIQUE_ID_LEN;
use crate::domain::websocket_record::{RecordView, WebsocketRecord};

verus! {

/// `r` is a record as a new connection `id` gets it: under that id, with a
/// freshly generated room and display name.
pub open spec fn is_fresh_record(r: RecordView, id: Seq<char>) -> bool {
    &&& r.id == id
    &&& r.room_id.len() == UNIQUE_ID_LEN
    &&& r.name.len() == UNIQUE_ID_LEN
}

/// What a connect does to the table, and what it answers: a fresh record
/// is written under the id, or the store fails and the table is as it was.
pub open spec fn connect_outcome(
    before: Rows,
    after: Rows,
    reliable: bool,
    id: Seq<char>,
    res: Result<(), LogicError>,
) -> bool {
    match res {
        Ok(_) => exists|r: RecordView|
            is_fresh_record(r, id) && after == #[trigger] written(before, r),
        Err(e) => e@.kind == ErrorKind::StoreUnavailable && !reliable && after == before,
    }
}

/// Registers the connection `connection_id`: stores a new record for it,
/// with a fresh room and display name and the current time, in place of
/// any record under that id. Fails only if the store write fails.
pub fn on_connect<D: IDatabase>(connection_id: &str, database: &mut D) -> (res: Result<
    (),
    LogicError,
>)
    ensures
        final(database).reliable() == old(database).reliable(),
        final(database).atomic() == old(database).atomic(),
        connect_outcome(
            old(database).rows(),
            final(database).rows(),
            old(database).reliable(),
            connection_id@,
            res,
        ),
{
    let record = WebsocketRecord::new(connection_id);
    let res = WebsocketTable::to_db(&record, database);
    proof {
        if res is Ok {
            assert(is_fresh_record(record@, connection_id@));
            assert(database.rows() == written(old(database).rows(), record@));
        }
    }
    res
}

} // verus!
