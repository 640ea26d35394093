//! The disconnect handler.

use vstd::prelude::*;
use crate::database::db_trait::{IDatabase, Rows};
use crate::database::websocket_table::{lemma_key_item, lookup, removed, WebsocketTable};
use crate::domain::errors::{ErrorKind, LogicError};
use crate::domain::websocket_record::RecordView;

verus! {

/// What a disconnect does to the table, and what it answers: the record of
/// a known connection is removed; for a connection without a readable
/// record the lookup's error is reported. Whenever the answer is an error
/// the table is as it was.
pub open spec fn disconnect_outcome(
    before: Rows,
    after: Rows,
    reliable: bool,
    id: Seq<char>,
    res: Result<(), LogicError>,
) -> bool {
    match res {
        Ok(_) => lookup(before, id) is Ok && after == removed(before, id),
        Err(e) => after == before && if e@.kind == ErrorKind::StoreUnavailable {
            !reliable
        } else {
            lookup(before, id) == Err::<RecordView, ErrorKind>(e@.kind)
        },
    }
}

/// Unregisters the connection `connection_id`: looks its record up and
/// removes it. A connection without a record is an error.
pub fn on_disconnect<D: IDatabase>(connection_id: &str, database: &mut D) -> (res: Result<
    (),
    LogicError,
>)
    ensures
        final(database).reliable() == old(database).reliable(),
        final(database).atomic() == old(database).atomic(),
        disconnect_outcome(
            old(database).rows(),
            final(database).rows(),
            old(database).reliable(),
            connection_id@,
            res,
        ),
{
    let record = match WebsocketTable::from_db(connection_id, &*database) {
        Ok(r) => r,
        Err(e) => {
            return Err(e);
        },
    };
    let transaction = match WebsocketTable::delete(&record) {
        Ok(t) => t,
        Err(e) => {
            return Err(e);
        },
    };
    proof {
        lemma_key_item(record@.id);
    }
    database.write_single(transaction)
}

} // verus!
