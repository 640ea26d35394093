//! The connection registry: how records are stored as items, and the reads
//! and writes that the handlers make.

use vstd::prelude::*;
use vstd::string::StringExecFns;
use crate::database::db_trait::{
    is_room_listing, primary_key, room_of, GetRequest, IDatabase, QueryRequest, Rows,
    WriteRequest, WriteView,
};
use crate::database::item::{
    number_at, string_at, AttributeValue, AttributeView, Item, ItemView,
};
use crate::domain::errors::{ErrorKind, LogicError};
use crate::domain::websocket_record::{RecordView, WebsocketRecord};

verus! {

/// The registry of connection records.
pub struct WebsocketTable {}

/// The item that stores a record.
pub open spec fn record_item(r: RecordView) -> ItemView {
    Map::<Seq<char>, AttributeView>::empty().insert("id"@, AttributeView::S(r.id)).insert(
        "modified_at"@,
        AttributeView::N(r.modified_at),
    ).insert("room_id"@, AttributeView::S(r.room_id)).insert("name"@, AttributeView::S(r.name))
}

/// The key item that addresses the record of a connection.
pub open spec fn key_item(id: Seq<char>) -> ItemView {
    Map::<Seq<char>, AttributeView>::empty().insert("id"@, AttributeView::S(id))
}

/// The record that an item stores, where it has the four attributes of one
/// with their types.
pub open spec fn item_record(item: ItemView) -> Option<RecordView> {
    match (
        string_at(item, "id"@),
        string_at(item, "room_id"@),
        string_at(item, "name"@),
        number_at(item, "modified_at"@),
    ) {
        (Some(id), Some(room_id), Some(name), Some(modified_at)) => Some(
            RecordView { id, room_id, name, modified_at },
        ),
        _ => None,
    }
}

/// What a lookup of `id` finds in a table: the record, `NotFound` where the
/// table has no item under `id`, `Conflict` where the item there is not a
/// record.
pub open spec fn lookup(rows: Rows, id: Seq<char>) -> Result<RecordView, ErrorKind> {
    if !rows.contains_key(id) {
        Err(ErrorKind::NotFound)
    } else {
        match item_record(rows[id]) {
            Some(r) => Ok(r),
            None => Err(ErrorKind::Conflict),
        }
    }
}

/// The table after the record `r` has been stored.
pub open spec fn stored(rows: Rows, r: RecordView) -> Rows {
    rows.insert(r.id, record_item(r))
}

/// The later of two times.
pub open spec fn later(a: i64, b: i64) -> i64 {
    if a >= b {
        a
    } else {
        b
    }
}

/// The later of two times.
pub fn later_of(a: i64, b: i64) -> (t: i64)
    ensures
        t == later(a, b),
{
    if a >= b {
        a
    } else {
        b
    }
}

/// The time that a write of `r` leaves in the table: the time that `r`
/// carries, or the time of the record that the table holds under the id of
/// `r` where that is later.
pub open spec fn later_time(rows: Rows, r: RecordView) -> i64 {
    match lookup(rows, r.id) {
        Ok(held) => later(held.modified_at, r.modified_at),
        Err(_) => r.modified_at,
    }
}

/// The table after a write of the record `r`: the record is stored whole
/// under its id, with a time that is not earlier than the time of the
/// record that was there.
pub open spec fn written(rows: Rows, r: RecordView) -> Rows {
    stored(
        rows,
        RecordView { id: r.id, room_id: r.room_id, name: r.name, modified_at: later_time(rows, r) },
    )
}

/// The table after the record of `id` has been removed.
pub open spec fn removed(rows: Rows, id: Seq<char>) -> Rows {
    rows.remove(id)
}

/// Every item of the table that asserts a room can be read as a record when
/// that room is `room`, and every item asserts some room.
pub open spec fn room_readable(rows: Rows, room: Seq<char>) -> bool {
    forall|k: Seq<char>| #[trigger]
        rows.contains_key(k) ==> room_of(rows[k]) is Some && (room_of(rows[k]) == Some(room)
            ==> item_record(rows[k]) is Some)
}

/// `records` lists exactly the records of the table that assert `room`,
/// each once, in some order.
pub open spec fn is_member_listing(rows: Rows, room: Seq<char>, records: Seq<WebsocketRecord>) -> bool {
    &&& forall|i: int|
        0 <= i < records.len() ==> {
            &&& (#[trigger] records[i])@.room_id == room
            &&& rows.contains_key(records[i]@.id)
            &&& item_record(rows[records[i]@.id]) == Some(records[i]@)
        }
    &&& forall|i: int, j: int|
        0 <= i < j < records.len() ==> (#[trigger] records[i])@.id != (#[trigger] records[j])@.id
    &&& forall|k: Seq<char>| #[trigger]
        rows.contains_key(k) && room_of(rows[k]) == Some(room) ==> exists|i: int|
            0 <= i < records.len() && (#[trigger] records[i])@.id == k
}

/// The names of the four attributes differ from each other.
pub proof fn lemma_attribute_names_differ()
    ensures
        "id"@ != "room_id"@,
        "id"@ != "name"@,
        "id"@ != "modified_at"@,
        "room_id"@ != "name"@,
        "room_id"@ != "modified_at"@,
        "name"@ != "modified_at"@,
{
    reveal_strlit("id");
    reveal_strlit("room_id");
    reveal_strlit("name");
    reveal_strlit("modified_at");
    assert("id"@.len() == 2);
    assert("room_id"@.len() == 7);
    assert("name"@.len() == 4);
    assert("modified_at"@.len() == 11);
}

/// A record read back from the item that stores it is the same record, and
/// the item is stored under the record's id and asserts the record's room.
pub proof fn lemma_record_round_trip(r: RecordView)
    ensures
        item_record(record_item(r)) == Some(r),
        primary_key(record_item(r)) == Some(r.id),
        room_of(record_item(r)) == Some(r.room_id),
{
    lemma_attribute_names_differ();
}

/// The key item of `id` addresses `id`.
pub proof fn lemma_key_item(id: Seq<char>)
    ensures
        primary_key(key_item(id)) == Some(id),
{
}

impl WebsocketTable {
    /// The read that fetches the record of `id`.
    pub fn get(id: &str) -> (res: Result<GetRequest, LogicError>)
        ensures
            res matches Ok(request) && request.key@ == key_item(id@),
    {
        let mut key = Item::new();
        key.insert("id", AttributeValue::S(String::from_str(id)));
        Ok(GetRequest { key })
    }

    /// The write that stores `record` whole.
    pub fn save(record: &WebsocketRecord) -> (res: Result<WriteRequest, LogicError>)
        ensures
            res matches Ok(op) && op@ == (WriteView::Put { item: record_item(record@) }),
    {
        let mut item = Item::new();
        item.insert("id", AttributeValue::S(record.id.clone()));
        item.insert("modified_at", AttributeValue::N(record.modified_at));
        item.insert("room_id", AttributeValue::S(record.room_id.clone()));
        item.insert("name", AttributeValue::S(record.name.clone()));
        Ok(WriteRequest::Put { item })
    }

    /// The write that removes `record`.
    pub fn delete(record: &WebsocketRecord) -> (res: Result<WriteRequest, LogicError>)
        ensures
            res matches Ok(op) && op@ == (WriteView::Delete { key: key_item(record@.id) }),
    {
        let mut key = Item::new();
        key.insert("id", AttributeValue::S(record.id.clone()));
        Ok(WriteRequest::Delete { key })
    }

    /// The query that lists the members of `room_id`.
    pub fn room_query(room_id: &str) -> (query: QueryRequest)
        ensures
            query.index_name@ == "room_id_index"@,
            query.key_condition_expression@ == "room_id = :room_id"@,
            query.expression_attribute_values@ == Map::<Seq<char>, AttributeView>::empty().insert(
                ":room_id"@,
                AttributeView::S(room_id@),
            ),
    {
        let mut values = Item::new();
        values.insert(":room_id", AttributeValue::S(String::from_str(room_id)));
        QueryRequest {
            index_name: String::from_str("room_id_index"),
            key_condition_expression: String::from_str("room_id = :room_id"),
            expression_attribute_values: values,
        }
    }

    /// The record that `item` stores. Fails with `Conflict` exactly when
    /// the item lacks one of the four attributes or holds one with another
    /// type.
    pub fn from_map(item: &Item) -> (res: Result<WebsocketRecord, LogicError>)
        ensures
            match res {
                Ok(record) => item_record(item@) == Some(record@),
                Err(e) => item_record(item@) is None && e@.kind == ErrorKind::Conflict,
            },
    {
        let id = match item.get_string("id") {
            Ok(v) => v,
            Err(e) => {
                return Err(e);
            },
        };
        let room_id = match item.get_string("room_id") {
            Ok(v) => v,
            Err(e) => {
                return Err(e);
            },
        };
        let name = match item.get_string("name") {
            Ok(v) => v,
            Err(e) => {
                return Err(e);
            },
        };
        let modified_at = match item.get_number("modified_at") {
            Ok(v) => v,
            Err(e) => {
                return Err(e);
            },
        };
        Ok(WebsocketRecord { id, room_id, name, modified_at })
    }

    /// Looks up the record of `id`.
    ///
    /// On a reliable store the answer is `lookup` of the table: the record,
    /// `NotFound` or `Conflict`. Another store may also answer
    /// `StoreUnavailable`.
    pub fn from_db<D: IDatabase>(id: &str, database: &D) -> (res: Result<
        WebsocketRecord,
        LogicError,
    >)
        ensures
            match res {
                Ok(record) => lookup(database.rows(), id@) == Ok::<RecordView, ErrorKind>(record@)
                    && record@.id == id@,
                Err(e) => if e@.kind == ErrorKind::StoreUnavailable {
                    !database.reliable()
                } else {
                    lookup(database.rows(), id@) == Err::<RecordView, ErrorKind>(e@.kind)
                },
            },
    {
        let request = match Self::get(id) {
            Ok(r) => r,
            Err(e) => {
                return Err(e);
            },
        };
        let output = match database.read_single(request) {
            Ok(o) => o,
            Err(e) => {
                return Err(e);
            },
        };
        let attributes = match output.item {
            Some(a) => a,
            None => {
                return Err(LogicError::NotFound(String::from_str("Item not found")));
            },
        };
        Self::from_map(&attributes)
    }

    /// Stores `record` as it is, in place of any record with its id.
    ///
    /// Succeeds on a reliable store. A failure is `StoreUnavailable` and
    /// leaves the table as it was.
    pub(crate) fn put_record<D: IDatabase>(record: &WebsocketRecord, db: &mut D) -> (res: Result<
        (),
        LogicError,
    >)
        ensures
            final(db).reliable() == old(db).reliable(),
            final(db).atomic() == old(db).atomic(),
            match res {
                Ok(_) => final(db).rows() == stored(old(db).rows(), record@),
                Err(e) => e@.kind == ErrorKind::StoreUnavailable && !old(db).reliable()
                    && final(db).rows() == old(db).rows(),
            },
    {
        proof {
            lemma_record_round_trip(record@);
        }
        let transaction = match Self::save(record) {
            Ok(t) => t,
            Err(e) => {
                return Err(e);
            },
        };
        db.write_single(transaction)
    }

    /// Writes `record` to the registry, in place of any record with its
    /// id. The time of a record never goes down: where the registry holds
    /// a record under the id with a later time, that time is kept.
    ///
    /// Succeeds on a reliable store. A failure is `StoreUnavailable` and
    /// leaves the table as it was.
    pub fn to_db<D: IDatabase>(record: &WebsocketRecord, db: &mut D) -> (res: Result<
        (),
        LogicError,
    >)
        ensures
            final(db).reliable() == old(db).reliable(),
            final(db).atomic() == old(db).atomic(),
            match res {
                Ok(_) => final(db).rows() == written(old(db).rows(), record@),
                Err(e) => e@.kind == ErrorKind::StoreUnavailable && !old(db).reliable()
                    && final(db).rows() == old(db).rows(),
            },
    {
        let modified_at = match Self::from_db(record.id.as_str(), &*db) {
            Ok(held) => later_of(held.modified_at, record.modified_at),
            Err(LogicError::StoreUnavailable(m)) => {
                return Err(LogicError::StoreUnavailable(m));
            },
            Err(_) => record.modified_at,
        };
        let kept = WebsocketRecord {
            id: record.id.clone(),
            room_id: record.room_id.clone(),
            name: record.name.clone(),
            modified_at,
        };
        Self::put_record(&kept, db)
    }

    /// Lists the records that assert `room_id`, in no particular order.
    ///
    /// On a reliable store the listing succeeds exactly when the table is
    /// readable for the room; a failure for an unreadable table is
    /// `Conflict`. Another store may also answer `StoreUnavailable`.
    pub fn get_room_connections<D: IDatabase>(room_id: &str, db: &D) -> (res: Result<
        Vec<WebsocketRecord>,
        LogicError,
    >)
        ensures
            match res {
                Ok(records) => is_member_listing(db.rows(), room_id@, records@),
                Err(e) => if e@.kind == ErrorKind::StoreUnavailable {
                    !db.reliable()
                } else {
                    e@.kind == ErrorKind::Conflict && !room_readable(db.rows(), room_id@)
                },
            },
    {
        let query = Self::room_query(room_id);
        let output = match db.query(query) {
            Ok(o) => o,
            Err(e) => {
                return Err(e);
            },
        };
        let ghost rows = db.rows();
        let mut items: Vec<WebsocketRecord> = Vec::new();
        let mut i: usize = 0;
        while i < output.len()
            invariant
                i <= output.len(),
                items.len() == i,
                rows == db.rows(),
                is_room_listing(rows, room_id@, output@),
                forall|j: int|
                    0 <= j < i ==> item_record(output[j]@) == Some((#[trigger] items[j])@),
            decreases output.len() - i,
        {
            let item = match Self::from_map(&output[i]) {
                Ok(r) => r,
                Err(e) => {
                    proof {
                        let k = primary_key(output[i as int]@)->0;
                        assert(rows.contains_key(k));
                    }
                    return Err(e);
                },
            };
            items.push(item);
            i += 1;
        }
        proof {
            assert forall|j: int| 0 <= j < items.len() implies {
                &&& (#[trigger] items[j])@.room_id == room_id@
                &&& rows.contains_key(items[j]@.id)
                &&& item_record(rows[items[j]@.id]) == Some(items[j]@)
            } by {
                assert(room_of(output[j]@) == Some(room_id@));
            }
            assert forall|a: int, b: int| 0 <= a < b < items.len() implies (#[trigger] items[a])@.id
                != (#[trigger] items[b])@.id by {
                assert(primary_key(output[a]@) != primary_key(output[b]@));
            }
            assert forall|k: Seq<char>| #[trigger]
                rows.contains_key(k) && room_of(rows[k]) == Some(room_id@) implies exists|j: int|
                0 <= j < items.len() && (#[trigger] items[j])@.id == k by {
                let j = choose|j: int|
                    0 <= j < output.len() && primary_key(#[trigger] output[j]@) == Some(k);
                assert(items[j]@.id == k);
            }
        }
        Ok(items)
    }
}

} // verus!
