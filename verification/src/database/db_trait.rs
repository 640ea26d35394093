//! The store interface: requests, their meaning on a table of items, and
//! the contract that every backend meets.

use vstd::prelude::*;
use crate::database::item::{string_at, Item, ItemView};
use crate::domain::errors::{ErrorKind, LogicError};

verus! {

/// A table as a value of the model: the stored items by primary key.
pub type Rows = Map<Seq<char>, ItemView>;

/// The primary key of an item: the string stored under `id`.
pub open spec fn primary_key(item: ItemView) -> Option<Seq<char>> {
    string_at(item, "id"@)
}

/// The room that an item asserts: the string stored under `room_id`.
pub open spec fn room_of(item: ItemView) -> Option<Seq<char>> {
    string_at(item, "room_id"@)
}

/// A request for the item with a given key.
#[derive(Clone, Debug)]
pub struct GetRequest {
    /// The key attributes of the wanted item.
    pub key: Item,
}

/// The answer to a [`GetRequest`]: the item, where the table has it.
#[derive(Clone, Debug)]
pub struct ItemResponse {
    pub item: Option<Item>,
}

/// One write: an upsert of a whole item, or the removal of the item with a
/// given key.
#[derive(Clone, Debug)]
pub enum WriteRequest {
    Put { item: Item },
    Delete { key: Item },
}

/// A [`WriteRequest`] as a value of the model.
pub enum WriteView {
    Put { item: ItemView },
    Delete { key: ItemView },
}

impl View for WriteRequest {
    type V = WriteView;

    open spec fn view(&self) -> WriteView {
        match self {
            WriteRequest::Put { item } => WriteView::Put { item: item@ },
            WriteRequest::Delete { key } => WriteView::Delete { key: key@ },
        }
    }
}

/// A query over a secondary index.
#[derive(Clone, Debug)]
pub struct QueryRequest {
    /// The index to read.
    pub index_name: String,
    /// The condition on the index key, with placeholders for its values.
    pub key_condition_expression: String,
    /// The values of the placeholders.
    pub expression_attribute_values: Item,
}

/// The key that a write addresses, if it names one.
pub open spec fn write_key(op: WriteView) -> Option<Seq<char>> {
    match op {
        WriteView::Put { item } => primary_key(item),
        WriteView::Delete { key } => primary_key(key),
    }
}

/// The table after one write. A write that names no key changes nothing.
pub open spec fn apply_write(rows: Rows, op: WriteView) -> Rows {
    match op {
        WriteView::Put { item } => match primary_key(item) {
            Some(k) => rows.insert(k, item),
            None => rows,
        },
        WriteView::Delete { key } => match primary_key(key) {
            Some(k) => rows.remove(k),
            None => rows,
        },
    }
}

/// The writes of a batch as values of the model.
pub open spec fn write_views(ops: Seq<WriteRequest>) -> Seq<WriteView> {
    ops.map_values(|op: WriteRequest| op@)
}

/// The table after the writes of `ops`, applied in order.
pub open spec fn apply_writes(rows: Rows, ops: Seq<WriteView>) -> Rows
    decreases ops.len(),
{
    if ops.len() == 0 {
        rows
    } else {
        apply_write(apply_writes(rows, ops.drop_last()), ops.last())
    }
}

/// The index of the first write of `ops` that names no key, or the length
/// of `ops` where each names one.
pub open spec fn first_malformed(ops: Seq<WriteView>) -> int
    decreases ops.len(),
{
    if ops.len() == 0 {
        0
    } else if write_key(ops[0]) is None {
        0
    } else {
        1 + first_malformed(ops.drop_first())
    }
}

/// The room that a query asks for: the string given for `:room_id`.
pub open spec fn requested_room(values: ItemView) -> Option<Seq<char>> {
    string_at(values, ":room_id"@)
}

/// `items` lists exactly the items of the table that assert `room`, each
/// once, in some order.
pub open spec fn is_room_listing(rows: Rows, room: Seq<char>, items: Seq<Item>) -> bool {
    &&& forall|i: int|
        0 <= i < items.len() ==> {
            &&& room_of(#[trigger] items[i]@) == Some(room)
            &&& primary_key(items[i]@) is Some
            &&& rows.contains_key(primary_key(items[i]@)->0)
            &&& rows[primary_key(items[i]@)->0] == items[i]@
        }
    &&& forall|i: int, j: int|
        0 <= i < j < items.len() ==> primary_key(#[trigger] items[i]@) != primary_key(
            #[trigger] items[j]@,
        )
    &&& forall|k: Seq<char>| #[trigger]
        rows.contains_key(k) && room_of(rows[k]) == Some(room) ==> exists|i: int|
            0 <= i < items.len() && primary_key(#[trigger] items[i]@) == Some(k)
}

/// What a backend may answer to a read, given the table it holds.
pub open spec fn read_outcome(
    rows: Rows,
    reliable: bool,
    key: ItemView,
    res: Result<ItemResponse, LogicError>,
) -> bool {
    match res {
        Ok(response) => match primary_key(key) {
            None => false,
            Some(k) => match response.item {
                Some(item) => rows.contains_key(k) && item@ == rows[k] && primary_key(item@)
                    == Some(k),
                None => !rows.contains_key(k),
            },
        },
        Err(e) => match e@.kind {
            ErrorKind::Conflict => primary_key(key) is None,
            ErrorKind::NotFound => primary_key(key) is Some && !rows.contains_key(
                primary_key(key)->0,
            ),
            ErrorKind::StoreUnavailable => !reliable,
            _ => false,
        },
    }
}

/// What a backend may answer to one write, given the table before and
/// after.
pub open spec fn write_outcome(
    before: Rows,
    after: Rows,
    reliable: bool,
    op: WriteView,
    res: Result<(), LogicError>,
) -> bool {
    match res {
        Ok(_) => write_key(op) is Some && after == apply_write(before, op),
        Err(e) => after == before && match e@.kind {
            ErrorKind::Conflict => write_key(op) is None,
            ErrorKind::StoreUnavailable => !reliable,
            _ => false,
        },
    }
}

/// What a backend may answer to a batch of writes, given the table before
/// and after. On failure some prefix of the batch has been applied: the
/// empty one where the backend applies a batch as a whole.
pub open spec fn batch_outcome(
    before: Rows,
    after: Rows,
    reliable: bool,
    atomic: bool,
    ops: Seq<WriteView>,
    res: Result<(), LogicError>,
) -> bool {
    match res {
        Ok(_) => first_malformed(ops) == ops.len() && after == apply_writes(before, ops),
        Err(e) => {
            &&& atomic ==> after == before
            &&& exists|n: int|
                0 <= n <= ops.len() && after == #[trigger] apply_writes(before, ops.take(n))
            &&& match e@.kind {
                ErrorKind::Conflict => first_malformed(ops) < ops.len(),
                ErrorKind::StoreUnavailable => !reliable,
                _ => false,
            }
        },
    }
}

/// What a backend may answer to a room query, given the table it holds.
pub open spec fn query_outcome(
    rows: Rows,
    reliable: bool,
    values: ItemView,
    res: Result<Vec<Item>, LogicError>,
) -> bool {
    match res {
        Ok(items) => match requested_room(values) {
            None => false,
            Some(room) => is_room_listing(rows, room, items@),
        },
        Err(e) => match e@.kind {
            ErrorKind::Conflict => requested_room(values) is None || exists|k: Seq<char>| #[trigger]
                rows.contains_key(k) && room_of(rows[k]) is None,
            ErrorKind::StoreUnavailable => !reliable,
            _ => false,
        },
    }
}

/// A store of items by primary key.
///
/// `rows` is the table that the store holds. A store that is `reliable`
/// never reports `StoreUnavailable`, so each of its answers is decided by
/// the request and the table. A store that is `atomic` applies a batch as
/// a whole or not at all.
pub trait IDatabase {
    /// The table that the store holds.
    spec fn rows(&self) -> Rows;

    /// Whether the store never reports `StoreUnavailable`. A backend is
    /// taken to be unreliable unless it says otherwise.
    open spec fn reliable(&self) -> bool {
        false
    }

    /// Whether the store applies a batch as a whole or not at all.
    open spec fn atomic(&self) -> bool {
        false
    }

    /// Reads the item with the key of `request`.
    fn read_single(&self, request: GetRequest) -> (res: Result<ItemResponse, LogicError>)
        ensures
            read_outcome(self.rows(), self.reliable(), request.key@, res),
    ;

    /// Applies the writes of `items` in order.
    fn write(&mut self, items: Vec<WriteRequest>) -> (res: Result<(), LogicError>)
        ensures
            final(self).reliable() == old(self).reliable(),
            final(self).atomic() == old(self).atomic(),
            batch_outcome(
                old(self).rows(),
                final(self).rows(),
                old(self).reliable(),
                old(self).atomic(),
                write_views(items@),
                res,
            ),
    ;

    /// Applies one write.
    fn write_single(&mut self, item: WriteRequest) -> (res: Result<(), LogicError>)
        ensures
            final(self).reliable() == old(self).reliable(),
            final(self).atomic() == old(self).atomic(),
            write_outcome(old(self).rows(), final(self).rows(), old(self).reliable(), item@, res),
    ;

    /// Lists the items that assert the room of `query`.
    fn query(&self, query: QueryRequest) -> (res: Result<Vec<Item>, LogicError>)
        ensures
            query_outcome(self.rows(), self.reliable(), query.expression_attribute_values@, res),
    ;
}

} // verus!
