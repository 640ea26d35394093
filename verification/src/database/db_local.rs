//! The in-memory backend: one table, held by one owner.

use vstd::prelude::*;
use vstd::string::StringExecFns;
use crate::database::db_trait::{
    apply_writes, first_malformed, primary_key, requested_room, room_of, write_key, write_views,
    GetRequest, IDatabase, ItemResponse, QueryRequest, Rows, WriteRequest,
};
use crate::database::item::{Item, ItemView};
use crate::domain::errors::{ErrorKind, LogicError};
use crate::text::same_text;

verus! {

/// A stored item of the in-memory table.
#[derive(Clone, Debug)]
pub struct FakeItem {
    pub hash_map: Item,
}

/// One place of the table: an item under its primary key.
#[derive(Clone, Debug)]
pub struct Slot {
    key: String,
    item: FakeItem,
}

impl Slot {
    pub closed spec fn key_view(&self) -> Seq<char> {
        self.key@
    }

    pub closed spec fn item_view(&self) -> ItemView {
        self.item.hash_map@
    }
}

/// Some place of `s` holds the key `k`.
pub open spec fn has_slot(s: Seq<Slot>, k: Seq<char>) -> bool {
    exists|i: int| 0 <= i < s.len() && (#[trigger] s[i]).key_view() == k
}

/// A place of `s` that holds the key `k`.
pub open spec fn slot_of(s: Seq<Slot>, k: Seq<char>) -> int {
    choose|i: int| 0 <= i < s.len() && (#[trigger] s[i]).key_view() == k
}

/// No two places hold the same key.
pub open spec fn distinct_keys(s: Seq<Slot>) -> bool {
    forall|i: int, j: int|
        0 <= i < j < s.len() ==> (#[trigger] s[i]).key_view() != (#[trigger] s[j]).key_view()
}

/// Each place holds an item under that item's own primary key.
pub open spec fn keys_match(s: Seq<Slot>) -> bool {
    forall|i: int|
        0 <= i < s.len() ==> primary_key((#[trigger] s[i]).item_view()) == Some(s[i].key_view())
}

/// The table that a list of places stands for.
pub open spec fn table_rows(s: Seq<Slot>) -> Rows {
    Map::new(|k: Seq<char>| has_slot(s, k), |k: Seq<char>| s[slot_of(s, k)].item_view())
}

/// With distinct keys, the place of a key is the one place that holds it.
pub proof fn lemma_slot(s: Seq<Slot>, i: int)
    requires
        distinct_keys(s),
        0 <= i < s.len(),
    ensures
        has_slot(s, s[i].key_view()),
        slot_of(s, s[i].key_view()) == i,
        table_rows(s).contains_key(s[i].key_view()),
        table_rows(s)[s[i].key_view()] == s[i].item_view(),
{
    let k = s[i].key_view();
    assert(has_slot(s, k));
    let j = slot_of(s, k);
    assert(0 <= j < s.len() && s[j].key_view() == k);
    if j < i {
        assert(s[j].key_view() != s[i].key_view());
    } else if i < j {
        assert(s[i].key_view() != s[j].key_view());
    }
}

/// Replacing the item at a place is an insertion under its key.
pub proof fn lemma_replace_slot(s: Seq<Slot>, i: int, slot: Slot)
    requires
        distinct_keys(s),
        0 <= i < s.len(),
        slot.key_view() == s[i].key_view(),
    ensures
        distinct_keys(s.update(i, slot)),
        table_rows(s.update(i, slot)) == table_rows(s).insert(slot.key_view(), slot.item_view()),
{
    let t = s.update(i, slot);
    assert forall|a: int, b: int| 0 <= a < b < t.len() implies (#[trigger] t[a]).key_view() != (
    #[trigger] t[b]).key_view() by {
        assert(t[a].key_view() == s[a].key_view());
        assert(t[b].key_view() == s[b].key_view());
    }
    let want = table_rows(s).insert(slot.key_view(), slot.item_view());
    assert forall|k: Seq<char>| table_rows(t).contains_key(k) <==> want.contains_key(k) by {
        if has_slot(t, k) {
            let j = slot_of(t, k);
            assert(s[j].key_view() == k);
        }
        if has_slot(s, k) {
            let j = slot_of(s, k);
            assert(t[j].key_view() == k);
        }
        if k == slot.key_view() {
            assert(t[i].key_view() == k);
        }
    }
    assert forall|k: Seq<char>| table_rows(t).contains_key(k) implies table_rows(t)[k]
        == want[k] by {
        let j = slot_of(t, k);
        lemma_slot(t, j);
        assert(s[j].key_view() == k);
        lemma_slot(s, j);
    }
    assert(table_rows(t) =~= want);
}

/// Adding a place with a new key is an insertion under that key.
pub proof fn lemma_push_slot(s: Seq<Slot>, slot: Slot)
    requires
        distinct_keys(s),
        !has_slot(s, slot.key_view()),
    ensures
        distinct_keys(s.push(slot)),
        table_rows(s.push(slot)) == table_rows(s).insert(slot.key_view(), slot.item_view()),
{
    let t = s.push(slot);
    assert forall|a: int, b: int| 0 <= a < b < t.len() implies (#[trigger] t[a]).key_view() != (
    #[trigger] t[b]).key_view() by {
        assert(t[a] == s[a]);
        if b < s.len() {
            assert(t[b] == s[b]);
        }
    }
    let want = table_rows(s).insert(slot.key_view(), slot.item_view());
    assert forall|k: Seq<char>| table_rows(t).contains_key(k) <==> want.contains_key(k) by {
        if has_slot(t, k) {
            let j = slot_of(t, k);
            if j < s.len() {
                assert(s[j].key_view() == k);
            }
        }
        if has_slot(s, k) {
            let j = slot_of(s, k);
            assert(t[j].key_view() == k);
        }
        if k == slot.key_view() {
            assert(t[s.len() as int].key_view() == k);
        }
    }
    assert forall|k: Seq<char>| table_rows(t).contains_key(k) implies table_rows(t)[k]
        == want[k] by {
        let j = slot_of(t, k);
        lemma_slot(t, j);
        if j < s.len() {
            assert(s[j] == t[j]);
            lemma_slot(s, j);
        }
    }
    assert(table_rows(t) =~= want);
}

/// Taking a place out is the removal of its key.
pub proof fn lemma_remove_slot(s: Seq<Slot>, i: int)
    requires
        distinct_keys(s),
        0 <= i < s.len(),
    ensures
        distinct_keys(s.remove(i)),
        table_rows(s.remove(i)) == table_rows(s).remove(s[i].key_view()),
{
    let t = s.remove(i);
    assert forall|a: int| 0 <= a < t.len() implies #[trigger] t[a] == s[if a < i {
        a
    } else {
        a + 1
    }] by {}
    assert forall|a: int, b: int| 0 <= a < b < t.len() implies (#[trigger] t[a]).key_view() != (
    #[trigger] t[b]).key_view() by {
        let a2 = if a < i {
            a
        } else {
            a + 1
        };
        let b2 = if b < i {
            b
        } else {
            b + 1
        };
        assert(t[a] == s[a2]);
        assert(t[b] == s[b2]);
        assert(s[a2].key_view() != s[b2].key_view());
    }
    let want = table_rows(s).remove(s[i].key_view());
    lemma_slot(s, i);
    assert forall|k: Seq<char>| table_rows(t).contains_key(k) <==> want.contains_key(k) by {
        if has_slot(t, k) {
            let j = slot_of(t, k);
            let j2 = if j < i {
                j
            } else {
                j + 1
            };
            assert(t[j] == s[j2]);
            lemma_slot(s, j2);
        }
        if has_slot(s, k) && k != s[i].key_view() {
            let j = slot_of(s, k);
            let j2 = if j < i {
                j
            } else {
                j - 1
            };
            assert(t[j2] == s[j]);
        }
    }
    assert forall|k: Seq<char>| table_rows(t).contains_key(k) implies table_rows(t)[k]
        == want[k] by {
        let j = slot_of(t, k);
        lemma_slot(t, j);
        let j2 = if j < i {
            j
        } else {
            j + 1
        };
        assert(t[j] == s[j2]);
        lemma_slot(s, j2);
    }
    assert(table_rows(t) =~= want);
}

/// The in-memory store: a table of items by primary key. It never reports
/// `StoreUnavailable`, and it applies a batch item by item.
pub struct DatabaseLocal {
    table: Vec<Slot>,
    primary_key_column: String,
}

impl DatabaseLocal {
    #[verifier::type_invariant]
    closed spec fn wf(&self) -> bool {
        &&& self.primary_key_column@ == "id"@
        &&& distinct_keys(self.table@)
        &&& keys_match(self.table@)
    }

    /// An empty store.
    pub fn new() -> (db: DatabaseLocal)
        ensures
            db.rows() == Map::<Seq<char>, ItemView>::empty(),
    {
        let db = DatabaseLocal { table: Vec::new(), primary_key_column: String::from_str("id") };
        assert(db.rows() =~= Map::<Seq<char>, ItemView>::empty());
        db
    }

    /// The place that holds `key`, or the number of places where none does.
    fn find(&self, key: &str) -> (i: usize)
        ensures
            i <= self.table.len(),
            i < self.table.len() ==> self.table[i as int].key_view() == key@,
            i == self.table.len() ==> !has_slot(self.table@, key@),
    {
        let mut i: usize = 0;
        while i < self.table.len()
            invariant
                i <= self.table.len(),
                forall|j: int| 0 <= j < i ==> (#[trigger] self.table[j]).key_view() != key@,
            decreases self.table.len() - i,
        {
            if same_text(self.table[i].key.as_str(), key) {
                return i;
            }
            i += 1;
        }
        i
    }

    /// Stores `item` under its primary key, in place of any item there.
    /// Fails with `Conflict`, and changes nothing, where the item has no
    /// string under `id`.
    fn write_put(&mut self, item: Item) -> (res: Result<(), LogicError>)
        ensures
            match res {
                Ok(_) => primary_key(item@) is Some && final(self).rows() == old(self).rows().insert(
                    primary_key(item@)->0,
                    item@,
                ),
                Err(e) => primary_key(item@) is None && e@.kind == ErrorKind::Conflict && final(self).rows() == old(self).rows(),
            },
    {
        proof {
            use_type_invariant(&*self);
        }
        let primary_key = match item.get_string(self.primary_key_column.as_str()) {
            Ok(k) => k,
            Err(e) => {
                return Err(e);
            },
        };
        let i = self.find(primary_key.as_str());
        let slot = Slot { key: primary_key, item: FakeItem { hash_map: item } };
        let mut table: Vec<Slot> = Vec::new();
        std::mem::swap(&mut self.table, &mut table);
        if i < table.len() {
            proof {
                lemma_replace_slot(table@, i as int, slot);
            }
            table.set(i, slot);
        } else {
            proof {
                lemma_push_slot(table@, slot);
            }
            table.push(slot);
        }
        self.table = table;
        Ok(())
    }

    /// Removes the item with the primary key of `key`, if there is one.
    /// Fails with `Conflict`, and changes nothing, where `key` has no
    /// string under `id`.
    fn write_delete(&mut self, key: Item) -> (res: Result<(), LogicError>)
        ensures
            match res {
                Ok(_) => primary_key(key@) is Some && final(self).rows() == old(self).rows().remove(
                    primary_key(key@)->0,
                ),
                Err(e) => primary_key(key@) is None && e@.kind == ErrorKind::Conflict && final(self).rows() == old(self).rows(),
            },
    {
        proof {
            use_type_invariant(&*self);
        }
        let primary_key = match key.get_string(self.primary_key_column.as_str()) {
            Ok(k) => k,
            Err(e) => {
                return Err(e);
            },
        };
        let i = self.find(primary_key.as_str());
        if i < self.table.len() {
            let mut table: Vec<Slot> = Vec::new();
            std::mem::swap(&mut self.table, &mut table);
            proof {
                lemma_remove_slot(table@, i as int);
            }
            let _ = table.remove(i);
            self.table = table;
        } else {
            assert(self.rows().remove(primary_key@) =~= self.rows());
        }
        Ok(())
    }
}

impl IDatabase for DatabaseLocal {
    closed spec fn rows(&self) -> Rows {
        table_rows(self.table@)
    }

    open spec fn reliable(&self) -> bool {
        true
    }

    open spec fn atomic(&self) -> bool {
        false
    }

    /// Reads the item with the key of `request`. Fails with `Conflict`
    /// where the key has no string under `id`, and with `NotFound` where
    /// the table has no item under it.
    fn read_single(&self, request: GetRequest) -> (res: Result<ItemResponse, LogicError>)
        ensures
            res matches Ok(response) ==> response.item is Some,
    {
        proof {
            use_type_invariant(self);
        }
        let primary_key = match request.key.get_string(self.primary_key_column.as_str()) {
            Ok(k) => k,
            Err(e) => {
                return Err(e);
            },
        };
        let i = self.find(primary_key.as_str());
        if i < self.table.len() {
            proof {
                lemma_slot(self.table@, i as int);
            }
            Ok(ItemResponse { item: Some(self.table[i].item.hash_map.duplicate()) })
        } else {
            Err(LogicError::NotFound(String::from_str("Item not found")))
        }
    }

    /// Applies the writes of `items` one by one, up to the first that names
    /// no key: that one fails the batch with `Conflict`, and the writes
    /// before it stay applied.
    fn write(&mut self, items: Vec<WriteRequest>) -> (res: Result<(), LogicError>)
        ensures
            res is Ok <==> first_malformed(write_views(items@)) == items@.len(),
            final(self).rows() == apply_writes(
                old(self).rows(),
                write_views(items@).take(first_malformed(write_views(items@))),
            ),
    {
        let ghost ops = write_views(items@);
        let ghost before = self.rows();
        proof {
            assert(ops.skip(0) == ops);
            assert(ops.take(0).len() == 0);
        }
        for item in it: items
            invariant
                it.seq() == items@,
                ops == write_views(items@),
                ops.len() == items@.len(),
                before == old(self).rows(),
                first_malformed(ops) == it.index() + first_malformed(ops.skip(it.index() as int)),
                self.rows() == apply_writes(before, ops.take(it.index() as int)),
        {
            let ghost i = it.index() as int;
            proof {
                assert(ops.skip(i).drop_first() == ops.skip(i + 1));
                assert(ops.skip(i)[0] == ops[i]);
                assert(ops.take(i + 1).drop_last() == ops.take(i));
                assert(ops.take(i + 1).last() == ops[i]);
                assert(ops[i] == items@[i]@);
            }
            match self.write_single(item) {
                Ok(_) => {},
                Err(e) => {
                    proof {
                        assert(write_key(ops[i]) is None);
                        assert(first_malformed(ops.skip(i)) == 0);
                        assert(first_malformed(ops) == i);
                        assert(self.rows() == apply_writes(before, ops.take(i)));
                    }
                    return Err(e);
                },
            }
        }
        proof {
            assert(ops.skip(ops.len() as int).len() == 0);
            assert(ops.take(ops.len() as int) == ops);
        }
        Ok(())
    }

    /// Applies one write. Fails with `Conflict`, and changes nothing, where
    /// the write names no key.
    fn write_single(&mut self, item: WriteRequest) -> (res: Result<(), LogicError>) {
        match item {
            WriteRequest::Put { item } => self.write_put(item),
            WriteRequest::Delete { key } => self.write_delete(key),
        }
    }

    /// Lists the items that assert the room of `query`. Fails with
    /// `Conflict` where the query gives no string for `:room_id`, or where
    /// some item of the table has no string under `room_id`.
    fn query(&self, query: QueryRequest) -> (res: Result<Vec<Item>, LogicError>)
        ensures
            res is Ok <==> requested_room(query.expression_attribute_values@) is Some && forall|
                k: Seq<char>,
            | #[trigger] self.rows().contains_key(k) ==> room_of(self.rows()[k]) is Some,
    {
        proof {
            use_type_invariant(self);
        }
        let requested = match query.expression_attribute_values.get_string(":room_id") {
            Ok(r) => r,
            Err(e) => {
                return Err(e);
            },
        };
        let ghost s = self.table@;
        let ghost mut from: Seq<int> = Seq::empty();
        let mut results: Vec<Item> = Vec::new();
        let mut i: usize = 0;
        while i < self.table.len()
            invariant
                i <= self.table.len(),
                s == self.table@,
                distinct_keys(s),
                keys_match(s),
                from.len() == results.len(),
                forall|r: int|
                    0 <= r < results.len() ==> 0 <= #[trigger] from[r] < i && results[r]@
                        == s[from[r]].item_view(),
                forall|r: int, q: int| 0 <= r < q < from.len() ==> from[r] < from[q],
                forall|r: int|
                    0 <= r < results.len() ==> room_of(s[#[trigger] from[r]].item_view()) == Some(
                        requested@,
                    ),
                forall|j: int|
                    0 <= j < i ==> room_of((#[trigger] s[j]).item_view()) is Some,
                forall|j: int|
                    0 <= j < i && room_of((#[trigger] s[j]).item_view()) == Some(requested@)
                        ==> exists|r: int| 0 <= r < from.len() && #[trigger] from[r] == j,
            decreases self.table.len() - i,
        {
            let room = match self.table[i].item.hash_map.get_string("room_id") {
                Ok(r) => r,
                Err(e) => {
                    proof {
                        lemma_slot(s, i as int);
                    }
                    return Err(e);
                },
            };
            if same_text(room.as_str(), requested.as_str()) {
                let ghost old_from = from;
                results.push(self.table[i].item.hash_map.duplicate());
                proof {
                    from = from.push(i as int);
                    assert forall|j: int|
                        0 <= j < i + 1 && room_of((#[trigger] s[j]).item_view()) == Some(
                            requested@,
                        ) implies exists|r: int| 0 <= r < from.len() && #[trigger] from[r] == j by {
                        if j < i {
                            let r = choose|r: int| 0 <= r < old_from.len() && #[trigger] old_from[r] == j;
                            assert(from[r] == j);
                        } else {
                            assert(from[old_from.len() as int] == j);
                        }
                    }
                }
            }
            i += 1;
        }
        proof {
            let rows = self.rows();
            let room = requested@;
            assert forall|r: int| 0 <= r < results.len() implies {
                &&& room_of(#[trigger] results[r]@) == Some(room)
                &&& primary_key(results[r]@) is Some
                &&& rows.contains_key(primary_key(results[r]@)->0)
                &&& rows[primary_key(results[r]@)->0] == results[r]@
            } by {
                lemma_slot(s, from[r]);
            }
            assert forall|r: int, q: int| 0 <= r < q < results.len() implies primary_key(
                #[trigger] results[r]@,
            ) != primary_key(#[trigger] results[q]@) by {
                assert(from[r] < from[q]);
                assert(s[from[r]].key_view() != s[from[q]].key_view());
            }
            assert forall|k: Seq<char>| #[trigger]
                rows.contains_key(k) && room_of(rows[k]) == Some(room) implies exists|r: int|
                0 <= r < results.len() && primary_key(#[trigger] results[r]@) == Some(k) by {
                let j = slot_of(s, k);
                lemma_slot(s, j);
                let r = choose|r: int| 0 <= r < from.len() && #[trigger] from[r] == j;
                assert(primary_key(results[r]@) == Some(k));
            }
            assert forall|k: Seq<char>| #[trigger] rows.contains_key(k) implies room_of(rows[k])
                is Some by {
                let j = slot_of(s, k);
                lemma_slot(s, j);
            }
        }
        Ok(results)
    }
}

} // verus!
