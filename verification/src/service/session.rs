//! What the handlers and the registry guarantee across calls.

use vstd::prelude::*;
use crate::database::db_trait::{room_of, Rows};
use crate::database::websocket_table::{
    later_time, lemma_record_round_trip, lookup, written,
};
use crate::domain::errors::{ErrorKind, LogicError};
use crate::domain::websocket_record::RecordView;
use crate::notifier::notifier_trait::Delivery;
use crate::service::on_connect::{connect_outcome, is_fresh_record};
use crate::service::on_disconnect::disconnect_outcome;
use crate::service::on_message::{
    chat_message, is_room_delivery, is_update, message_outcome, parsed_update, reaches_room,
    update_body,
};

verus! {

/// The record that a profile update writes for the sender `id` at the
/// time `now`: the room and the name are those that the body of the text
/// gives, and the time is `now`, or the time that the sender's record had
/// where that is later.
pub open spec fn updated_record(before: Rows, id: Seq<char>, text: Seq<char>, now: i64) -> RecordView {
    let fields = parsed_update(update_body(text))->0;
    let asked = RecordView { id, room_id: fields.0, name: fields.1, modified_at: now };
    RecordView { id, room_id: fields.0, name: fields.1, modified_at: later_time(before, asked) }
}

/// A record that has been written is read back with the id, the room and
/// the name that it was written with, and with a time that is not earlier
/// than the time it was written with.
pub proof fn written_record_reads_back(rows: Rows, r: RecordView)
    ensures
        lookup(written(rows, r), r.id) is Ok,
        lookup(written(rows, r), r.id)->Ok_0.id == r.id,
        lookup(written(rows, r), r.id)->Ok_0.room_id == r.room_id,
        lookup(written(rows, r), r.id)->Ok_0.name == r.name,
        lookup(written(rows, r), r.id)->Ok_0.modified_at == later_time(rows, r),
        lookup(written(rows, r), r.id)->Ok_0.modified_at >= r.modified_at,
{
    lemma_record_round_trip(
        RecordView { id: r.id, room_id: r.room_id, name: r.name, modified_at: later_time(rows, r) },
    );
}

/// A write to an id that has a record does not take the time of that
/// record down.
pub proof fn write_keeps_time_order(rows: Rows, r: RecordView)
    requires
        lookup(rows, r.id) is Ok,
    ensures
        lookup(written(rows, r), r.id) is Ok,
        lookup(rows, r.id)->Ok_0.modified_at <= lookup(written(rows, r), r.id)->Ok_0.modified_at,
{
    written_record_reads_back(rows, r);
}

/// Across two successive writes to one id, whatever times they carry, the
/// time that is read back does not go down.
pub proof fn later_write_keeps_time_order(rows: Rows, first: RecordView, second: RecordView)
    requires
        first.id == second.id,
    ensures
        lookup(written(rows, first), first.id) is Ok,
        lookup(written(written(rows, first), second), first.id) is Ok,
        lookup(written(rows, first), first.id)->Ok_0.modified_at <= lookup(
            written(written(rows, first), second),
            first.id,
        )->Ok_0.modified_at,
{
    written_record_reads_back(rows, first);
    write_keeps_time_order(written(rows, first), second);
}

/// Writing a record leaves the record of every other id as it was.
pub proof fn written_record_leaves_others(rows: Rows, r: RecordView, other: Seq<char>)
    requires
        other != r.id,
    ensures
        lookup(written(rows, r), other) == lookup(rows, other),
{
}

/// Two records with distinct ids, written one after the other in either
/// order, give the same table, and each is read back from it: neither
/// write loses or overwrites the other's record.
pub proof fn writes_to_distinct_ids_keep_both(rows: Rows, a: RecordView, b: RecordView)
    requires
        a.id != b.id,
    ensures
        written(written(rows, a), b) == written(written(rows, b), a),
        lookup(written(written(rows, a), b), a.id) == lookup(written(rows, a), a.id),
        lookup(written(written(rows, a), b), b.id) == lookup(written(rows, b), b.id),
        lookup(written(written(rows, a), b), a.id) is Ok,
        lookup(written(written(rows, a), b), b.id) is Ok,
{
    written_record_reads_back(rows, a);
    written_record_reads_back(rows, b);
    written_record_leaves_others(rows, a, b.id);
    written_record_leaves_others(rows, b, a.id);
    assert(later_time(written(rows, a), b) == later_time(rows, b));
    assert(later_time(written(rows, b), a) == later_time(rows, a));
    assert(written(written(rows, a), b) =~= written(written(rows, b), a));
}

/// After a connect that succeeded, a lookup of the id finds a record with
/// that id, a room that is not empty and a display name that is not empty;
/// where the id had a record before, the time has not gone down.
pub proof fn connect_then_lookup(
    before: Rows,
    after: Rows,
    reliable: bool,
    id: Seq<char>,
    res: Result<(), LogicError>,
)
    requires
        connect_outcome(before, after, reliable, id, res),
        res is Ok,
    ensures
        lookup(after, id) is Ok,
        lookup(after, id)->Ok_0.id == id,
        lookup(after, id)->Ok_0.room_id.len() > 0,
        lookup(after, id)->Ok_0.name.len() > 0,
        lookup(before, id) is Ok ==> lookup(before, id)->Ok_0.modified_at <= lookup(
            after,
            id,
        )->Ok_0.modified_at,
{
    let r = choose|r: RecordView| is_fresh_record(r, id) && after == #[trigger] written(before, r);
    written_record_reads_back(before, r);
}

/// Connects for two distinct ids, one after the other, leave the record of
/// the first as the first connect wrote it, beside the record of the
/// second.
pub proof fn connects_with_distinct_ids_keep_both(
    t0: Rows,
    t1: Rows,
    t2: Rows,
    reliable: bool,
    a: Seq<char>,
    b: Seq<char>,
    res_a: Result<(), LogicError>,
    res_b: Result<(), LogicError>,
)
    requires
        a != b,
        connect_outcome(t0, t1, reliable, a, res_a),
        connect_outcome(t1, t2, reliable, b, res_b),
        res_a is Ok,
        res_b is Ok,
    ensures
        lookup(t2, a) is Ok,
        lookup(t2, a) == lookup(t1, a),
        lookup(t2, b) is Ok,
{
    connect_then_lookup(t0, t1, reliable, a, res_a);
    connect_then_lookup(t1, t2, reliable, b, res_b);
    let r = choose|r: RecordView| is_fresh_record(r, b) && t2 == #[trigger] written(t1, r);
    written_record_leaves_others(t1, r, a);
}

/// After a disconnect that succeeded, a lookup of the id fails with
/// `NotFound`.
pub proof fn disconnect_then_lookup(
    before: Rows,
    after: Rows,
    reliable: bool,
    id: Seq<char>,
    res: Result<(), LogicError>,
)
    requires
        disconnect_outcome(before, after, reliable, id, res),
        res is Ok,
    ensures
        lookup(after, id) == Err::<RecordView, ErrorKind>(ErrorKind::NotFound),
{
}

/// A disconnect after a connect of the same id succeeds on a reliable
/// store, and whenever it succeeds the record is gone: a lookup of the id
/// then fails with `NotFound`.
pub proof fn disconnect_after_connect(
    t0: Rows,
    t1: Rows,
    t2: Rows,
    reliable: bool,
    id: Seq<char>,
    res_connect: Result<(), LogicError>,
    res_disconnect: Result<(), LogicError>,
)
    requires
        connect_outcome(t0, t1, reliable, id, res_connect),
        res_connect is Ok,
        disconnect_outcome(t1, t2, reliable, id, res_disconnect),
    ensures
        reliable ==> res_disconnect is Ok,
        res_disconnect is Ok ==> lookup(t2, id) == Err::<RecordView, ErrorKind>(
            ErrorKind::NotFound,
        ),
{
    connect_then_lookup(t0, t1, reliable, id, res_connect);
}

/// A profile update whose body gives a room and a name, from a connection
/// with a record in a reliable store, succeeds. Whenever one succeeds, a
/// lookup of the sender then finds the sender's id with exactly that room
/// and that name and a time that has not gone down, every other id is as
/// it was, and nothing was pushed.
pub proof fn update_sets_both_fields(
    before: Rows,
    after: Rows,
    reliable: bool,
    sent_before: Seq<Delivery>,
    sent_after: Seq<Delivery>,
    id: Seq<char>,
    text: Seq<char>,
    now: i64,
    res: Result<(), LogicError>,
)
    requires
        is_update(text),
        parsed_update(update_body(text)) is Some,
        message_outcome(before, after, reliable, sent_before, sent_after, id, text, now, res),
    ensures
        reliable && lookup(before, id) is Ok ==> res is Ok,
        res is Ok ==> lookup(after, id) == Ok::<RecordView, ErrorKind>(
            updated_record(before, id, text, now),
        ),
        res is Ok ==> lookup(before, id) is Ok && lookup(before, id)->Ok_0.modified_at <= lookup(
            after,
            id,
        )->Ok_0.modified_at,
        res is Ok ==> forall|other: Seq<char>|
            other != id ==> #[trigger] lookup(after, other) == lookup(before, other),
        sent_after == sent_before,
{
    if res is Ok {
        let fields = parsed_update(update_body(text))->0;
        let asked = RecordView { id, room_id: fields.0, name: fields.1, modified_at: now };
        written_record_reads_back(before, asked);
        write_keeps_time_order(before, asked);
        assert forall|other: Seq<char>| other != id implies #[trigger] lookup(after, other)
            == lookup(before, other) by {
            written_record_leaves_others(before, asked, other);
        }
    }
}

/// A profile update whose body does not give both a room and a name fails
/// with `BadRequest`, leaves every stored record as it was, and pushes
/// nothing.
pub proof fn incomplete_update_changes_nothing(
    before: Rows,
    after: Rows,
    reliable: bool,
    sent_before: Seq<Delivery>,
    sent_after: Seq<Delivery>,
    id: Seq<char>,
    text: Seq<char>,
    now: i64,
    res: Result<(), LogicError>,
)
    requires
        is_update(text),
        parsed_update(update_body(text)) is None,
        message_outcome(before, after, reliable, sent_before, sent_after, id, text, now, res),
    ensures
        res is Err,
        res->Err_0@.kind == ErrorKind::BadRequest,
        after == before,
        sent_after == sent_before,
{
}

/// A chat message that was handled with success was pushed exactly once to
/// each connection of the sender's room, the sender among them, and to no
/// other connection; each push carries the text as it was sent, and the
/// table is as it was.
pub proof fn chat_reaches_each_member_once(
    before: Rows,
    after: Rows,
    reliable: bool,
    sent_before: Seq<Delivery>,
    sent_after: Seq<Delivery>,
    id: Seq<char>,
    text: Seq<char>,
    now: i64,
    res: Result<(), LogicError>,
)
    requires
        !is_update(text),
        message_outcome(before, after, reliable, sent_before, sent_after, id, text, now, res),
        res is Ok,
    ensures
        after == before,
        lookup(before, id) is Ok,
        sent_after == sent_before + sent_after.skip(sent_before.len() as int),
        exists|i: int|
            sent_before.len() <= i < sent_after.len() && (#[trigger] sent_after[i]).id == id,
        ({
            let room = lookup(before, id)->Ok_0.room_id;
            let added = sent_after.skip(sent_before.len() as int);
            &&& forall|i: int|
                0 <= i < added.len() ==> (#[trigger] added[i]).message.text == text
                    && before.contains_key(added[i].id) && room_of(before[added[i].id]) == Some(
                    room,
                )
            &&& forall|k: Seq<char>| #[trigger]
                before.contains_key(k) && room_of(before[k]) == Some(room) ==> exists|i: int|
                    0 <= i < added.len() && (#[trigger] added[i]).id == k && forall|j: int|
                        0 <= j < added.len() && (#[trigger] added[j]).id == k ==> j == i
        }),
{
    let sender = lookup(before, id)->Ok_0;
    let room = sender.room_id;
    let added = sent_after.skip(sent_before.len() as int);
    let message = chat_message(sender, text, now);
    assert(is_room_delivery(before, room, message, added));
    assert(reaches_room(before, room, added));
    assert(sent_after =~= sent_before + added);
    assert(before.contains_key(id) && room_of(before[id]) == Some(room));
    let own = choose|i: int| 0 <= i < added.len() && (#[trigger] added[i]).id == id;
    assert(sent_after[sent_before.len() + own] == added[own]);
    assert forall|k: Seq<char>| #[trigger]
        before.contains_key(k) && room_of(before[k]) == Some(room) implies exists|i: int|
        0 <= i < added.len() && (#[trigger] added[i]).id == k && forall|j: int|
            0 <= j < added.len() && (#[trigger] added[j]).id == k ==> j == i by {
        let i = choose|i: int| 0 <= i < added.len() && (#[trigger] added[i]).id == k;
        assert forall|j: int| 0 <= j < added.len() && (#[trigger] added[j]).id == k implies j
            == i by {
            if j < i {
                assert(added[j].id != added[i].id);
            } else if i < j {
                assert(added[i].id != added[j].id);
            }
        }
    }
}

/// A chat message that failed on a push left at least one connection of
/// the sender's room without the message; those that got it got it once,
/// and the table is as it was.
pub proof fn failed_chat_leaves_a_member_out(
    before: Rows,
    after: Rows,
    reliable: bool,
    sent_before: Seq<Delivery>,
    sent_after: Seq<Delivery>,
    id: Seq<char>,
    text: Seq<char>,
    now: i64,
    res: Result<(), LogicError>,
)
    requires
        !is_update(text),
        message_outcome(before, after, reliable, sent_before, sent_after, id, text, now, res),
        res is Err,
        res->Err_0@.kind == ErrorKind::DeliveryFailure,
    ensures
        after == before,
        lookup(before, id) is Ok,
        ({
            let room = lookup(before, id)->Ok_0.room_id;
            let added = sent_after.skip(sent_before.len() as int);
            exists|k: Seq<char>| #[trigger]
                before.contains_key(k) && room_of(before[k]) == Some(room) && forall|i: int|
                    0 <= i < added.len() ==> (#[trigger] added[i]).id != k
        }),
{
    let room = lookup(before, id)->Ok_0.room_id;
    let added = sent_after.skip(sent_before.len() as int);
    assert(!reaches_room(before, room, added));
    let k = choose|k: Seq<char>|
        !(#[trigger] before.contains_key(k) && room_of(before[k]) == Some(room) ==> exists|i: int|
            0 <= i < added.len() && (#[trigger] added[i]).id == k);
    assert(before.contains_key(k) && room_of(before[k]) == Some(room));
}

} // verus!
