//! The message handler: profile updates and chat fan-out.

use vstd::prelude::*;
use vstd::string::{StrSliceExecFns, StringExecFns};
use crate::database::db_trait::{room_of, IDatabase, Rows};
use crate::database::websocket_table::{
    is_member_listing, item_record, later_of, lookup, room_readable, written, WebsocketTable,
};
use crate::domain::errors::{ErrorKind, LogicError};
use crate::domain::message::{Message, MessageView};
use crate::domain::timestamp::now_micros;
use crate::domain::websocket_record::{RecordView, WebsocketRecord};
use crate::notifier::notifier_trait::{Delivery, INotifier};
use crate::text::{chars_of, find_char, index_of, range_equals, starts_with};

verus! {

/// The prefix that marks a message as a profile update.
pub open spec fn update_prefix() -> Seq<char> {
    "UserUpdate:"@
}

/// Whether a message is a profile update.
pub open spec fn is_update(text: Seq<char>) -> bool {
    starts_with(text, update_prefix())
}

/// What follows the update prefix in a profile update.
pub open spec fn update_body(text: Seq<char>) -> Seq<char> {
    text.skip(update_prefix().len() as int)
}

/// The key of a pair: what stands before its first `=`, or all of it.
pub open spec fn pair_key(pair: Seq<char>) -> Seq<char> {
    pair.take(index_of(pair, '='))
}

/// The value of a pair: what stands after its first `=`, if it has one.
pub open spec fn pair_value(pair: Seq<char>) -> Option<Seq<char>> {
    let n = index_of(pair, '=');
    if 0 <= n < pair.len() {
        Some(pair.skip(n + 1))
    } else {
        None
    }
}

/// The two fields of a profile update, as far as they have been read.
pub struct UpdateFields {
    pub room_id: Option<Seq<char>>,
    pub name: Option<Seq<char>>,
}

/// The fields after one more pair: a pair with the key `RoomId` or `Name`
/// sets that field to its value, and clears it where the pair has none;
/// any other pair changes nothing.
pub open spec fn with_pair(fields: UpdateFields, pair: Seq<char>) -> UpdateFields {
    if pair_key(pair) == "RoomId"@ {
        UpdateFields { room_id: pair_value(pair), name: fields.name }
    } else if pair_key(pair) == "Name"@ {
        UpdateFields { room_id: fields.room_id, name: pair_value(pair) }
    } else {
        fields
    }
}

/// The fields after the pairs of `s`, which `&` separates, read from left
/// to right.
pub open spec fn scan_pairs(s: Seq<char>, fields: UpdateFields) -> UpdateFields
    decreases s.len(),
{
    let n = index_of(s, '&');
    let next = with_pair(fields, s.take(n));
    if 0 <= n < s.len() {
        scan_pairs(s.skip(n + 1), next)
    } else {
        next
    }
}

/// The room and the name that the pairs of `text` give, where they give
/// both. `text` is the body of a profile update: it is read as it stands,
/// so a key that comes after anything else, a prefix too, is another key.
pub open spec fn parsed_update(text: Seq<char>) -> Option<(Seq<char>, Seq<char>)> {
    let fields = scan_pairs(text, UpdateFields { room_id: None, name: None });
    match (fields.room_id, fields.name) {
        (Some(room_id), Some(name)) => Some((room_id, name)),
        _ => None,
    }
}

/// The characters of a range of `chars`, where there is one.
pub open spec fn range_view(chars: Seq<char>, range: Option<(usize, usize)>) -> Option<Seq<char>> {
    match range {
        Some((from, to)) => Some(chars.subrange(from as int, to as int)),
        None => None,
    }
}

/// A range lies within the first `n` places.
pub open spec fn range_within(range: Option<(usize, usize)>, n: usize) -> bool {
    match range {
        Some((from, to)) => from <= to <= n,
        None => true,
    }
}

/// Reads the room and the name from the body of a profile update, that is
/// from what follows the update prefix.
///
/// The text is read as pairs that `&` separates; a pair is a key, and a
/// value after its first `=`. The last pair with the key `RoomId` gives the
/// room and the last with the key `Name` the name; pairs with other keys
/// are passed over. Fails with `BadRequest` exactly when one of the two is
/// not given.
pub fn parse_user_update_request(text: &str) -> (res: Result<(String, String), LogicError>)
    ensures
        match res {
            Ok((room_id, name)) => parsed_update(text@) == Some((room_id@, name@)),
            Err(e) => parsed_update(text@) is None && e@.kind == ErrorKind::BadRequest
                && e@.message == "Invalid user update request"@,
        },
{
    let chars = chars_of(text);
    let room_key = chars_of("RoomId");
    let name_key = chars_of("Name");
    let n = chars.len();
    let start: usize = 0;
    let ghost body = chars@;
    let mut pos: usize = start;
    let mut room: Option<(usize, usize)> = None;
    let mut name: Option<(usize, usize)> = None;
    proof {
        assert(chars@.subrange(start as int, n as int) == body);
    }
    loop
        invariant
            start <= pos <= n,
            n == chars.len(),
            room_key@ == "RoomId"@,
            name_key@ == "Name"@,
            range_within(room, n),
            range_within(name, n),
            scan_pairs(body, UpdateFields { room_id: None, name: None }) == scan_pairs(
                chars@.subrange(pos as int, n as int),
                UpdateFields { room_id: range_view(chars@, room), name: range_view(chars@, name) },
            ),
        ensures
            range_within(room, n),
            range_within(name, n),
            scan_pairs(body, UpdateFields { room_id: None, name: None }) == (UpdateFields {
                room_id: range_view(chars@, room),
                name: range_view(chars@, name),
            }),
        decreases n - pos,
    {
        let end = find_char(&chars, pos, n, '&');
        let eq = find_char(&chars, pos, end, '=');
        let ghost rest = chars@.subrange(pos as int, n as int);
        let ghost pair = chars@.subrange(pos as int, end as int);
        proof {
            assert(rest.take(end - pos) == pair);
            assert(pair.take(eq - pos) == chars@.subrange(pos as int, eq as int));
            if eq < end {
                assert(pair.skip(eq - pos + 1) == chars@.subrange(eq + 1, end as int));
            }
            if end < n {
                assert(rest.skip(end - pos + 1) == chars@.subrange(end + 1, n as int));
            }
        }
        let value: Option<(usize, usize)> = if eq < end {
            Some((eq + 1, end))
        } else {
            None
        };
        if range_equals(&chars, pos, eq, &room_key) {
            room = value;
        } else if range_equals(&chars, pos, eq, &name_key) {
            name = value;
        }
        if end < n {
            pos = end + 1;
        } else {
            break ;
        }
    }
    match (room, name) {
        (Some((a, b)), Some((c, d))) => {
            let room_id = String::from_str(text.substring_char(a, b));
            let name = String::from_str(text.substring_char(c, d));
            Ok((room_id, name))
        },
        _ => Err(LogicError::BadRequest(String::from_str("Invalid user update request"))),
    }
}

/// The body of a profile update: what follows the update prefix, where
/// `text` begins with it.
pub fn update_text_body(text: &str) -> (body: Option<&str>)
    ensures
        match body {
            Some(rest) => is_update(text@) && rest@ == update_body(text@),
            None => !is_update(text@),
        },
{
    let chars = chars_of(text);
    let prefix = chars_of("UserUpdate:");
    if chars.len() < prefix.len() {
        return None;
    }
    proof {
        assert(chars@.take(prefix.len() as int) == chars@.subrange(0, prefix.len() as int));
        assert(chars@.skip(prefix.len() as int) == chars@.subrange(
            prefix.len() as int,
            chars.len() as int,
        ));
    }
    if range_equals(&chars, 0, prefix.len(), &prefix) {
        Some(text.substring_char(prefix.len(), chars.len()))
    } else {
        None
    }
}

/// The chat message that `sender` sends with `text` at the time `now`.
pub open spec fn chat_message(sender: RecordView, text: Seq<char>, now: i64) -> MessageView {
    MessageView { author_name: sender.name, text, sent_at: now }
}

/// One push of `message` for each of `records`, in their order.
pub open spec fn deliveries(records: Seq<WebsocketRecord>, message: MessageView) -> Seq<Delivery> {
    Seq::new(records.len(), |i: int| Delivery { id: records[i]@.id, message })
}

/// Each push of `added` carries `message` to a connection that asserts
/// `room`, and no connection gets two.
pub open spec fn is_room_delivery(
    rows: Rows,
    room: Seq<char>,
    message: MessageView,
    added: Seq<Delivery>,
) -> bool {
    &&& forall|i: int|
        0 <= i < added.len() ==> {
            &&& (#[trigger] added[i]).message == message
            &&& rows.contains_key(added[i].id)
            &&& room_of(rows[added[i].id]) == Some(room)
        }
    &&& forall|i: int, j: int|
        0 <= i < j < added.len() ==> (#[trigger] added[i]).id != (#[trigger] added[j]).id
}

/// Each connection that asserts `room` gets a push of `added`.
pub open spec fn reaches_room(rows: Rows, room: Seq<char>, added: Seq<Delivery>) -> bool {
    forall|k: Seq<char>| #[trigger]
        rows.contains_key(k) && room_of(rows[k]) == Some(room) ==> exists|i: int|
            0 <= i < added.len() && (#[trigger] added[i]).id == k
}

/// What a profile update does to the table, and what it answers.
///
/// The body of the update is what follows the one update prefix. A body
/// that does not give both fields is refused with `BadRequest`. Otherwise
/// the sender's record is written again with the new room and the new
/// name, in one write, and with the time `now`, or the time it had where
/// that is later; a sender without a readable record is reported as the
/// lookup reports it. Whenever the answer is an error the table is as it
/// was.
pub open spec fn update_outcome(
    before: Rows,
    after: Rows,
    reliable: bool,
    id: Seq<char>,
    text: Seq<char>,
    now: i64,
    res: Result<(), LogicError>,
) -> bool {
    match parsed_update(update_body(text)) {
        None => after == before && res is Err && res->Err_0@.kind == ErrorKind::BadRequest,
        Some((room_id, name)) => match res {
            Ok(_) => lookup(before, id) is Ok && after == written(
                before,
                RecordView { id, room_id, name, modified_at: now },
            ),
            Err(e) => after == before && if e@.kind == ErrorKind::StoreUnavailable {
                !reliable
            } else {
                lookup(before, id) == Err::<RecordView, ErrorKind>(e@.kind)
            },
        },
    }
}

/// What a chat message adds to the history of pushes, and what it answers.
///
/// The sender's record gives the author and the room. On success each
/// connection of the room, the sender among them, got the message once and
/// no other connection got it. On failure some of them got it once: none
/// where the store failed; where a push failed, those before the failing
/// push, so that at least one connection of the room is left out.
pub open spec fn chat_outcome(
    rows: Rows,
    reliable: bool,
    added: Seq<Delivery>,
    id: Seq<char>,
    text: Seq<char>,
    now: i64,
    res: Result<(), LogicError>,
) -> bool {
    match lookup(rows, id) {
        Err(kind) => added.len() == 0 && res is Err && if res->Err_0@.kind
            == ErrorKind::StoreUnavailable {
            !reliable
        } else {
            res->Err_0@.kind == kind
        },
        Ok(sender) => {
            &&& is_room_delivery(rows, sender.room_id, chat_message(sender, text, now), added)
            &&& match res {
                Ok(_) => reaches_room(rows, sender.room_id, added),
                Err(e) => match e@.kind {
                    ErrorKind::StoreUnavailable => !reliable && added.len() == 0,
                    ErrorKind::Conflict => !room_readable(rows, sender.room_id) && added.len()
                        == 0,
                    ErrorKind::DeliveryFailure => !reaches_room(rows, sender.room_id, added),
                    _ => false,
                },
            }
        },
    }
}

/// What the handling of one message at the time `now` does and answers: a
/// profile update changes the table and pushes nothing, a chat message
/// pushes and leaves the table as it was. Pushes of earlier messages stay
/// in the history.
pub open spec fn message_outcome(
    before: Rows,
    after: Rows,
    reliable: bool,
    sent_before: Seq<Delivery>,
    sent_after: Seq<Delivery>,
    id: Seq<char>,
    text: Seq<char>,
    now: i64,
    res: Result<(), LogicError>,
) -> bool {
    &&& sent_before.len() <= sent_after.len()
    &&& sent_after.take(sent_before.len() as int) == sent_before
    &&& if is_update(text) {
        sent_after == sent_before && update_outcome(before, after, reliable, id, text, now, res)
    } else {
        after == before && chat_outcome(
            before,
            reliable,
            sent_after.skip(sent_before.len() as int),
            id,
            text,
            now,
            res,
        )
    }
}

/// The pushes to the first `n` records of a member listing go to distinct
/// members of the room, and the pushes to all of them reach the room.
pub proof fn lemma_listing_deliveries(
    rows: Rows,
    room: Seq<char>,
    records: Seq<WebsocketRecord>,
    n: int,
    message: MessageView,
)
    requires
        is_member_listing(rows, room, records),
        0 <= n <= records.len(),
    ensures
        is_room_delivery(rows, room, message, deliveries(records.take(n), message)),
        n == records.len() ==> reaches_room(rows, room, deliveries(records.take(n), message)),
        n < records.len() ==> !reaches_room(rows, room, deliveries(records.take(n), message)),
{
    let added = deliveries(records.take(n), message);
    assert forall|i: int| 0 <= i < added.len() implies {
        &&& (#[trigger] added[i]).message == message
        &&& rows.contains_key(added[i].id)
        &&& room_of(rows[added[i].id]) == Some(room)
    } by {
        assert(records.take(n)[i] == records[i]);
        assert(item_record(rows[records[i]@.id]) == Some(records[i]@));
    }
    assert forall|i: int, j: int| 0 <= i < j < added.len() implies (#[trigger] added[i]).id != (
    #[trigger] added[j]).id by {
        assert(records.take(n)[i] == records[i]);
        assert(records.take(n)[j] == records[j]);
    }
    if n < records.len() {
        let k = records[n]@.id;
        assert(item_record(rows[k]) == Some(records[n]@));
        assert(rows.contains_key(k) && room_of(rows[k]) == Some(room));
        assert forall|i: int| 0 <= i < added.len() implies (#[trigger] added[i]).id != k by {
            assert(records.take(n)[i] == records[i]);
            assert(records[i]@.id != records[n]@.id);
        }
    }
    if n == records.len() {
        assert(records.take(n) == records);
        assert forall|k: Seq<char>| #[trigger]
            rows.contains_key(k) && room_of(rows[k]) == Some(room) implies exists|i: int|
            0 <= i < added.len() && (#[trigger] added[i]).id == k by {
            let i = choose|i: int| 0 <= i < records.len() && (#[trigger] records[i])@.id == k;
            assert(added[i].id == k);
        }
    }
}

/// Pushes `message` to each of `records`, in their order, and stops at the
/// first push that fails.
pub fn notify_room<N: INotifier>(
    records: &Vec<WebsocketRecord>,
    message: &Message,
    notifier: &mut N,
) -> (res: Result<(), LogicError>)
    ensures
        match res {
            Ok(_) => final(notifier).sent() == old(notifier).sent() + deliveries(
                records@,
                message@,
            ),
            Err(e) => e@.kind == ErrorKind::DeliveryFailure && exists|n: int|
                0 <= n < records.len() && final(notifier).sent() == old(notifier).sent()
                    + #[trigger] deliveries(records@.take(n), message@),
        },
{
    let mut i: usize = 0;
    proof {
        assert(old(notifier).sent() + deliveries(records@.take(0), message@) =~= old(notifier).sent());
    }
    while i < records.len()
        invariant
            i <= records.len(),
            notifier.sent() == old(notifier).sent() + deliveries(
                records@.take(i as int),
                message@,
            ),
        decreases records.len() - i,
    {
        match notifier.notify(records[i].id.as_str(), message) {
            Ok(_) => {},
            Err(e) => {
                return Err(e);
            },
        }
        proof {
            assert(records@.take(i as int + 1).drop_last() == records@.take(i as int));
            assert(notifier.sent() =~= old(notifier).sent() + deliveries(
                records@.take(i as int + 1),
                message@,
            ));
        }
        i += 1;
    }
    proof {
        assert(records@.take(i as int) == records@);
    }
    Ok(())
}

/// Handles a message that arrives at the time `now`.
pub fn on_message_at<N: INotifier, D: IDatabase>(
    connection_id: &str,
    text: &str,
    now: i64,
    notifier: &mut N,
    database: &mut D,
) -> (res: Result<(), LogicError>)
    ensures
        final(database).reliable() == old(database).reliable(),
        final(database).atomic() == old(database).atomic(),
        message_outcome(
            old(database).rows(),
            final(database).rows(),
            old(database).reliable(),
            old(notifier).sent(),
            final(notifier).sent(),
            connection_id@,
            text@,
            now,
            res,
        ),
{
    proof {
        assert(notifier.sent().take(notifier.sent().len() as int) == notifier.sent());
        assert(notifier.sent().skip(notifier.sent().len() as int) =~= Seq::<Delivery>::empty());
    }
    if let Some(raw) = update_text_body(text) {
        let (room_id, name) = match parse_user_update_request(raw) {
            Ok(fields) => fields,
            Err(e) => {
                return Err(e);
            },
        };
        let mut record = match WebsocketTable::from_db(connection_id, &*database) {
            Ok(r) => r,
            Err(e) => {
                return Err(e);
            },
        };
        record.room_id = room_id;
        record.name = name;
        record.modified_at = later_of(record.modified_at, now);
        return WebsocketTable::put_record(&record, database);
    }
    let record = match WebsocketTable::from_db(connection_id, &*database) {
        Ok(r) => r,
        Err(e) => {
            return Err(e);
        },
    };
    let message = Message {
        text: String::from_str(text),
        author_name: record.name.clone(),
        sent_at: now,
    };
    let records = match WebsocketTable::get_room_connections(record.room_id.as_str(), &*database) {
        Ok(r) => r,
        Err(e) => {
            return Err(e);
        },
    };
    let res = notify_room(&records, &message, notifier);
    proof {
        let before = old(notifier).sent();
        let rows = database.rows();
        let room = record@.room_id;
        match res {
            Ok(_) => {
                lemma_listing_deliveries(rows, room, records@, records@.len() as int, message@);
                assert(records@.take(records@.len() as int) == records@);
                let added = deliveries(records@, message@);
                assert((before + added).take(before.len() as int) =~= before);
                assert((before + added).skip(before.len() as int) =~= added);
            },
            Err(_) => {
                let n = choose|n: int|
                    0 <= n < records.len() && notifier.sent() == before + #[trigger] deliveries(
                        records@.take(n),
                        message@,
                    );
                lemma_listing_deliveries(rows, room, records@, n, message@);
                let added = deliveries(records@.take(n), message@);
                assert((before + added).take(before.len() as int) =~= before);
                assert((before + added).skip(before.len() as int) =~= added);
            },
        }
    }
    res
}

/// Handles a message from the connection `connection_id`.
///
/// A text that begins with `UserUpdate:` is a profile update: what follows
/// that one prefix is read by [`parse_user_update_request`], and the
/// sender's record is written again with the new room and name. Any other
/// text is a chat message: it is pushed to each connection of the sender's
/// room. The outcome is that of [`on_message_at`] at the time of the call.
pub fn on_message<N: INotifier, D: IDatabase>(
    connection_id: &str,
    text: &str,
    notifier: &mut N,
    database: &mut D,
) -> (res: Result<(), LogicError>)
    ensures
        final(database).reliable() == old(database).reliable(),
        final(database).atomic() == old(database).atomic(),
        exists|now: i64| #[trigger]
            message_outcome(
                old(database).rows(),
                final(database).rows(),
                old(database).reliable(),
                old(notifier).sent(),
                final(notifier).sent(),
                connection_id@,
                text@,
                now,
                res,
            ),
{
    let now = now_micros();
    on_message_at(connection_id, text, now, notifier, database)
}

} // verus!
