//! One connection's socket: what to do with each thing that arrives on it.

use vstd::prelude::*;
use crate::database::db_trait::{IDatabase, Rows};
use crate::domain::errors::LogicError;
use crate::notifier::notifier_trait::{Delivery, INotifier};
use crate::service::on_message::{message_outcome, on_message};

verus! {

/// What arrived on the socket of a connection.
#[derive(Clone, Debug)]
pub enum SocketEvent {
    /// A text frame.
    Text(String),
    /// A frame of another kind.
    Other,
    /// The end of the stream, or a failure to read from it.
    Closed,
}

/// What the owner of the socket does next.
#[derive(Clone, Copy, Debug, PartialEq, Eq, Structural)]
pub enum SocketStep {
    /// Wait for the next event.
    Continue,
    /// Stop reading and unregister the connection.
    Close,
}

/// What one socket event does, and the step that follows it: a text
/// frame is handled as a message, and the socket stays open exactly when
/// that succeeds; another frame is passed over; the end of the stream
/// closes the socket.
pub open spec fn socket_outcome(
    before: Rows,
    after: Rows,
    reliable: bool,
    sent_before: Seq<Delivery>,
    sent_after: Seq<Delivery>,
    id: Seq<char>,
    event: SocketEvent,
    step: SocketStep,
) -> bool {
    match event {
        SocketEvent::Text(text) => exists|now: i64, res: Result<(), LogicError>| #[trigger]
            message_outcome(before, after, reliable, sent_before, sent_after, id, text@, now, res)
                && (step == SocketStep::Continue <==> res is Ok),
        SocketEvent::Other => step == SocketStep::Continue && after == before && sent_after
            == sent_before,
        SocketEvent::Closed => step == SocketStep::Close && after == before && sent_after
            == sent_before,
    }
}

/// Handles one event on the socket of `connection_id`, and says what its
/// owner does next.
pub fn on_socket_event<N: INotifier, D: IDatabase>(
    connection_id: &str,
    event: &SocketEvent,
    notifier: &mut N,
    database: &mut D,
) -> (step: SocketStep)
    ensures
        final(database).reliable() == old(database).reliable(),
        final(database).atomic() == old(database).atomic(),
        socket_outcome(
            old(database).rows(),
            final(database).rows(),
            old(database).reliable(),
            old(notifier).sent(),
            final(notifier).sent(),
            connection_id@,
            *event,
            step,
        ),
{
    match event {
        SocketEvent::Text(text) => {
            let res = on_message(connection_id, text.as_str(), notifier, database);
            if res.is_ok() {
                SocketStep::Continue
            } else {
                SocketStep::Close
            }
        },
        SocketEvent::Other => SocketStep::Continue,
        SocketEvent::Closed => SocketStep::Close,
    }
}

} // verus!
