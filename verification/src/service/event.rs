//! Inbound events: the route of an event, and the handler it goes to.

use vstd::prelude::*;
use vstd::string::StringExecFns;
use crate::database::db_trait::{IDatabase, Rows};
use crate::domain::errors::{ErrorKind, LogicError};
use crate::notifier::notifier_trait::{Delivery, INotifier};
use crate::service::on_connect::{connect_outcome, on_connect};
use crate::service::on_disconnect::{disconnect_outcome, on_disconnect};
use crate::service::on_message::{message_outcome, on_message};
use crate::text::same_text;

verus! {

/// The category of an inbound event.
#[derive(Clone, Copy, Debug, PartialEq, Eq, Structural)]
pub enum Route {
    Connect,
    Disconnect,
    Message,
}

/// The route that a route key names.
pub open spec fn route_of(key: Seq<char>) -> Option<Route> {
    if key == "$connect"@ {
        Some(Route::Connect)
    } else if key == "$disconnect"@ {
        Some(Route::Disconnect)
    } else if key == "$default"@ {
        Some(Route::Message)
    } else {
        None
    }
}

/// Reads a route key. Fails with `BadRequest` exactly when the key names
/// no route.
pub fn parse_route(route_key: &str) -> (res: Result<Route, LogicError>)
    ensures
        match res {
            Ok(route) => route_of(route_key@) == Some(route),
            Err(e) => route_of(route_key@) is None && e@.kind == ErrorKind::BadRequest
                && e@.message == "unrecognised route key"@,
        },
{
    if same_text(route_key, "$connect") {
        Ok(Route::Connect)
    } else if same_text(route_key, "$disconnect") {
        Ok(Route::Disconnect)
    } else if same_text(route_key, "$default") {
        Ok(Route::Message)
    } else {
        Err(LogicError::BadRequest(String::from_str("unrecognised route key")))
    }
}

/// What the handling of one event does and answers: an event with an
/// unknown route key is refused with `BadRequest` and changes nothing; any
/// other has the outcome of its handler.
pub open spec fn event_outcome(
    before: Rows,
    after: Rows,
    reliable: bool,
    sent_before: Seq<Delivery>,
    sent_after: Seq<Delivery>,
    id: Seq<char>,
    route_key: Seq<char>,
    payload: Seq<char>,
    res: Result<(), LogicError>,
) -> bool {
    match route_of(route_key) {
        None => after == before && sent_after == sent_before && res is Err && res->Err_0@.kind
            == ErrorKind::BadRequest,
        Some(Route::Connect) => sent_after == sent_before && connect_outcome(
            before,
            after,
            reliable,
            id,
            res,
        ),
        Some(Route::Disconnect) => sent_after == sent_before && disconnect_outcome(
            before,
            after,
            reliable,
            id,
            res,
        ),
        Some(Route::Message) => exists|now: i64| #[trigger]
            message_outcome(
                before,
                after,
                reliable,
                sent_before,
                sent_after,
                id,
                payload,
                now,
                res,
            ),
    }
}

/// Handles one inbound event: the connection it is about, its route key
/// and its payload.
pub fn handle_event<N: INotifier, D: IDatabase>(
    connection_id: &str,
    route_key: &str,
    payload: &str,
    notifier: &mut N,
    database: &mut D,
) -> (res: Result<(), LogicError>)
    ensures
        final(database).reliable() == old(database).reliable(),
        final(database).atomic() == old(database).atomic(),
        event_outcome(
            old(database).rows(),
            final(database).rows(),
            old(database).reliable(),
            old(notifier).sent(),
            final(notifier).sent(),
            connection_id@,
            route_key@,
            payload@,
            res,
        ),
{
    let route = match parse_route(route_key) {
        Ok(r) => r,
        Err(e) => {
            return Err(e);
        },
    };
    match route {
        Route::Connect => on_connect(connection_id, database),
        Route::Disconnect => on_disconnect(connection_id, database),
        Route::Message => on_message(connection_id, payload, notifier, database),
    }
}

} // verus!
