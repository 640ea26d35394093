//! The push interface.

use vstd::prelude::*;
use crate::domain::errors::{ErrorKind, LogicError};
use crate::domain::message::{Message, MessageView};

verus! {

/// One accepted push: a message for one connection.
pub struct Delivery {
    pub id: Seq<char>,
    pub message: MessageView,
}

/// The history of a channel: the pushes that it accepted, oldest first.
pub type History = Seq<Delivery>;

/// A channel that pushes messages to connections.
///
/// `sent` is the history of the pushes that the channel accepted, oldest
/// first. A push is tried once: it is either accepted, and then it is the
/// newest entry of the history, or it fails with `DeliveryFailure` and the
/// history stays as it was.
pub trait INotifier {
    /// The pushes that the channel accepted, oldest first.
    spec fn sent(&self) -> History;

    /// Pushes `message` to the connection `id`.
    fn notify(&mut self, id: &str, message: &Message) -> (res: Result<(), LogicError>)
        ensures
            match res {
                Ok(_) => final(self).sent() == old(self).sent().push(
                    Delivery { id: id@, message: message@ },
                ),
                Err(e) => e@.kind == ErrorKind::DeliveryFailure && final(self).sent() == old(self).sent(),
            },
    ;
}

} // verus!
