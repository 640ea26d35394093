//! The chat message and its wire form.

use vstd::prelude::*;
use vstd::string::StringExecFns;
use crate::domain::errors::{ErrorKind, LogicError};
use crate::domain::json::{json_error_text, json_string, json_string_text};
use crate::domain::timestamp::{rfc3339_of, rfc3339_text};

verus! {

/// One chat message, as handed to the push channel.
#[derive(Clone, Debug)]
pub struct Message {
    /// The display name of the sender.
    pub author_name: String,
    /// The text as the sender wrote it.
    pub text: String,
    /// When the message was sent, in microseconds since the epoch.
    pub sent_at: i64,
}

/// A [`Message`] as a value of the model.
pub struct MessageView {
    pub author_name: Seq<char>,
    pub text: Seq<char>,
    pub sent_at: i64,
}

impl View for Message {
    type V = MessageView;

    open spec fn view(&self) -> MessageView {
        MessageView { author_name: self.author_name@, text: self.text@, sent_at: self.sent_at }
    }
}

/// The wire object built from three JSON values already written out: the
/// members `author_name`, `text` and `sent_at`, in that order, with no
/// white space.
pub open spec fn frame(author_name: Seq<char>, text: Seq<char>, sent_at: Seq<char>) -> Seq<char> {
    "{\"author_name\":"@ + author_name + ",\"text\":"@ + text + ",\"sent_at\":"@ + sent_at + "}"@
}

/// The wire form of a message: its three fields as JSON strings, the time
/// as RFC 3339 text, framed by [`frame`]. `None` where the time is out of
/// the range that has such a text.
pub open spec fn wire_text(m: MessageView) -> Option<Seq<char>> {
    match rfc3339_text(m.sent_at) {
        None => None,
        Some(stamp) => Some(
            frame(
                json_string_text(m.author_name),
                json_string_text(m.text),
                json_string_text(stamp),
            ),
        ),
    }
}

/// Frames three JSON values into the wire object of a chat message.
pub fn frame_message(author_name: &str, text: &str, sent_at: &str) -> (payload: String)
    ensures
        payload@ == frame(author_name@, text@, sent_at@),
{
    String::from_str("{\"author_name\":").concat(author_name).concat(",\"text\":").concat(
        text,
    ).concat(",\"sent_at\":").concat(sent_at).concat("}")
}

/// The error reported for a field that the serialiser refuses.
fn not_serialisable(e: &serde_json::Error) -> (err: LogicError)
    ensures
        err@.kind == ErrorKind::DeliveryFailure,
{
    LogicError::DeliveryFailure(json_error_text(e))
}

impl Message {
    /// The wire form of this message. Fails with `DeliveryFailure` exactly
    /// when the time is out of the range that has an RFC 3339 text.
    pub fn to_json(&self) -> (res: Result<String, LogicError>)
        ensures
            match res {
                Ok(payload) => wire_text(self@) == Some(payload@),
                Err(e) => wire_text(self@) is None && e@.kind == ErrorKind::DeliveryFailure,
            },
    {
        let stamp = match rfc3339_of(self.sent_at) {
            Some(stamp) => stamp,
            None => {
                return Err(
                    LogicError::DeliveryFailure(String::from_str("timestamp out of range")),
                );
            },
        };
        let author = match json_string(self.author_name.as_str()) {
            Ok(a) => a,
            Err(e) => {
                return Err(not_serialisable(&e));
            },
        };
        let text = match json_string(self.text.as_str()) {
            Ok(t) => t,
            Err(e) => {
                return Err(not_serialisable(&e));
            },
        };
        let sent_at = match json_string(stamp.as_str()) {
            Ok(s) => s,
            Err(e) => {
                return Err(not_serialisable(&e));
            },
        };
        Ok(frame_message(author.as_str(), text.as_str(), sent_at.as_str()))
    }
}

} // verus!
