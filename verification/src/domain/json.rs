//! JSON string literals.

use vstd::prelude::*;

verus! {

/// The error type of `serde_json`, carried as it is: nothing is read from
/// it but its text, by [`json_error_text`].
#[verifier::external_type_specification]
#[verifier::external_body]
pub struct ExJsonError(serde_json::Error);

/// The JSON string literal for `s`, quotes and escapes included.
pub uninterp spec fn json_string_text(s: Seq<char>) -> Seq<char>;

/// Writes `s` as a JSON string literal.
///
/// Trusted: calls `serde_json::to_string` on a `&str`. The contract claims
/// that the call succeeds, and that its result is a function of the
/// characters of `s` alone, named [`json_string_text`]. It succeeds
/// because the serialiser writes a string into a buffer in memory, and its
/// only errors are those of the writer.
#[verifier::external_body]
pub(crate) fn json_string(s: &str) -> (text: Result<String, serde_json::Error>)
    ensures
        text is Ok,
        text->Ok_0@ == json_string_text(s@),
{
    serde_json::to_string(s)
}

/// The text of a serialiser error.
///
/// Trusted: calls `to_string` on a `serde_json::Error`, that is its
/// `Display` impl. Nothing is claimed of the text.
#[verifier::external_body]
pub(crate) fn json_error_text(e: &serde_json::Error) -> (text: String) {
    e.to_string()
}

} // verus!
