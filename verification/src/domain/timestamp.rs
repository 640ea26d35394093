//! Timestamps: microseconds since the Unix epoch, and their RFC 3339 text.

use vstd::prelude::*;

verus! {

/// The RFC 3339 text of the instant `micros` microseconds after the Unix
/// epoch in UTC, or `None` where the instant is outside the range of dates
/// that can be represented.
pub uninterp spec fn rfc3339_text(micros: i64) -> Option<Seq<char>>;

/// The current time in microseconds since the Unix epoch.
///
/// Trusted: calls `chrono::Utc::now` and `DateTime::timestamp_micros`. The
/// result depends on the clock, so nothing is claimed of it. The call
/// panics where the system clock stands before the Unix epoch: a fault of
/// the machine, which no argument could rule out.
#[verifier::external_body]
pub(crate) fn now_micros() -> (micros: i64) {
    chrono::Utc::now().timestamp_micros()
}

/// The RFC 3339 text of a timestamp.
///
/// Trusted: calls `chrono::DateTime::from_timestamp_micros`, which gives
/// `None` for an instant out of range, and `DateTime::to_rfc3339` on the
/// instant otherwise. The contract claims that the outcome is a function of
/// `micros` alone, named [`rfc3339_text`].
#[verifier::external_body]
pub(crate) fn rfc3339_of(micros: i64) -> (text: Option<String>)
    ensures
        match text {
            Some(t) => rfc3339_text(micros) == Some(t@),
            None => rfc3339_text(micros) is None,
        },
{
    match chrono::DateTime::from_timestamp_micros(micros) {
        Some(instant) => Some(instant.to_rfc3339()),
        None => None,
    }
}

} // verus!
