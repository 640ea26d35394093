//! Fresh identifiers for rooms and display names.

use vstd::prelude::*;

verus! {

/// The number of characters in a freshly generated identifier.
pub const UNIQUE_ID_LEN: usize = 36;

/// A freshly generated random identifier in hyphenated text form.
///
/// Trusted: calls `uuid::Uuid::new_v4` and formats the result with its
/// `Display` impl, which writes the hyphenated lower-case form. The contract
/// claims only the length of that form, 36 characters; nothing is said of
/// which identifier comes back, since it is random. The call panics where
/// the operating system's source of randomness fails: a fault of the
/// machine, which no argument could rule out.
#[verifier::external_body]
pub(crate) fn fresh_unique_id() -> (id: String)
    ensures
        id@.len() == UNIQUE_ID_LEN,
{
    uuid::Uuid::new_v4().to_string()
}

} // verus!
