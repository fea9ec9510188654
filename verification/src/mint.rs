//! Minting of fresh identifiers and tokens.

use vstd::prelude::*;

verus! {

/// Relies on uuid::Uuid::new_v4 together with its Display form: a version-4
/// UUID rendered in the hyphenated format is exactly 36 characters long.
/// The value itself is random, so nothing more is promised of it.  Minting
/// aborts the process only if the operating system's randomness source fails
/// — an environmental failure of the out-of-memory kind; no input triggers
/// it, as the function takes none.
#[verifier::external_body]
pub(crate) fn mint_identifier() -> (r: String)
    ensures
        r@.len() == 36,
{
    uuid::Uuid::new_v4().to_string()
}

} // verus!
