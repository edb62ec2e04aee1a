//! Random passphrase generation: a fixed wordlist of lowercase words, a
//! ChaCha-based generator seeded once from the operating system, and a
//! builder that joins capitalized words with hyphens and appends decimal
//! digits.
pub mod generate;
pub mod structure;
pub mod text;
pub mod wordlist;

use vstd::prelude::*;

verus! {

/// Number of words a passphrase has when the request names none.
pub const DEFAULT_LENGTH: u8 = 4;

/// Number of trailing digits a passphrase has when the request names none.
pub const DEFAULT_DIGITS: u8 = 0;

/// The count actually used for a requested parameter: the given value, or
/// the default where the request carried none.
pub open spec fn resolved(v: Option<u8>, d: u8) -> u8 {
    match v {
        Some(x) => x,
        None => d,
    }
}

/// Resolve an optional request parameter against its default.
pub fn resolve_param(v: Option<u8>, d: u8) -> (r: u8)
    ensures
        r == resolved(v, d),
{
    match v {
        Some(x) => x,
        None => d,
    }
}

} // verus!
