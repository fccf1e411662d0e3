//! Shared infrastructure: the bounded stack used by the validator and the
//! runtime, and the default resource indices.

use vstd::prelude::*;

pub mod stack;

verus! {

/// Relies on `str`'s `==` (std's content comparison); equal contents,
/// equal result, since UTF-8 encoding is injective.
#[verifier::external_body]
pub(crate) fn str_eq(a: &str, b: &str) -> (r: bool)
    ensures
        r == (a@ == b@),
{
    a == b
}

/// Index of the only memory the MVP format addresses.
pub const DEFAULT_MEMORY_INDEX: u32 = 0;

/// Index of the only table the MVP format addresses.
pub const DEFAULT_TABLE_INDEX: u32 = 0;

} // verus!
