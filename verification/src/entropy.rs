//! The ambient entropy source that seeds the generators.

use vstd::prelude::*;

verus! {

/// Draws one 64-bit value from `rand::random::<u64>()`, which samples the
/// thread-local generator that `rand` seeds from the operating system.
///
/// Nothing is claimed about the value: every `u64` is a possible outcome, and
/// two calls need not agree.
#[verifier::external_body]
pub(crate) fn random_u64() -> u64 {
    rand::random::<u64>()
}

} // verus!
