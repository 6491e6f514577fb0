use vstd::prelude::*;

verus! {

/// A byte from `rand::random::<u8>()`, which draws it from the thread-local
/// generator of `rand`.  The value depends on chance alone, so nothing is
/// promised of it: every byte may come back.  (`rand` panics only when the
/// operating system cannot seed the generator; no argument can rule that
/// out.)
#[verifier::external_body]
pub(crate) fn random_byte() -> u8 {
    rand::random::<u8>()
}

} // verus!
