//! The one place where the library draws random values.

use rand::Rng;
use vstd::prelude::*;

verus! {

/// Overwrites every element of `cells` with a boolean drawn from the
/// thread-local generator: `rand::Rng::fill` on `rand::thread_rng()`, for a
/// slice of `bool`.
///
/// Trusted, not proved. The contract claims only that the vector keeps its
/// length, since `fill` writes through the slice it is given. Nothing is
/// claimed of the values written: they differ from call to call. The
/// generator seeds itself from the operating system when a thread first
/// uses it.
#[verifier::external_body]
pub(crate) fn fill_random(cells: &mut Vec<bool>)
    ensures
        final(cells)@.len() == old(cells)@.len(),
{
    rand::thread_rng().fill(&mut cells[..]);
}

} // verus!
