//! The one source of chance.

use rand::Rng;
use vstd::prelude::*;

verus! {

/// `rand::Rng::gen_range` on an inclusive range of indices, drawn from the
/// generator of the running thread (`rand::thread_rng`). The draw lies in
/// the range; nothing else is known of it.
#[verifier::external_body]
pub(crate) fn random_index(high: usize) -> (i: usize)
    ensures
        i <= high,
{
    rand::thread_rng().gen_range(0..=high)
}

} // verus!
