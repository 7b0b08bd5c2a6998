//! The random generator that the sketches draw from.
//!
//! Nothing here is proved: these are the calls into the `rand` crate, each
//! with the part of its documented behaviour that the sketches rely on.

use rand::rngs::StdRng;
use rand::seq::SliceRandom;
use rand::Rng;
use vstd::prelude::*;

verus! {

/// `rand::rngs::StdRng`, the seedable generator. Its state is opaque here.
#[verifier::external_type_specification]
#[verifier::external_body]
pub struct ExStdRng(StdRng);

/// Draws one integer through `rand::Rng::gen_range` on the half-open range
/// `lo..hi`. The call panics on an empty range, so the range may not be
/// empty; the value drawn lies in the range. Which value comes is up to the
/// generator, and the generator's state after the call is left open.
#[verifier::external_body]
pub(crate) fn random_range(rng: &mut StdRng, lo: i32, hi: i32) -> (drawn: i32)
    requires
        lo < hi,
    ensures
        lo <= drawn < hi,
{
    rng.gen_range(lo..hi)
}

/// Picks one element through `rand::seq::SliceRandom::choose`: `None` for
/// an empty slice, otherwise one of the slice's elements. Which element comes
/// is up to the generator, and the generator's state after the call is left
/// open.
#[verifier::external_body]
pub(crate) fn choose_one(rng: &mut StdRng, items: &[usize]) -> (picked: Option<usize>)
    ensures
        items@.len() == 0 ==> picked is None,
        items@.len() > 0 ==> picked is Some && items@.contains(picked->Some_0),
{
    items.choose(rng).copied()
}

} // verus!
