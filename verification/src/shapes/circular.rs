//! Steps around a full turn: a shape is drawn through the points that lie a
//! whole number of degrees apart on a circle, so the step has to divide 360.

use crate::random::choose_one;
use rand::rngs::StdRng;
use vstd::prelude::*;

verus! {

/// The steps, in degrees, that a shape may be drawn with. Each divides 360.
pub const DIVISORS_360: [usize; 22] = [
    1,
    2,
    3,
    4,
    5,
    6,
    8,
    9,
    10,
    12,
    15,
    18,
    20,
    24,
    30,
    36,
    40,
    45,
    60,
    72,
    90,
    120,
];

/// Whether `step` is one of [`DIVISORS_360`].
pub open spec fn spec_is_360_divisor(step: usize) -> bool {
    DIVISORS_360@.contains(step)
}

/// Every step in [`DIVISORS_360`] divides 360, and none exceeds 120.
pub proof fn lemma_divisors_divide_360(step: usize)
    requires
        spec_is_360_divisor(step),
    ensures
        1 <= step <= 120,
        360int % (step as int) == 0,
{
    let i = choose|i: int| 0 <= i < DIVISORS_360@.len() && DIVISORS_360@[i] == step;
    assert(0 <= i < 22);
    if step == 1 {
        assert(360int % 1 == 0);
    } else if step == 2 {
        assert(360int % 2 == 0);
    } else if step == 3 {
        assert(360int % 3 == 0);
    } else if step == 4 {
        assert(360int % 4 == 0);
    } else if step == 5 {
        assert(360int % 5 == 0);
    } else if step == 6 {
        assert(360int % 6 == 0);
    } else if step == 8 {
        assert(360int % 8 == 0);
    } else if step == 9 {
        assert(360int % 9 == 0);
    } else if step == 10 {
        assert(360int % 10 == 0);
    } else if step == 12 {
        assert(360int % 12 == 0);
    } else if step == 15 {
        assert(360int % 15 == 0);
    } else if step == 18 {
        assert(360int % 18 == 0);
    } else if step == 20 {
        assert(360int % 20 == 0);
    } else if step == 24 {
        assert(360int % 24 == 0);
    } else if step == 30 {
        assert(360int % 30 == 0);
    } else if step == 36 {
        assert(360int % 36 == 0);
    } else if step == 40 {
        assert(360int % 40 == 0);
    } else if step == 45 {
        assert(360int % 45 == 0);
    } else if step == 60 {
        assert(360int % 60 == 0);
    } else if step == 72 {
        assert(360int % 72 == 0);
    } else if step == 90 {
        assert(360int % 90 == 0);
    } else if step == 120 {
        assert(360int % 120 == 0);
    }
}

/// Whether `step` is one of [`DIVISORS_360`].
#[verifier::when_used_as_spec(spec_is_360_divisor)]
pub fn is_360_divisor(step: usize) -> (listed: bool)
    ensures
        listed == spec_is_360_divisor(step),
{
    let mut i: usize = 0;
    while i < 22
        invariant
            i <= 22,
            forall|k: int| 0 <= k < i ==> DIVISORS_360@[k] != step,
        decreases 22 - i,
    {
        if DIVISORS_360[i] == step {
            return true;
        }
        i += 1;
    }
    false
}

/// A step picked at random from [`DIVISORS_360`]. Which one comes is up to
/// the generator; it is always one of the list.
pub fn rng_360_divisor(rng: &mut StdRng) -> (step: usize)
    ensures
        is_360_divisor(step),
{
    match choose_one(rng, DIVISORS_360.as_slice()) {
        Some(step) => step,
        None => DIVISORS_360[0],
    }
}

} // verus!
