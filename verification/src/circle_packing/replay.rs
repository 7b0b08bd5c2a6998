//! What a packing run leaves to chance.
//!
//! The random generator decides where the circles go and how many there
//! are. Everything else follows: each circle is the seed at its centre,
//! grown against the circles before it.

use crate::circle_packing::config::CirclePackingDescriptor;
use crate::circle_packing::driver::each_placed_and_grown;
use crate::circle_packing::placement::placed_and_grown;
use crate::circle_packing::region::Region;
use crate::shapes::circle::Circle;
use vstd::prelude::*;

verus! {

/// The two lists have equally many circles, with the same centres in the
/// same order.
pub open spec fn same_centres(a: Seq<Circle>, b: Seq<Circle>) -> bool {
    &&& a.len() == b.len()
    &&& forall|i: int| 0 <= i < a.len() ==> (#[trigger] a[i]).pos == (#[trigger] b[i]).pos
}

/// Two packings of one region under the same settings that place their
/// circles at the same centres, in the same order, are the same packing:
/// radius, stroke weight and colour of every circle agree.
pub proof fn lemma_packing_fixed_by_centres(
    a: Seq<Circle>,
    b: Seq<Circle>,
    region: Region,
    config: CirclePackingDescriptor,
)
    requires
        each_placed_and_grown(a, region, config),
        each_placed_and_grown(b, region, config),
        same_centres(a, b),
    ensures
        a == b,
{
    lemma_agree_up_to(a, b, region, config, a.len() as int);
    assert(a.take(a.len() as int) == a);
    assert(b.take(b.len() as int) == b);
}

/// The first `k` circles of two such packings agree.
proof fn lemma_agree_up_to(
    a: Seq<Circle>,
    b: Seq<Circle>,
    region: Region,
    config: CirclePackingDescriptor,
    k: int,
)
    requires
        each_placed_and_grown(a, region, config),
        each_placed_and_grown(b, region, config),
        same_centres(a, b),
        0 <= k <= a.len(),
    ensures
        a.take(k) == b.take(k),
    decreases k,
{
    if k > 0 {
        lemma_agree_up_to(a, b, region, config, k - 1);
        assert(placed_and_grown(a[k - 1], a.take(k - 1), region, config));
        assert(placed_and_grown(b[k - 1], b.take(k - 1), region, config));
        assert(a[k - 1].pos == b[k - 1].pos);
        assert(a.take(k) == a.take(k - 1).push(a[k - 1]));
        assert(b.take(k) == b.take(k - 1).push(b[k - 1]));
    } else {
        assert(a.take(0) == b.take(0));
    }
}

} // verus!
