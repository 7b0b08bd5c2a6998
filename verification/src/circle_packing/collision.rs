//! When a circle is in the way: it touches a circle that is already placed,
//! or it touches an edge of the region. Touching counts: two shapes that
//! meet in a single point collide, so whatever passes keeps a gap.

use crate::circle_packing::region::Region;
use crate::shapes::circle::Circle;
use vstd::prelude::*;

verus! {

/// Two circles touch when the distance between their centres is at most the
/// sum of their radii. Squaring both sides keeps the comparison in whole
/// numbers.
pub open spec fn touch(a: Circle, b: Circle) -> bool {
    let dx = a.pos.x - b.pos.x;
    let dy = a.pos.y - b.pos.y;
    let reach = a.radius + b.radius;
    dx * dx + dy * dy <= reach * reach
}

/// A circle leaves the region when it reaches or crosses one of the edges.
pub open spec fn leaves(c: Circle, region: Region) -> bool {
    ||| c.pos.x + c.radius >= region.right
    ||| c.pos.x - c.radius <= region.left
    ||| c.pos.y + c.radius >= region.top
    ||| c.pos.y - c.radius <= region.bottom
}

/// A circle touches one of the placed circles.
pub open spec fn touches_any(c: Circle, placed: Seq<Circle>) -> bool {
    exists|i: int| 0 <= i < placed.len() && touch(c, #[trigger] placed[i])
}

/// A candidate collides when it touches a placed circle or leaves the region.
pub open spec fn collides(c: Circle, placed: Seq<Circle>, region: Region) -> bool {
    touches_any(c, placed) || leaves(c, region)
}

/// Touching does not depend on which circle is named first.
pub proof fn lemma_touch_symmetric(a: Circle, b: Circle)
    ensures
        touch(a, b) == touch(b, a),
{
    let dx = a.pos.x - b.pos.x;
    let dy = a.pos.y - b.pos.y;
    assert(dx * dx == (-dx) * (-dx)) by (nonlinear_arith);
    assert(dy * dy == (-dy) * (-dy)) by (nonlinear_arith);
}

/// Whether two circles touch.
pub fn circles_touch(a: &Circle, b: &Circle) -> (hit: bool)
    ensures
        hit == touch(*a, *b),
{
    let dx: i128 = a.pos.x as i128 - b.pos.x as i128;
    let dy: i128 = a.pos.y as i128 - b.pos.y as i128;
    let reach: i128 = a.radius as i128 + b.radius as i128;
    assert(dx * dx <= 0x1_0000_0000 * 0x1_0000_0000) by (nonlinear_arith)
        requires
            -0x1_0000_0000 <= dx <= 0x1_0000_0000,
    ;
    assert(dy * dy <= 0x1_0000_0000 * 0x1_0000_0000) by (nonlinear_arith)
        requires
            -0x1_0000_0000 <= dy <= 0x1_0000_0000,
    ;
    assert(0 <= reach * reach <= 0x2_0000_0000 * 0x2_0000_0000) by (nonlinear_arith)
        requires
            0 <= reach <= 0x2_0000_0000,
    ;
    assert(0 <= dx * dx && 0 <= dy * dy) by (nonlinear_arith);
    dx * dx + dy * dy <= reach * reach
}

/// Whether a circle reaches or crosses an edge of the region.
pub fn leaves_region(c: &Circle, region: &Region) -> (out: bool)
    ensures
        out == leaves(*c, *region),
{
    let x: i64 = c.pos.x as i64;
    let y: i64 = c.pos.y as i64;
    let r: i64 = c.radius as i64;
    x + r >= region.right as i64 || x - r <= region.left as i64 || y + r >= region.top as i64 || y
        - r <= region.bottom as i64
}

/// The collision test for a candidate circle: `true` when it touches any of
/// the circles placed so far, or reaches or crosses an edge of the window.
/// The placed circles are looked at in order, and the first one that is
/// touched settles the answer.
pub fn circle_has_collision(circle: &Circle, circles: &[Circle], window: &Region) -> (hit: bool)
    ensures
        hit == collides(*circle, circles@, *window),
{
    let mut i: usize = 0;
    while i < circles.len()
        invariant
            i <= circles@.len(),
            forall|k: int| 0 <= k < i ==> !touch(*circle, #[trigger] circles@[k]),
        decreases circles@.len() - i,
    {
        if circles_touch(circle, &circles[i]) {
            return true;
        }
        i += 1;
    }
    leaves_region(circle, window)
}

} // verus!
