//! How many circles a region can hold at most.
//!
//! Every circle contains a square of grid cells around its centre. Circles
//! that do not touch have squares that do not meet, and circles inside the
//! region have their squares among the region's interior cells. Counting the
//! cells bounds the number of circles.

use crate::circle_packing::collision::{leaves, touch};
use crate::circle_packing::driver::{all_inside, no_two_touch};
use crate::circle_packing::region::Region;
use crate::shapes::circle::Circle;
use vstd::prelude::*;
use vstd::set_lib::{
    lemma_int_range, lemma_len_subset, lemma_map_size, lemma_set_disjoint_lens, set_int_range,
};

verus! {

/// Half the side of a square that fits inside a circle of the given radius:
/// seven tenths of the radius, rounded down. The square's corner is no
/// further from the centre than the radius, since twice the square of seven
/// tenths is less than one.
pub open spec fn inner_half_side(radius: u32) -> int {
    (7 * radius) / 10
}

/// The number of grid cells that a circle of the given radius keeps to
/// itself: those of the square inside it.
pub open spec fn footprint(radius: u32) -> int {
    (2 * inner_half_side(radius) + 1) * (2 * inner_half_side(radius) + 1)
}

/// The grid cells `(x, y)` with `x0 <= x < x1` and `y0 <= y < y1`.
pub open spec fn cells(x0: int, x1: int, y0: int, y1: int) -> Set<(int, int)> {
    Set::new(|p: (int, int)| x0 <= p.0 < x1 && y0 <= p.1 < y1)
}

/// The grid cells of the square inside a circle.
pub open spec fn footprint_cells(c: Circle) -> Set<(int, int)> {
    let half = inner_half_side(c.radius);
    cells(c.pos.x - half, c.pos.x + half + 1, c.pos.y - half, c.pos.y + half + 1)
}

/// The grid cells strictly inside a region.
pub open spec fn interior(region: Region) -> Set<(int, int)> {
    cells(region.left + 1, region.right as int, region.bottom + 1, region.top as int)
}

/// The cells that the first `k` circles keep to themselves.
pub open spec fn covered(circles: Seq<Circle>, k: int) -> Set<(int, int)>
    decreases k,
{
    if k <= 0 {
        Set::empty()
    } else {
        covered(circles, k - 1) + footprint_cells(circles[k - 1])
    }
}

/// A block of cells is finite, and holds as many cells as its width times
/// its height.
pub proof fn lemma_cells_len(x0: int, x1: int, y0: int, y1: int)
    requires
        x0 <= x1,
        y0 <= y1,
    ensures
        cells(x0, x1, y0, y1).finite(),
        cells(x0, x1, y0, y1).len() == (x1 - x0) * (y1 - y0),
    decreases y1 - y0,
{
    if y0 == y1 {
        assert(cells(x0, x1, y0, y1) =~= Set::empty());
        assert((x1 - x0) * (y1 - y0) == 0) by (nonlinear_arith)
            requires
                y1 - y0 == 0,
        ;
    } else {
        let below = cells(x0, x1, y0, y1 - 1);
        let row = cells(x0, x1, y1 - 1, y1);
        lemma_cells_len(x0, x1, y0, y1 - 1);
        lemma_int_range(x0, x1);
        let in_row = |x: int| (x, y1 - 1);
        assert forall|p: (int, int)| row.contains(p) implies set_int_range(x0, x1).map(
            in_row,
        ).contains(p) by {
            assert(set_int_range(x0, x1).contains(p.0) && p == in_row(p.0));
        }
        assert(set_int_range(x0, x1).map(in_row) =~= row);
        lemma_map_size(set_int_range(x0, x1), row, in_row);
        lemma_set_disjoint_lens(below, row);
        assert(below.disjoint(row));
        assert(below + row =~= cells(x0, x1, y0, y1));
        assert((x1 - x0) * (y1 - 1 - y0) + (x1 - x0) == (x1 - x0) * (y1 - y0))
            by (nonlinear_arith);
    }
}

/// Circles that do not touch keep different cells to themselves.
pub proof fn lemma_footprints_apart(a: Circle, b: Circle)
    requires
        !touch(a, b),
    ensures
        footprint_cells(a).disjoint(footprint_cells(b)),
{
    assert forall|p: (int, int)|
        !(footprint_cells(a).contains(p) && footprint_cells(b).contains(p)) by {
        if footprint_cells(a).contains(p) && footprint_cells(b).contains(p) {
            let dx = a.pos.x - b.pos.x;
            let dy = a.pos.y - b.pos.y;
            let half = inner_half_side(a.radius) + inner_half_side(b.radius);
            let reach = a.radius + b.radius;
            assert(-half <= dx <= half && -half <= dy <= half);
            assert(0 <= 10 * half <= 7 * reach);
            assert(dx * dx <= half * half) by (nonlinear_arith)
                requires
                    -half <= dx <= half,
            ;
            assert(dy * dy <= half * half) by (nonlinear_arith)
                requires
                    -half <= dy <= half,
            ;
            assert(2 * (half * half) <= reach * reach) by (nonlinear_arith)
                requires
                    0 <= 10 * half <= 7 * reach,
            ;
            assert(touch(a, b));
        }
    }
}

/// A greater radius keeps at least as many cells.
pub proof fn lemma_footprint_grows(small: u32, large: u32)
    requires
        small <= large,
    ensures
        1 <= footprint(small) <= footprint(large),
{
    let s = 2 * inner_half_side(small) + 1;
    let l = 2 * inner_half_side(large) + 1;
    assert(1 <= s <= l);
    assert(1 <= s * s <= l * l) by (nonlinear_arith)
        requires
            1 <= s <= l,
    ;
}

/// The cells of the first `k` circles: there are at least `k` footprints'
/// worth of them, all in the region's interior, and each belongs to one of
/// those circles.
proof fn lemma_covered(circles: Seq<Circle>, region: Region, min_radius: u32, k: int)
    requires
        no_two_touch(circles),
        all_inside(circles, region),
        forall|i: int| 0 <= i < circles.len() ==> (#[trigger] circles[i]).radius >= min_radius,
        0 <= k <= circles.len(),
    ensures
        covered(circles, k).finite(),
        covered(circles, k).len() >= k * footprint(min_radius),
        covered(circles, k).subset_of(interior(region)),
        forall|p: (int, int)|
            covered(circles, k).contains(p) ==> exists|i: int|
                0 <= i < k && footprint_cells(#[trigger] circles[i]).contains(p),
    decreases k,
{
    if k > 0 {
        lemma_covered(circles, region, min_radius, k - 1);
        let before = covered(circles, k - 1);
        let c = circles[k - 1];
        let own = footprint_cells(c);
        let half = inner_half_side(c.radius);
        lemma_cells_len(c.pos.x - half, c.pos.x + half + 1, c.pos.y - half, c.pos.y + half + 1);
        assert(own.len() == footprint(c.radius));
        lemma_footprint_grows(min_radius, c.radius);
        assert forall|p: (int, int)| !(before.contains(p) && own.contains(p)) by {
            if before.contains(p) {
                let i = choose|i: int|
                    0 <= i < k - 1 && footprint_cells(#[trigger] circles[i]).contains(p);
                assert(!touch(circles[i], circles[k - 1]));
                lemma_footprints_apart(circles[i], c);
            }
        }
        assert(before.disjoint(own));
        lemma_set_disjoint_lens(before, own);
        assert(!leaves(c, region));
        assert(half <= c.radius);
        assert(own.subset_of(interior(region)));
        assert((k - 1) * footprint(min_radius) + footprint(min_radius) == k * footprint(
            min_radius,
        )) by (nonlinear_arith);
        assert forall|p: (int, int)| covered(circles, k).contains(p) implies exists|i: int|
            0 <= i < k && footprint_cells(#[trigger] circles[i]).contains(p) by {
            if before.contains(p) {
                let i = choose|i: int|
                    0 <= i < k - 1 && footprint_cells(#[trigger] circles[i]).contains(p);
                assert(0 <= i < k && footprint_cells(circles[i]).contains(p));
            } else {
                assert(footprint_cells(circles[k - 1]).contains(p));
            }
        }
    } else {
        assert(0 * footprint(min_radius) == 0);
    }
}

/// A region holds only so many circles: circles that keep clear of each
/// other and of the region's edges, each of radius `min_radius` or more,
/// need a footprint of interior cells apiece.
pub proof fn lemma_capacity(circles: Seq<Circle>, region: Region, min_radius: u32)
    requires
        no_two_touch(circles),
        all_inside(circles, region),
        forall|i: int| 0 <= i < circles.len() ==> (#[trigger] circles[i]).radius >= min_radius,
    ensures
        circles.len() * footprint(min_radius) <= region.interior_cells(),
{
    if circles.len() == 0 {
        assert(circles.len() * footprint(min_radius) == 0);
        if !region.is_empty() {
            assert(0 <= (region.width() - 1) * (region.height() - 1)) by (nonlinear_arith)
                requires
                    region.width() >= 1,
                    region.height() >= 1,
            ;
        }
    } else {
        assert(!leaves(circles[0], region));
        lemma_covered(circles, region, min_radius, circles.len() as int);
        lemma_cells_len(region.left + 1, region.right as int, region.bottom + 1, region.top as int);
        lemma_len_subset(covered(circles, circles.len() as int), interior(region));
    }
}

} // verus!
