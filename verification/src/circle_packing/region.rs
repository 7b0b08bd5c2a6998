//! The rectangle that a packing has to stay inside.

use vstd::prelude::*;

verus! {

/// An axis-aligned rectangle, given by the coordinates of its four edges.
/// `y` grows upwards: `top` is the greater of the two horizontal edges.
#[derive(Clone, Copy, Debug, PartialEq, Eq, Structural)]
pub struct Region {
    pub left: i32,
    pub right: i32,
    pub bottom: i32,
    pub top: i32,
}

impl Region {
    /// The distance from the left edge to the right edge.
    pub open spec fn width(&self) -> int {
        self.right - self.left
    }

    /// The distance from the bottom edge to the top edge.
    pub open spec fn height(&self) -> int {
        self.top - self.bottom
    }

    /// Whether the region has no interior at all.
    pub open spec fn spec_is_empty(&self) -> bool {
        self.left >= self.right || self.bottom >= self.top
    }

    /// The number of grid points strictly inside the region.
    pub open spec fn interior_cells(&self) -> int {
        if self.spec_is_empty() {
            0
        } else {
            (self.width() - 1) * (self.height() - 1)
        }
    }

    /// Whether a circle of the given radius can lie inside the region at all
    /// without reaching an edge: the region is more than a diameter wide and
    /// more than a diameter high.
    pub open spec fn has_room_for(&self, radius: u32) -> bool {
        self.width() > 2 * radius && self.height() > 2 * radius
    }

    /// Whether the region has no interior at all: its edges meet or cross.
    #[verifier::when_used_as_spec(spec_is_empty)]
    pub fn is_empty(&self) -> (empty: bool)
        ensures
            empty == self.spec_is_empty(),
    {
        self.left >= self.right || self.bottom >= self.top
    }
}

} // verus!
