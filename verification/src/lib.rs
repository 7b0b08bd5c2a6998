//! Generative sketches on an integer grid.
//!
//! The heart of the crate is [`circle_packing`]: filling a rectangular region
//! with circles that never touch each other or the region's edges. Positions
//! and radii are whole numbers of one common unit, so every geometric test is
//! exact.

use vstd::prelude::*;

pub mod circle_packing;
mod random;
pub mod shapes;

verus! {

/// Pairs each point of the first half of a list with the point half a list
/// further on: for points spread evenly round a circle these are the
/// diagonals. The last point of a list of odd length is left out.
pub fn points_list_diagonals<T: Copy>(points: &[T]) -> (diagonals: Vec<(T, T)>)
    ensures
        diagonals@.len() == points@.len() / 2,
        forall|i: int|
            0 <= i < diagonals@.len() ==> #[trigger] diagonals@[i] == (
                points@[i],
                points@[i + points@.len() / 2],
            ),
{
    let half_len: usize = points.len() / 2;
    let mut diagonals: Vec<(T, T)> = Vec::new();
    let mut i: usize = 0;
    while i < half_len
        invariant
            i <= half_len,
            half_len == points@.len() / 2,
            diagonals@.len() == i,
            forall|k: int|
                0 <= k < i ==> #[trigger] diagonals@[k] == (points@[k], points@[k + half_len]),
        decreases half_len - i,
    {
        diagonals.push((points[i], points[i + half_len]));
        i += 1;
    }
    diagonals
}

} // verus!
