//! A circle on the integer grid, with the stroke it is drawn with.

use vstd::prelude::*;

verus! {

/// The stroke weight that stands for a line one unit wide. Weights are
/// fixed-point numbers in thousandths of a unit.
pub const WEIGHT_UNIT: u32 = 1000;

/// A position on the grid.
#[derive(Clone, Copy, Debug, PartialEq, Eq, Structural)]
pub struct Point {
    pub x: i32,
    pub y: i32,
}

/// A colour with eight bits per channel.
#[derive(Clone, Copy, Debug, PartialEq, Eq, Structural)]
pub struct Rgba {
    pub red: u8,
    pub green: u8,
    pub blue: u8,
    pub alpha: u8,
}

/// A circle: where its centre is, how far it reaches, and how it is stroked.
///
/// A circle is a plain value. The `with_*` builders never change the circle
/// they are called on; each returns a copy with one attribute replaced.
#[derive(Clone, Copy, Debug, PartialEq, Eq, Structural)]
pub struct Circle {
    pub pos: Point,
    pub radius: u32,
    pub weight: u32,
    pub color: Rgba,
}

impl Rgba {
    /// Opaque black.
    pub open spec fn black() -> Rgba {
        Rgba { red: 0, green: 0, blue: 0, alpha: 255 }
    }
}

impl Circle {
    /// The circle that [`Circle::new`] builds.
    pub open spec fn spec_new(radius: u32) -> Circle {
        Circle {
            pos: Point { x: 0, y: 0 },
            radius,
            weight: WEIGHT_UNIT,
            color: Rgba::black(),
        }
    }

    /// This circle moved to `pos`.
    pub open spec fn spec_with_xy(&self, pos: Point) -> Circle {
        Circle { pos, ..*self }
    }

    /// This circle with its radius replaced.
    pub open spec fn spec_with_radius(&self, radius: u32) -> Circle {
        Circle { radius, ..*self }
    }

    /// This circle with its colour replaced.
    pub open spec fn spec_with_color(&self, color: Rgba) -> Circle {
        Circle { color, ..*self }
    }

    /// This circle with its stroke weight replaced.
    pub open spec fn spec_with_weight(&self, weight: u32) -> Circle {
        Circle { weight, ..*self }
    }

    /// A circle of the given radius at the origin, stroked in opaque black
    /// with a line one unit wide.
    #[verifier::when_used_as_spec(spec_new)]
    pub fn new(radius: u32) -> (circle: Circle)
        ensures
            circle == Circle::spec_new(radius),
    {
        Circle {
            pos: Point { x: 0, y: 0 },
            radius,
            weight: WEIGHT_UNIT,
            color: Rgba { red: 0, green: 0, blue: 0, alpha: 255 },
        }
    }

    /// A copy of this circle centred at `pos`.
    #[verifier::when_used_as_spec(spec_with_xy)]
    pub fn with_xy(&self, pos: Point) -> (circle: Circle)
        ensures
            circle == self.spec_with_xy(pos),
    {
        Circle { pos, radius: self.radius, weight: self.weight, color: self.color }
    }

    /// A copy of this circle with the given radius.
    #[verifier::when_used_as_spec(spec_with_radius)]
    pub fn with_radius(&self, radius: u32) -> (circle: Circle)
        ensures
            circle == self.spec_with_radius(radius),
    {
        Circle { pos: self.pos, radius, weight: self.weight, color: self.color }
    }

    /// A copy of this circle centred at `(x, y)`.
    pub fn with_x_y(&self, x: i32, y: i32) -> (circle: Circle)
        ensures
            circle == self.spec_with_xy(Point { x, y }),
    {
        Circle { pos: Point { x, y }, radius: self.radius, weight: self.weight, color: self.color }
    }

    /// A copy of this circle in the given colour.
    #[verifier::when_used_as_spec(spec_with_color)]
    pub fn with_color(&self, color: Rgba) -> (circle: Circle)
        ensures
            circle == self.spec_with_color(color),
    {
        Circle { pos: self.pos, radius: self.radius, weight: self.weight, color }
    }

    /// A copy of this circle with the given stroke weight.
    #[verifier::when_used_as_spec(spec_with_weight)]
    pub fn with_weight(&self, weight: u32) -> (circle: Circle)
        ensures
            circle == self.spec_with_weight(weight),
    {
        Circle { pos: self.pos, radius: self.radius, weight, color: self.color }
    }
}

} // verus!
