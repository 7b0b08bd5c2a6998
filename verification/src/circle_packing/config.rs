//! The settings of one packing run.

use vstd::prelude::*;

verus! {

/// Why a set of packing settings was turned down.
#[derive(Clone, Copy, Debug, PartialEq, Eq, Structural)]
pub enum ConfigError {
    /// The smallest radius is not below the radius limit, so no radius is
    /// left for a circle to have.
    EmptyRadiusRange,
}

/// The settings of one packing run. A value of this type always has
/// `min_radius < max_radius`.
///
/// Radii are in grid units. `line_width` is a stroke weight in thousandths
/// of a unit; the packing hands it on to every circle and never reads it.
#[derive(Clone, Copy, Debug, PartialEq, Eq)]
pub struct CirclePackingDescriptor {
    line_width: u32,
    min_radius: u32,
    max_radius: u32,
    total_circles: usize,
    create_circle_attempts: usize,
}

impl CirclePackingDescriptor {
    /// The stroke weight given to every circle.
    pub closed spec fn spec_line_width(&self) -> u32 {
        self.line_width
    }

    /// The radius at which a circle is first placed.
    pub closed spec fn spec_min_radius(&self) -> u32 {
        self.min_radius
    }

    /// The limit that every radius stays below.
    pub closed spec fn spec_max_radius(&self) -> u32 {
        self.max_radius
    }

    /// How many circles the run tries to place.
    pub closed spec fn spec_total_circles(&self) -> usize {
        self.total_circles
    }

    /// How many random positions are tried for one circle.
    pub closed spec fn spec_create_circle_attempts(&self) -> usize {
        self.create_circle_attempts
    }

    /// What holds of every descriptor: there is at least one radius that a
    /// circle may have.
    #[verifier::type_invariant]
    pub open spec fn wf(&self) -> bool {
        self.min_radius() < self.max_radius()
    }

    /// Checks the settings and builds the descriptor. The only settings
    /// turned down are those with `min_radius >= max_radius`; nothing is
    /// clamped or corrected.
    pub fn new(
        line_width: u32,
        min_radius: u32,
        max_radius: u32,
        total_circles: usize,
        create_circle_attempts: usize,
    ) -> (made: Result<CirclePackingDescriptor, ConfigError>)
        ensures
            min_radius >= max_radius ==> made == Err::<CirclePackingDescriptor, ConfigError>(
                ConfigError::EmptyRadiusRange,
            ),
            min_radius < max_radius ==> made is Ok && made->Ok_0.wf()
                && made->Ok_0.line_width() == line_width
                && made->Ok_0.min_radius() == min_radius
                && made->Ok_0.max_radius() == max_radius
                && made->Ok_0.total_circles() == total_circles
                && made->Ok_0.create_circle_attempts() == create_circle_attempts,
    {
        if min_radius >= max_radius {
            return Err(ConfigError::EmptyRadiusRange);
        }
        Ok(
            CirclePackingDescriptor {
                line_width,
                min_radius,
                max_radius,
                total_circles,
                create_circle_attempts,
            },
        )
    }

    /// The stroke weight given to every circle.
    #[verifier::when_used_as_spec(spec_line_width)]
    pub fn line_width(&self) -> (value: u32)
        ensures
            value == self.line_width(),
    {
        self.line_width
    }

    /// The radius at which a circle is first placed.
    #[verifier::when_used_as_spec(spec_min_radius)]
    pub fn min_radius(&self) -> (value: u32)
        ensures
            value == self.min_radius(),
    {
        self.min_radius
    }

    /// The limit that every radius stays below.
    #[verifier::when_used_as_spec(spec_max_radius)]
    pub fn max_radius(&self) -> (value: u32)
        ensures
            value == self.max_radius(),
    {
        self.max_radius
    }

    /// How many circles the run tries to place.
    #[verifier::when_used_as_spec(spec_total_circles)]
    pub fn total_circles(&self) -> (value: usize)
        ensures
            value == self.total_circles(),
    {
        self.total_circles
    }

    /// How many random positions are tried for one circle.
    #[verifier::when_used_as_spec(spec_create_circle_attempts)]
    pub fn create_circle_attempts(&self) -> (value: usize)
        ensures
            value == self.create_circle_attempts(),
    {
        self.create_circle_attempts
    }
}

impl Default for CirclePackingDescriptor {
    /// The settings of the classic sketch: a thousand rounds of five hundred
    /// attempts each, radii from 2 up to but not including 250, and a stroke
    /// two units wide.
    fn default() -> (made: CirclePackingDescriptor)
        ensures
            made.line_width() == 2000,
            made.min_radius() == 2,
            made.max_radius() == 250,
            made.total_circles() == 1000,
            made.create_circle_attempts() == 500,
    {
        CirclePackingDescriptor {
            line_width: 2000,
            min_radius: 2,
            max_radius: 250,
            total_circles: 1000,
            create_circle_attempts: 500,
        }
    }
}

} // verus!
