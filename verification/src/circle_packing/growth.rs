//! Growing a seed: its radius is raised one unit at a time until the next
//! step would collide.

use crate::circle_packing::collision::{circle_has_collision, collides, leaves, touch, touches_any};
use crate::circle_packing::config::CirclePackingDescriptor;
use crate::circle_packing::region::Region;
use crate::shapes::circle::Circle;
use vstd::prelude::*;

verus! {

/// The least radius in `from..limit` at which the seed collides, or `limit`
/// when it collides at none of them.
pub open spec fn first_collision(
    seed: Circle,
    placed: Seq<Circle>,
    region: Region,
    from: int,
    limit: int,
) -> int
    decreases limit - from,
{
    if from >= limit {
        limit
    } else if collides(seed.with_radius(from as u32), placed, region) {
        from
    } else {
        first_collision(seed, placed, region, from + 1, limit)
    }
}

/// The radius that growth settles on: one less than the first radius at
/// which the seed collides, and never less than `min_radius`. Where no radius
/// below `max_radius` collides this is `max_radius - 1`.
pub open spec fn grown_radius(
    seed: Circle,
    placed: Seq<Circle>,
    region: Region,
    config: CirclePackingDescriptor,
) -> int {
    let hit = first_collision(
        seed,
        placed,
        region,
        config.min_radius() as int,
        config.max_radius() as int,
    );
    if hit > config.min_radius() {
        hit - 1
    } else {
        config.min_radius() as int
    }
}

/// The seed after growth: the same circle but for its radius.
pub open spec fn grown_circle(
    seed: Circle,
    placed: Seq<Circle>,
    region: Region,
    config: CirclePackingDescriptor,
) -> Circle {
    seed.with_radius(grown_radius(seed, placed, region, config) as u32)
}

/// A circle that collides still collides when its radius is raised.
pub proof fn lemma_collision_grows(
    seed: Circle,
    placed: Seq<Circle>,
    region: Region,
    small: u32,
    large: u32,
)
    requires
        small <= large,
        collides(seed.with_radius(small), placed, region),
    ensures
        collides(seed.with_radius(large), placed, region),
{
    let a = seed.with_radius(small);
    let b = seed.with_radius(large);
    if touches_any(a, placed) {
        let i = choose|i: int| 0 <= i < placed.len() && touch(a, #[trigger] placed[i]);
        let other = placed[i];
        let near = small + other.radius;
        let far = large + other.radius;
        assert(near * near <= far * far) by (nonlinear_arith)
            requires
                0 <= near <= far,
        ;
        assert(touch(b, placed[i]));
    } else {
        assert(leaves(a, region));
        assert(leaves(b, region));
    }
}

/// The first collision lies between the start of the search and its limit,
/// no radius before it collides, and the seed collides at it unless it is
/// the limit.
pub proof fn lemma_first_collision(
    seed: Circle,
    placed: Seq<Circle>,
    region: Region,
    from: int,
    limit: int,
)
    requires
        0 <= from <= limit <= u32::MAX,
    ensures
        from <= first_collision(seed, placed, region, from, limit) <= limit,
        forall|r: int|
            from <= r < first_collision(seed, placed, region, from, limit) ==> !collides(
                #[trigger] seed.with_radius(r as u32),
                placed,
                region,
            ),
        first_collision(seed, placed, region, from, limit) < limit ==> collides(
            seed.with_radius(first_collision(seed, placed, region, from, limit) as u32),
            placed,
            region,
        ),
    decreases limit - from,
{
    if from < limit && !collides(seed.with_radius(from as u32), placed, region) {
        lemma_first_collision(seed, placed, region, from + 1, limit);
        let hit = first_collision(seed, placed, region, from, limit);
        assert forall|r: int| from <= r < hit implies !collides(
            #[trigger] seed.with_radius(r as u32),
            placed,
            region,
        ) by {
            if r == from {
            } else {
                assert(from + 1 <= r < first_collision(seed, placed, region, from + 1, limit));
            }
        }
    }
}

/// The grown radius stays within the radii that the settings allow.
pub proof fn lemma_grown_radius_in_range(
    seed: Circle,
    placed: Seq<Circle>,
    region: Region,
    config: CirclePackingDescriptor,
)
    requires
        config.wf(),
    ensures
        config.min_radius() <= grown_radius(seed, placed, region, config) < config.max_radius(),
{
    lemma_first_collision(
        seed,
        placed,
        region,
        config.min_radius() as int,
        config.max_radius() as int,
    );
}

/// Growth keeps a seed clear: a seed that does not collide at `min_radius`
/// does not collide once grown.
pub proof fn lemma_grown_is_clear(
    seed: Circle,
    placed: Seq<Circle>,
    region: Region,
    config: CirclePackingDescriptor,
)
    requires
        config.wf(),
        !collides(seed.with_radius(config.min_radius()), placed, region),
    ensures
        !collides(grown_circle(seed, placed, region, config), placed, region),
{
    lemma_first_collision(
        seed,
        placed,
        region,
        config.min_radius() as int,
        config.max_radius() as int,
    );
    let radius = grown_radius(seed, placed, region, config);
    assert(seed.with_radius(radius as u32) == grown_circle(seed, placed, region, config));
}

/// Growth goes as far as it can: every greater radius that the settings
/// allow collides.
pub proof fn lemma_grown_is_largest(
    seed: Circle,
    placed: Seq<Circle>,
    region: Region,
    config: CirclePackingDescriptor,
    radius: u32,
)
    requires
        config.wf(),
        grown_radius(seed, placed, region, config) < radius < config.max_radius(),
    ensures
        collides(seed.with_radius(radius), placed, region),
{
    let min = config.min_radius() as int;
    let max = config.max_radius() as int;
    lemma_first_collision(seed, placed, region, min, max);
    let hit = first_collision(seed, placed, region, min, max);
    assert(hit < max);
    lemma_collision_grows(seed, placed, region, hit as u32, radius);
}

/// Grows a seed against the circles placed so far. The radius starts at
/// `min_radius` and is raised one unit at a time, below `max_radius`; the
/// first radius that collides ends the growth, and the circle keeps the
/// radius before it. The radius never falls below `min_radius`: a seed that
/// already collides there keeps `min_radius`. Centre, weight and colour are
/// those of the seed.
#[verifier::loop_isolation(false)]
pub fn grow(
    seed: &Circle,
    window: &Region,
    circles: &[Circle],
    config: &CirclePackingDescriptor,
) -> (grown: Circle)
    ensures
        grown == grown_circle(*seed, circles@, *window, *config),
        config.min_radius() <= grown.radius < config.max_radius(),
        !collides(seed.with_radius(config.min_radius()), circles@, *window) ==> !collides(
            grown,
            circles@,
            *window,
        ),
{
    proof {
        use_type_invariant(config);
        lemma_grown_radius_in_range(*seed, circles@, *window, *config);
        if !collides(seed.with_radius(config.min_radius()), circles@, *window) {
            lemma_grown_is_clear(*seed, circles@, *window, *config);
        }
    }
    let min: u32 = config.min_radius();
    let max: u32 = config.max_radius();
    let mut radius: u32 = min;
    while radius < max
        invariant
            min <= radius <= max,
            first_collision(*seed, circles@, *window, min as int, max as int) == first_collision(
                *seed,
                circles@,
                *window,
                radius as int,
                max as int,
            ),
        decreases max - radius,
    {
        if circle_has_collision(&seed.with_radius(radius), circles, window) {
            if radius > min {
                return seed.with_radius(radius - 1);
            }
            return seed.with_radius(min);
        }
        radius += 1;
    }
    seed.with_radius(max - 1)
}

} // verus!
