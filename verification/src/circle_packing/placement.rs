//! Finding room for one more circle: random centres are tried, a bounded
//! number of times, until a circle of the smallest radius fits.

use crate::circle_packing::collision::{circle_has_collision, collides};
use crate::circle_packing::config::CirclePackingDescriptor;
use crate::circle_packing::growth::{grow, grown_circle};
use crate::circle_packing::region::Region;
use crate::random::random_range;
use crate::shapes::circle::{Circle, Point};
use rand::rngs::StdRng;
use vstd::prelude::*;

verus! {

/// The seed that a run places at `pos`: a circle of the smallest radius,
/// stroked as the settings say.
pub open spec fn seed_at(config: CirclePackingDescriptor, pos: Point) -> Circle {
    Circle::new(config.min_radius()).with_weight(config.line_width()).with_xy(pos)
}

/// What holds of a circle that was placed at its centre as a seed and then
/// grown: the seed was clear of the circles before it and of the edges, and
/// the circle is that seed, grown as far as it goes.
pub open spec fn placed_and_grown(
    c: Circle,
    placed: Seq<Circle>,
    region: Region,
    config: CirclePackingDescriptor,
) -> bool {
    &&& !collides(seed_at(config, c.pos), placed, region)
    &&& c == grown_circle(seed_at(config, c.pos), placed, region, config)
}

/// Every centre lies within the window's extents: `x` from `left` up to but
/// not including `right`, `y` from `bottom` up to but not including `top`.
pub open spec fn drawn_within(draws: Seq<Point>, window: Region) -> bool {
    forall|i: int|
        0 <= i < draws.len() ==> window.left <= (#[trigger] draws[i]).x < window.right
            && window.bottom <= draws[i].y < window.top
}

/// What a search returns that tried these centres, in this order, and
/// stopped after the last of them: the seed at the last centre if it is
/// clear there, and nothing otherwise.
pub open spec fn search_result(
    draws: Seq<Point>,
    placed: Seq<Circle>,
    window: Region,
    config: CirclePackingDescriptor,
) -> Option<Circle> {
    if draws.len() > 0 && !collides(seed_at(config, draws.last()), placed, window) {
        Some(seed_at(config, draws.last()))
    } else {
        None
    }
}

/// These are the centres that one search may have tried, in this order. They
/// lie within the window and are no more than the attempts allowed; the
/// search went on only past centres at which the seed collides, so every
/// centre but the last is one of those; and a search that found nothing used
/// up all its attempts, or had a window without interior and tried none.
pub open spec fn is_search(
    draws: Seq<Point>,
    placed: Seq<Circle>,
    window: Region,
    config: CirclePackingDescriptor,
) -> bool {
    &&& drawn_within(draws, window)
    &&& draws.len() <= config.create_circle_attempts()
    &&& forall|i: int|
        0 <= i < draws.len() - 1 ==> collides(seed_at(config, #[trigger] draws[i]), placed, window)
    &&& search_result(draws, placed, window, config) is None ==> draws.len() == if window.is_empty() {
        0
    } else {
        config.create_circle_attempts()
    }
}

/// What a round returns whose search tried these centres: the seed that the
/// search found, grown against the placed circles, or nothing.
pub open spec fn round_result(
    draws: Seq<Point>,
    placed: Seq<Circle>,
    window: Region,
    config: CirclePackingDescriptor,
) -> Option<Circle> {
    match search_result(draws, placed, window, config) {
        Some(seed) => Some(grown_circle(seed, placed, window, config)),
        None => None,
    }
}

/// The seed at a given centre, if it is clear there: `None` exactly when the
/// seed would collide.
pub fn try_seed_at(
    pos: Point,
    window: &Region,
    circles: &[Circle],
    config: &CirclePackingDescriptor,
) -> (found: Option<Circle>)
    ensures
        found == if collides(seed_at(*config, pos), circles@, *window) {
            None
        } else {
            Some(seed_at(*config, pos))
        },
{
    let seed = Circle::new(config.min_radius()).with_weight(config.line_width()).with_xy(pos);
    if circle_has_collision(&seed, circles, window) {
        None
    } else {
        Some(seed)
    }
}

/// Looks for a place for one more circle. Up to `create_circle_attempts`
/// centres are drawn at random within the window, `x` from `left` up to but
/// not including `right` and `y` likewise from `bottom` to `top`, and the
/// first one at which a seed is clear is taken.
///
/// Which centres come is up to the generator. Whatever they are, the result
/// is what the search gives on them: the seed at the first centre where it
/// is clear of every placed circle and of the edges, with no centre tried
/// after it; or `None`, an ordinary outcome, once the seed has collided at
/// as many centres as attempts are allowed. In a window without interior, or
/// with no attempts allowed, nothing is drawn and the generator is left as
/// it was. In a window too small for a seed every attempt fails.
pub fn try_position_circle(
    window: &Region,
    circles: &[Circle],
    config: &CirclePackingDescriptor,
    rng: &mut StdRng,
) -> (found: Option<Circle>)
    ensures
        exists|draws: Seq<Point>|
            #[trigger] is_search(draws, circles@, *window, *config) && found == search_result(
                draws,
                circles@,
                *window,
                *config,
            ),
        found matches Some(seed) ==> seed == seed_at(*config, seed.pos) && !collides(
            seed,
            circles@,
            *window,
        ),
        window.is_empty() || config.create_circle_attempts() == 0 ==> found is None && *final(rng)
            == *old(rng),
        !window.has_room_for(config.min_radius()) ==> found is None,
{
    let ghost mut draws: Seq<Point> = Seq::empty();
    if window.is_empty() {
        assert(is_search(draws, circles@, *window, *config));
        return None;
    }
    let attempts: usize = config.create_circle_attempts();
    let mut attempt: usize = 0;
    while attempt < attempts
        invariant
            attempt <= attempts,
            attempts == config.create_circle_attempts(),
            !window.is_empty(),
            attempts == 0 ==> *rng == *old(rng),
            draws.len() == attempt,
            drawn_within(draws, *window),
            forall|i: int|
                0 <= i < draws.len() ==> collides(
                    seed_at(*config, #[trigger] draws[i]),
                    circles@,
                    *window,
                ),
        decreases attempts - attempt,
    {
        let x: i32 = random_range(rng, window.left, window.right);
        let y: i32 = random_range(rng, window.bottom, window.top);
        let found = try_seed_at(Point { x, y }, window, circles, config);
        proof {
            draws = draws.push(Point { x, y });
        }
        if found.is_some() {
            assert(is_search(draws, circles@, *window, *config));
            return found;
        }
        attempt += 1;
    }
    assert(is_search(draws, circles@, *window, *config));
    None
}

/// Places one more circle: finds a seed as [`try_position_circle`] does and
/// grows it as [`grow`] does. `None` means that no seed was found.
///
/// Which centres the search tries is up to the generator. Whatever they
/// are, the result is the seed that the search gives on them, grown, or
/// `None` where the search gives none. A circle that comes back has the
/// settings' stroke weight, a radius from `min_radius` up to but not
/// including `max_radius`, is clear of every placed circle and of the edges,
/// and cannot be grown further.
pub fn try_create_circle(
    window: &Region,
    circles: &[Circle],
    config: &CirclePackingDescriptor,
    rng: &mut StdRng,
) -> (made: Option<Circle>)
    ensures
        exists|draws: Seq<Point>|
            #[trigger] is_search(draws, circles@, *window, *config) && made == round_result(
                draws,
                circles@,
                *window,
                *config,
            ),
        made matches Some(c) ==> placed_and_grown(c, circles@, *window, *config) && !collides(
            c,
            circles@,
            *window,
        ) && config.min_radius() <= c.radius < config.max_radius(),
        window.is_empty() || config.create_circle_attempts() == 0 ==> made is None && *final(rng)
            == *old(rng),
        !window.has_room_for(config.min_radius()) ==> made is None,
{
    let found = try_position_circle(window, circles, config, rng);
    let ghost draws = choose|draws: Seq<Point>|
        #[trigger] is_search(draws, circles@, *window, *config) && found == search_result(
            draws,
            circles@,
            *window,
            *config,
        );
    let made = match found {
        Some(seed) => Some(grow(&seed, window, circles, config)),
        None => None,
    };
    assert(is_search(draws, circles@, *window, *config) && made == round_result(
        draws,
        circles@,
        *window,
        *config,
    ));
    made
}

} // verus!
