//! The packing run: one circle after another is placed and grown, for as
//! many rounds as the settings ask for.

use crate::circle_packing::capacity::{footprint, lemma_capacity};
use crate::circle_packing::collision::{collides, lemma_touch_symmetric, leaves, touch};
use crate::circle_packing::config::CirclePackingDescriptor;
use crate::circle_packing::growth::{lemma_grown_is_clear, lemma_grown_radius_in_range};
use crate::circle_packing::placement::{
    is_search, placed_and_grown, round_result, seed_at, try_create_circle,
};
use crate::circle_packing::region::Region;
use crate::shapes::circle::{Circle, Point};
use rand::rngs::StdRng;
use vstd::prelude::*;

verus! {

/// No two of the circles touch: between any two there is a gap.
pub open spec fn no_two_touch(circles: Seq<Circle>) -> bool {
    forall|i: int, j: int|
        0 <= i < j < circles.len() ==> !touch(#[trigger] circles[i], #[trigger] circles[j])
}

/// Every circle lies inside the region and reaches none of its edges.
pub open spec fn all_inside(circles: Seq<Circle>, region: Region) -> bool {
    forall|i: int| 0 <= i < circles.len() ==> !leaves(#[trigger] circles[i], region)
}

/// Every radius is at least `min_radius` and below `max_radius`.
pub open spec fn radii_in_range(circles: Seq<Circle>, config: CirclePackingDescriptor) -> bool {
    forall|i: int|
        0 <= i < circles.len() ==> config.min_radius() <= (#[trigger] circles[i]).radius
            < config.max_radius()
}

/// Every circle was placed as a seed clear of the circles before it, and then
/// grown against them as far as it would go.
pub open spec fn each_placed_and_grown(
    circles: Seq<Circle>,
    region: Region,
    config: CirclePackingDescriptor,
) -> bool {
    forall|i: int|
        0 <= i < circles.len() ==> placed_and_grown(
            #[trigger] circles[i],
            circles.take(i),
            region,
            config,
        )
}

/// The circles that a run holds after the rounds whose searches tried the
/// centres in `log`, one list of centres for each round, in order. A round
/// adds the circle that it made to those of the rounds before it, or adds
/// nothing when its search found no seed.
pub open spec fn packing_after(
    log: Seq<Seq<Point>>,
    window: Region,
    config: CirclePackingDescriptor,
) -> Seq<Circle>
    decreases log.len(),
{
    if log.len() == 0 {
        Seq::empty()
    } else {
        let before = packing_after(log.drop_last(), window, config);
        match round_result(log.last(), before, window, config) {
            Some(circle) => before.push(circle),
            None => before,
        }
    }
}

/// Each list in `log` holds the centres that a search may have tried against
/// the circles of the rounds before it.
pub open spec fn is_run(
    log: Seq<Seq<Point>>,
    window: Region,
    config: CirclePackingDescriptor,
) -> bool {
    forall|k: int|
        0 <= k < log.len() ==> is_search(
            #[trigger] log[k],
            packing_after(log.take(k), window, config),
            window,
            config,
        )
}

/// Circles that were each placed clear of the ones before and then grown
/// keep clear of each other and of the region's edges, and their radii stay
/// within the settings' range.
pub proof fn lemma_grown_packing_is_clear(
    circles: Seq<Circle>,
    region: Region,
    config: CirclePackingDescriptor,
)
    requires
        config.wf(),
        each_placed_and_grown(circles, region, config),
    ensures
        no_two_touch(circles),
        all_inside(circles, region),
        radii_in_range(circles, config),
{
    assert forall|j: int| 0 <= j < circles.len() implies !collides(
        #[trigger] circles[j],
        circles.take(j),
        region,
    ) && config.min_radius() <= circles[j].radius < config.max_radius() by {
        let seed = seed_at(config, circles[j].pos);
        assert(placed_and_grown(circles[j], circles.take(j), region, config));
        assert(seed.with_radius(config.min_radius()) == seed);
        lemma_grown_is_clear(seed, circles.take(j), region, config);
        lemma_grown_radius_in_range(seed, circles.take(j), region, config);
    }
    assert forall|i: int, j: int| 0 <= i < j < circles.len() implies !touch(
        #[trigger] circles[i],
        #[trigger] circles[j],
    ) by {
        assert(!collides(circles[j], circles.take(j), region));
        assert(circles.take(j)[i] == circles[i]);
        lemma_touch_symmetric(circles[i], circles[j]);
    }
}

/// Packs circles into the window. The run has `total_circles` rounds; each
/// round looks for a seed with at most `create_circle_attempts` random
/// centres, grows the seed it finds and adds the circle to the result, or
/// adds nothing when no seed was found. A round without a seed is not made
/// up for, so the result may hold fewer circles than rounds.
///
/// Which centres the searches try is up to the generator. Whatever they
/// are, the run has exactly `total_circles` rounds, each with a search of
/// its own against the circles of the rounds before it, and the result holds
/// the circles that those rounds made, in order. The circles keep clear of
/// each other and of the window's edges, have radii from `min_radius` up to
/// but not including `max_radius`, and each is grown as far as the circles
/// before it allow. There are never more of them than rounds, nor more than
/// the window has room for: where the rounds ask for more footprints than
/// the window has interior cells, the result falls short of the rounds.
/// With no rounds, no attempts or a window without interior the result is
/// empty and the generator is left as it was; in a window too small for a
/// seed the result is empty.
pub fn pack(window: &Region, config: &CirclePackingDescriptor, rng: &mut StdRng) -> (circles: Vec<
    Circle,
>)
    ensures
        exists|log: Seq<Seq<Point>>|
            log.len() == config.total_circles() && #[trigger] is_run(log, *window, *config)
                && circles@ == packing_after(log, *window, *config),
        no_two_touch(circles@),
        all_inside(circles@, *window),
        radii_in_range(circles@, *config),
        each_placed_and_grown(circles@, *window, *config),
        circles@.len() <= config.total_circles(),
        circles@.len() * footprint(config.min_radius()) <= window.interior_cells(),
        config.total_circles() * footprint(config.min_radius()) > window.interior_cells()
            ==> circles@.len() < config.total_circles(),
        config.total_circles() == 0 || config.create_circle_attempts() == 0 || window.is_empty()
            ==> circles@.len() == 0 && *final(rng) == *old(rng),
        !window.has_room_for(config.min_radius()) ==> circles@.len() == 0,
{
    let rounds: usize = config.total_circles();
    let mut circles: Vec<Circle> = Vec::new();
    let mut round: usize = 0;
    let ghost mut log: Seq<Seq<Point>> = Seq::empty();
    while round < rounds
        invariant
            round <= rounds,
            log.len() == round,
            is_run(log, *window, *config),
            circles@ == packing_after(log, *window, *config),
            rounds == config.total_circles(),
            circles@.len() <= round,
            each_placed_and_grown(circles@, *window, *config),
            round == 0 || config.create_circle_attempts() == 0 || window.is_empty()
                ==> circles@.len() == 0 && *rng == *old(rng),
            !window.has_room_for(config.min_radius()) ==> circles@.len() == 0,
        decreases rounds - round,
    {
        let ghost before = circles@;
        let ghost earlier = log;
        let made = try_create_circle(window, circles.as_slice(), config, rng);
        proof {
            let draws = choose|draws: Seq<Point>|
                #[trigger] is_search(draws, before, *window, *config) && made == round_result(
                    draws,
                    before,
                    *window,
                    *config,
                );
            log = earlier.push(draws);
            assert(log.drop_last() == earlier);
            assert forall|k: int| 0 <= k < log.len() implies is_search(
                #[trigger] log[k],
                packing_after(log.take(k), *window, *config),
                *window,
                *config,
            ) by {
                if k < earlier.len() {
                    assert(log.take(k) == earlier.take(k));
                    assert(log[k] == earlier[k]);
                } else {
                    assert(log.take(k) == earlier);
                }
            }
        }
        match made {
            Some(circle) => {
                circles.push(circle);
                proof {
                    assert(circles@.take(before.len() as int) == before);
                    assert forall|i: int| 0 <= i < circles@.len() implies placed_and_grown(
                        #[trigger] circles@[i],
                        circles@.take(i),
                        *window,
                        *config,
                    ) by {
                        if i < before.len() {
                            assert(circles@.take(i) == before.take(i));
                            assert(circles@[i] == before[i]);
                        }
                    }
                }
            },
            None => {},
        }
        round += 1;
    }
    proof {
        use_type_invariant(config);
        lemma_grown_packing_is_clear(circles@, *window, *config);
        lemma_capacity(circles@, *window, config.min_radius());
    }
    circles
}

} // verus!
