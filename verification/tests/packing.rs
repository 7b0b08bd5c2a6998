use generative_artistry::circle_packing::{
    circle_has_collision, grow, pack, try_create_circle, try_position_circle, try_seed_at,
    CirclePackingDescriptor, ConfigError, Region,
};
use generative_artistry::shapes::circle::{Circle, Point};
use rand::rngs::StdRng;
use rand::{Rng, SeedableRng};

fn square(side: i32) -> Region {
    Region { left: 0, right: side, bottom: 0, top: side }
}

fn settings(min: u32, max: u32, total: usize, attempts: usize) -> CirclePackingDescriptor {
    CirclePackingDescriptor::new(2000, min, max, total, attempts).unwrap()
}

fn at(x: i32, y: i32, radius: u32) -> Circle {
    Circle::new(radius).with_x_y(x, y)
}

fn touching(a: &Circle, b: &Circle) -> bool {
    let dx = a.pos.x as i128 - b.pos.x as i128;
    let dy = a.pos.y as i128 - b.pos.y as i128;
    let reach = a.radius as i128 + b.radius as i128;
    dx * dx + dy * dy <= reach * reach
}

fn inside(c: &Circle, region: &Region) -> bool {
    let (x, y, r) = (c.pos.x as i64, c.pos.y as i64, c.radius as i64);
    x + r < region.right as i64
        && x - r > region.left as i64
        && y + r < region.top as i64
        && y - r > region.bottom as i64
}

#[test]
fn descriptor_keeps_what_it_was_given() {
    let d = CirclePackingDescriptor::new(2000, 2, 250, 1000, 500).unwrap();
    assert_eq!(d.line_width(), 2000);
    assert_eq!(d.min_radius(), 2);
    assert_eq!(d.max_radius(), 250);
    assert_eq!(d.total_circles(), 1000);
    assert_eq!(d.create_circle_attempts(), 500);
}

#[test]
fn descriptor_turns_down_an_empty_radius_range() {
    assert_eq!(CirclePackingDescriptor::new(2000, 5, 5, 10, 10), Err(ConfigError::EmptyRadiusRange));
    assert_eq!(CirclePackingDescriptor::new(2000, 6, 5, 10, 10), Err(ConfigError::EmptyRadiusRange));
    assert_eq!(CirclePackingDescriptor::new(0, 0, 0, 0, 0), Err(ConfigError::EmptyRadiusRange));
    assert!(CirclePackingDescriptor::new(2000, 5, 6, 10, 10).is_ok());
    assert!(CirclePackingDescriptor::new(0, 0, 1, 0, 0).is_ok());
}

#[test]
fn tangent_circles_collide() {
    let window = square(1000);
    let placed = vec![at(510, 500, 5), at(503, 504, 3)];
    // Both placed circles meet the candidates below in exactly one point.
    assert!(circle_has_collision(&at(500, 500, 5), &placed[..1], &window));
    assert!(circle_has_collision(&at(500, 500, 2), &placed[1..], &window));
    assert!(circle_has_collision(&at(500, 500, 2), &placed, &window));
    // One unit less of radius leaves a gap.
    assert!(!circle_has_collision(&at(500, 500, 4), &placed[..1], &window));
    assert!(!circle_has_collision(&at(500, 500, 1), &placed, &window));
}

#[test]
fn overlapping_and_distant_circles() {
    let window = square(1000);
    let placed = vec![at(100, 100, 10), at(300, 300, 20)];
    assert!(circle_has_collision(&at(105, 100, 1), &placed, &window));
    assert!(circle_has_collision(&at(300, 330, 11), &placed, &window));
    assert!(!circle_has_collision(&at(200, 200, 50), &placed, &window));
    assert!(!circle_has_collision(&at(200, 200, 50), &[], &window));
}

#[test]
fn touching_an_edge_collides() {
    let window = Region { left: -50, right: 50, bottom: -20, top: 20 };
    assert!(!circle_has_collision(&at(0, 0, 19), &[], &window));
    assert!(circle_has_collision(&at(0, 0, 20), &[], &window));
    assert!(circle_has_collision(&at(0, 1, 19), &[], &window));
    assert!(circle_has_collision(&at(0, -1, 19), &[], &window));
    assert!(circle_has_collision(&at(40, 0, 10), &[], &window));
    assert!(!circle_has_collision(&at(39, 0, 10), &[], &window));
    assert!(circle_has_collision(&at(-40, 0, 10), &[], &window));
    assert!(!circle_has_collision(&at(-39, 0, 10), &[], &window));
    assert!(circle_has_collision(&at(60, 0, 0), &[], &window));
    assert!(circle_has_collision(&at(50, 0, 0), &[], &window));
    assert!(!circle_has_collision(&at(49, 0, 0), &[], &window));
}

#[test]
fn collision_test_survives_the_largest_values() {
    let window = Region { left: i32::MIN, right: i32::MAX, bottom: i32::MIN, top: i32::MAX };
    let far = vec![at(i32::MAX, i32::MAX, 1)];
    assert!(!circle_has_collision(&at(i32::MIN + 2, i32::MIN + 2, 1), &far, &window));
    assert!(circle_has_collision(&at(i32::MIN, i32::MIN, u32::MAX), &far, &window));
    // Along one axis the widest reach spans the whole grid; along the
    // diagonal it does not.
    let huge = vec![at(i32::MAX, 0, u32::MAX)];
    assert!(circle_has_collision(&at(i32::MIN + 2, 0, 1), &huge, &window));
    let corner = vec![at(i32::MAX, i32::MAX, u32::MAX)];
    assert!(!circle_has_collision(&at(i32::MIN + 2, i32::MIN + 2, 1), &corner, &window));
}

#[test]
fn seed_is_taken_exactly_where_it_is_clear() {
    let window = square(100);
    let config = settings(5, 50, 1, 50);
    let placed = vec![at(50, 50, 10)];
    let seed = try_seed_at(Point { x: 20, y: 20 }, &window, &placed, &config);
    assert_eq!(seed, Some(Circle::new(5).with_weight(2000).with_x_y(20, 20)));
    assert_eq!(try_seed_at(Point { x: 50, y: 65 }, &window, &placed, &config), None);
    assert!(try_seed_at(Point { x: 50, y: 66 }, &window, &placed, &config).is_some());
    assert_eq!(try_seed_at(Point { x: 5, y: 50 }, &window, &[], &config), None);
    assert!(try_seed_at(Point { x: 6, y: 50 }, &window, &[], &config).is_some());
}

#[test]
fn growth_in_an_empty_window_stops_below_max_radius() {
    let window = square(100);
    let config = settings(5, 50, 1, 50);
    let seed = try_seed_at(Point { x: 50, y: 50 }, &window, &[], &config).unwrap();
    let grown = grow(&seed, &window, &[], &config);
    assert_eq!(grown, seed.with_radius(49));
}

#[test]
fn growth_stops_one_short_of_an_edge() {
    let window = square(100);
    let config = settings(5, 50, 1, 50);
    let seed = try_seed_at(Point { x: 30, y: 60 }, &window, &[], &config).unwrap();
    // Radius 30 would reach the left edge, so 29 is the last that is clear.
    assert_eq!(grow(&seed, &window, &[], &config), seed.with_radius(29));
}

#[test]
fn growth_stops_one_short_of_a_neighbour() {
    let window = square(1000);
    let config = settings(5, 200, 1, 50);
    let placed = vec![at(500, 500, 40)];
    let seed = try_seed_at(Point { x: 600, y: 500 }, &window, &placed, &config).unwrap();
    // The centres are 100 apart: radius 60 would touch, 59 leaves a gap.
    let grown = grow(&seed, &window, &placed, &config);
    assert_eq!(grown.radius, 59);
    assert_eq!(grown.pos, Point { x: 600, y: 500 });
    assert_eq!(grown.weight, 2000);
}

#[test]
fn growth_never_falls_below_min_radius() {
    let window = square(100);
    let config = settings(5, 50, 1, 50);
    // This seed already touches the left edge at the smallest radius.
    let seed = at(5, 50, 5);
    assert!(circle_has_collision(&seed, &[], &window));
    assert_eq!(grow(&seed, &window, &[], &config), seed);
    // The radius that the seed came with does not matter.
    assert_eq!(grow(&at(5, 50, 40), &window, &[], &config), seed);
    assert_eq!(grow(&at(50, 50, 1), &window, &[], &config), at(50, 50, 49));
}

#[test]
fn growth_with_a_single_radius_to_choose_from() {
    let window = square(100);
    let config = settings(5, 6, 1, 50);
    assert_eq!(grow(&at(50, 50, 5), &window, &[], &config).radius, 5);
}

#[test]
fn no_rounds_give_no_circles_and_draw_nothing() {
    let window = square(100);
    let config = settings(5, 50, 0, 50);
    let mut rng = StdRng::seed_from_u64(11);
    let untouched = rng.clone();
    assert_eq!(pack(&window, &config, &mut rng), vec![]);
    assert_eq!(rng, untouched);
}

#[test]
fn no_attempts_give_no_circles_and_draw_nothing() {
    let window = square(100);
    let config = settings(5, 50, 20, 0);
    let mut rng = StdRng::seed_from_u64(11);
    let untouched = rng.clone();
    assert_eq!(try_position_circle(&window, &[], &config, &mut rng), None);
    assert_eq!(try_create_circle(&window, &[], &config, &mut rng), None);
    assert_eq!(pack(&window, &config, &mut rng), vec![]);
    assert_eq!(rng, untouched);
}

#[test]
fn a_window_without_interior_gives_no_circles_and_draws_nothing() {
    let config = settings(1, 50, 20, 50);
    let mut rng = StdRng::seed_from_u64(11);
    let untouched = rng.clone();
    for window in [
        Region { left: 10, right: 10, bottom: 0, top: 100 },
        Region { left: 0, right: 100, bottom: 7, top: 7 },
        Region { left: 100, right: 0, bottom: 0, top: 100 },
        Region { left: 0, right: 100, bottom: 100, top: 0 },
    ] {
        assert_eq!(try_position_circle(&window, &[], &config, &mut rng), None);
        assert_eq!(try_create_circle(&window, &[], &config, &mut rng), None);
        assert_eq!(pack(&window, &config, &mut rng), vec![]);
    }
    assert_eq!(rng, untouched);
}

#[test]
fn a_window_too_small_for_a_seed_stays_empty() {
    let config = settings(5, 50, 20, 50);
    let mut rng = StdRng::seed_from_u64(3);
    // A circle of radius 5 needs a window more than 10 wide and high.
    assert_eq!(pack(&square(10), &config, &mut rng), vec![]);
    let flat = Region { left: 0, right: 500, bottom: 0, top: 10 };
    assert_eq!(pack(&flat, &config, &mut rng), vec![]);
    assert_eq!(pack(&square(11), &config, &mut rng).len() <= 1, true);
}

#[test]
fn a_single_cell_holds_exactly_one_circle() {
    // In an 11 by 11 window only the centre cell is clear for radius 5.
    let config = settings(5, 50, 20, 2000);
    let mut rng = StdRng::seed_from_u64(3);
    let circles = pack(&square(12), &config, &mut rng);
    assert_eq!(circles.len(), 1);
    assert_eq!(circles[0].radius, 5);
    assert!(circles[0].pos.x == 6 && circles[0].pos.y == 6);
}

#[test]
fn first_draw_at_the_centre_grows_to_the_last_radius_below_max() {
    let window = square(100);
    let config = settings(5, 50, 1, 50);
    // Look for a seed of the generator whose first centre is (50, 50).
    let mut seed: u64 = 0;
    loop {
        let mut probe = StdRng::seed_from_u64(seed);
        let x: i32 = probe.gen_range(0..100);
        let y: i32 = probe.gen_range(0..100);
        if x == 50 && y == 50 {
            break;
        }
        seed += 1;
        assert!(seed < 10_000_000);
    }
    let mut rng = StdRng::seed_from_u64(seed);
    let circles = pack(&window, &config, &mut rng);
    assert_eq!(circles, vec![Circle::new(49).with_weight(2000).with_x_y(50, 50)]);
}

#[test]
fn packing_keeps_its_promises() {
    let window = Region { left: -300, right: 300, bottom: -200, top: 200 };
    let config = settings(2, 250, 400, 200);
    for seed in 0..4u64 {
        let mut rng = StdRng::seed_from_u64(seed);
        let circles = pack(&window, &config, &mut rng);
        assert!(circles.len() <= 400);
        assert!(circles.len() > 10);
        for (i, c) in circles.iter().enumerate() {
            assert!(inside(c, &window));
            assert!(2 <= c.radius && c.radius < 250);
            assert_eq!(c.weight, 2000);
            for earlier in &circles[..i] {
                assert!(!touching(c, earlier));
            }
            // Grown as far as it goes against the circles placed before it.
            let seed_circle = try_seed_at(c.pos, &window, &circles[..i], &config).unwrap();
            assert_eq!(grow(&seed_circle, &window, &circles[..i], &config), *c);
            if c.radius + 1 < 250 {
                assert!(circle_has_collision(&c.with_radius(c.radius + 1), &circles[..i], &window));
            }
        }
    }
}

#[test]
fn packing_repeats_for_a_seed() {
    let window = square(400);
    let config = settings(2, 100, 300, 100);
    let first = pack(&window, &config, &mut StdRng::seed_from_u64(2024));
    let second = pack(&window, &config, &mut StdRng::seed_from_u64(2024));
    assert_eq!(first, second);
    assert!(!first.is_empty());
    let other = pack(&window, &config, &mut StdRng::seed_from_u64(2025));
    assert_ne!(first, other);
}

#[test]
fn a_crowded_window_falls_short_of_the_target() {
    let window = square(60);
    let config = settings(10, 11, 50, 300);
    let mut rng = StdRng::seed_from_u64(5);
    let circles = pack(&window, &config, &mut rng);
    // A circle of radius 10 keeps a square of 15 by 15 cells to itself, and
    // the window has 59 by 59 cells inside: room for 15 at most, never for 50.
    assert!(!circles.is_empty());
    assert!(circles.len() < 50);
    assert!(circles.len() * 225 <= 3481);
    for c in &circles {
        assert_eq!(c.radius, 10);
    }
}

#[test]
fn placement_search_returns_a_clear_seed() {
    let window = square(200);
    let config = settings(5, 50, 1, 500);
    let placed = vec![at(100, 100, 80)];
    let mut rng = StdRng::seed_from_u64(9);
    let seed = try_position_circle(&window, &placed, &config, &mut rng).unwrap();
    assert_eq!(seed.radius, 5);
    assert_eq!(seed.weight, 2000);
    assert!(!circle_has_collision(&seed, &placed, &window));
    let made = try_create_circle(&window, &placed, &config, &mut rng).unwrap();
    assert!(!circle_has_collision(&made, &placed, &window));
    assert!(made.radius >= 5 && made.radius < 50);
}

#[test]
fn centres_spread_over_the_window() {
    // A generator that handed back the lower bound would never leave the
    // bottom left corner, where every seed touches the edges.
    let window = square(1000);
    let config = settings(1, 2, 200, 50);
    let mut rng = StdRng::seed_from_u64(1);
    let circles = pack(&window, &config, &mut rng);
    assert!(circles.len() > 150);
    let xs: Vec<i32> = circles.iter().map(|c| c.pos.x).collect();
    let ys: Vec<i32> = circles.iter().map(|c| c.pos.y).collect();
    assert!(xs.iter().min().unwrap() < &300 && xs.iter().max().unwrap() > &700);
    assert!(ys.iter().min().unwrap() < &300 && ys.iter().max().unwrap() > &700);
    for c in &circles {
        assert!(0 < c.pos.x && c.pos.x < 1000 && 0 < c.pos.y && c.pos.y < 1000);
    }
}

#[test]
fn default_descriptor_is_the_classic_sketch() {
    let d = CirclePackingDescriptor::default();
    assert_eq!(d, CirclePackingDescriptor::new(2000, 2, 250, 1000, 500).unwrap());
}

#[test]
fn a_packing_is_fixed_by_its_centres() {
    let window = square(300);
    let config = settings(3, 80, 120, 100);
    let circles = pack(&window, &config, &mut StdRng::seed_from_u64(77));
    assert!(circles.len() > 5);
    // Placing seeds at the same centres and growing them gives the same circles.
    let mut replayed: Vec<Circle> = Vec::new();
    for c in &circles {
        let seed = try_seed_at(c.pos, &window, &replayed, &config).unwrap();
        replayed.push(grow(&seed, &window, &replayed, &config));
    }
    assert_eq!(replayed, circles);
}

#[test]
fn a_failed_search_uses_up_its_attempts() {
    // No seed of radius 5 fits a 10 by 10 window, so each of the three
    // attempts draws a centre and fails.
    let window = square(10);
    let config = settings(5, 50, 4, 3);
    let mut rng = StdRng::seed_from_u64(21);
    let mut expected = rng.clone();
    assert_eq!(try_position_circle(&window, &[], &config, &mut rng), None);
    for _ in 0..3 {
        let _: i32 = expected.gen_range(0..10);
        let _: i32 = expected.gen_range(0..10);
    }
    assert_eq!(rng, expected);
    // A run of four rounds makes four such searches.
    assert_eq!(pack(&window, &config, &mut rng), vec![]);
    for _ in 0..12 {
        let _: i32 = expected.gen_range(0..10);
        let _: i32 = expected.gen_range(0..10);
    }
    assert_eq!(rng, expected);
}

#[test]
fn a_search_stops_at_the_first_clear_centre() {
    let window = square(40);
    let config = settings(5, 50, 1, 500);
    let placed = vec![at(20, 20, 8)];
    for seed in 0..20u64 {
        let mut rng = StdRng::seed_from_u64(seed);
        let mut replay = rng.clone();
        let found = try_position_circle(&window, &placed, &config, &mut rng);
        // Draw the same centres again and stop at the first clear one.
        let mut expected = None;
        for _ in 0..500 {
            let x: i32 = replay.gen_range(0..40);
            let y: i32 = replay.gen_range(0..40);
            expected = try_seed_at(Point { x, y }, &window, &placed, &config);
            if expected.is_some() {
                break;
            }
        }
        assert_eq!(found, expected);
        assert_eq!(rng, replay);
    }
}
