use generative_artistry::shapes::circle::{Circle, Point, Rgba, WEIGHT_UNIT};

#[test]
fn new_circle_sits_at_the_origin_in_black() {
    let c = Circle::new(7);
    assert_eq!(c.pos, Point { x: 0, y: 0 });
    assert_eq!(c.radius, 7);
    assert_eq!(c.weight, WEIGHT_UNIT);
    assert_eq!(c.weight, 1000);
    assert_eq!(c.color, Rgba { red: 0, green: 0, blue: 0, alpha: 255 });
}

#[test]
fn with_radius_replaces_only_the_radius() {
    let c = Circle::new(7).with_x_y(3, -4).with_weight(2500);
    let d = c.with_radius(9);
    assert_eq!(d, Circle { pos: Point { x: 3, y: -4 }, radius: 9, weight: 2500, color: c.color });
    assert_eq!(c.radius, 7);
}

#[test]
fn with_xy_and_with_x_y_agree() {
    let c = Circle::new(2);
    assert_eq!(c.with_xy(Point { x: -8, y: 15 }), c.with_x_y(-8, 15));
    assert_eq!(c.with_x_y(-8, 15).pos, Point { x: -8, y: 15 });
    assert_eq!(c.pos, Point { x: 0, y: 0 });
}

#[test]
fn with_color_replaces_only_the_colour() {
    let red = Rgba { red: 255, green: 0, blue: 0, alpha: 128 };
    let c = Circle::new(2).with_x_y(1, 1);
    let d = c.with_color(red);
    assert_eq!(d.color, red);
    assert_eq!(d.with_color(c.color), c);
}

#[test]
fn with_weight_replaces_only_the_weight() {
    let c = Circle::new(2).with_x_y(1, 1);
    let d = c.with_weight(1);
    assert_eq!(d.weight, 1);
    assert_eq!(d.with_weight(1000), c);
}

#[test]
fn builders_reach_the_extremes() {
    let c = Circle::new(u32::MAX).with_x_y(i32::MIN, i32::MAX).with_weight(u32::MAX);
    assert_eq!(c.radius, u32::MAX);
    assert_eq!(c.pos, Point { x: i32::MIN, y: i32::MAX });
    assert_eq!(c.weight, u32::MAX);
}
