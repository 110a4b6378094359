// Collision detection, resolution, containment and sleep behaviour.
// Units: thousandths of a pixel; velocities per second; time in ms.

use balls::ball::{detect_circles, Ball, Rgba, WAKE_BUDGET};
use balls::vec2::Vec2;

fn gray() -> Rgba {
    Rgba { r: 128, g: 128, b: 128, a: 255 }
}

fn ball_at(id: usize, x: i64, y: i64, radius: i64) -> Ball {
    Ball::new(id, Vec2::new(x, y), radius, gray())
}

#[test]
fn new_ball_is_at_rest_with_full_budget() {
    let b = ball_at(3, 10_000, 20_000, 25_000);
    assert_eq!(b.id, 3);
    assert_eq!(b.mass, 25_000);
    assert_eq!(b.velocity, Vec2::new(0, 0));
    assert_eq!(b.freezing, WAKE_BUDGET);
}

#[test]
fn distant_circles_do_not_collide() {
    let a = ball_at(0, 0, 0, 20_000);
    let b = ball_at(1, 100_000, 0, 20_000);
    assert!(a.collides(&b).is_none());
}

#[test]
fn touching_circles_collide_with_zero_depth() {
    let a = ball_at(0, 0, 0, 20_000);
    let b = ball_at(1, 40_000, 0, 20_000);
    assert_eq!(a.collides(&b), Some(Vec2::new(0, 0)));
}

#[test]
fn concentric_circles_use_the_fallback_direction() {
    let a = ball_at(0, 5_000, 5_000, 20_000);
    let b = ball_at(1, 5_000, 5_000, 30_000);
    assert_eq!(a.collides(&b), Some(Vec2::new(50_000, 0)));
}

#[test]
fn head_on_elastic_collision_exact_velocities() {
    // radius 20, masses 20 and 40, at distance 39 on the x-axis,
    // approaching at 100 and -50: the elastic formula gives -100 and 50,
    // and the corrected distance is exactly 40.
    let mut a = ball_at(0, 0, 0, 20_000);
    let mut b = ball_at(1, 39_000, 0, 20_000);
    a.mass = 20_000;
    b.mass = 40_000;
    a.velocity = Vec2::new(100_000, 0);
    b.velocity = Vec2::new(-50_000, 0);

    let v = a.collides(&b).expect("bodies at distance 39 with radii 20+20 overlap");
    assert_eq!(v, Vec2::new(-1_000, 0));

    a.apply_collision(v, &mut b);
    assert_eq!(a.velocity, Vec2::new(-100_000, 0));
    assert_eq!(b.velocity, Vec2::new(50_000, 0));
    assert_eq!(b.center.x - a.center.x, 40_000);

    // momentum along the normal is unchanged
    let before = 20_000i128 * 100_000 + 40_000i128 * -50_000;
    let after = 20_000i128 * a.velocity.x as i128 + 40_000i128 * b.velocity.x as i128;
    assert_eq!(before, after);
}

#[test]
fn tangential_contact_keeps_both_velocities() {
    let mut a = ball_at(0, 0, 0, 20_000);
    let mut b = ball_at(1, 30_000, 0, 20_000);
    a.velocity = Vec2::new(0, 5_000);
    b.velocity = Vec2::new(0, 5_000);
    let v = a.collides(&b).expect("overlapping bodies collide");
    a.apply_collision(v, &mut b);
    assert_eq!(a.velocity, Vec2::new(0, 5_000));
    assert_eq!(b.velocity, Vec2::new(0, 5_000));
}

#[test]
fn resolved_pair_is_separated() {
    let mut a = ball_at(0, 100_000, 50_000, 20_000);
    let mut b = ball_at(1, 130_000, 50_000, 15_000);
    let v = a.collides(&b).expect("distance 30 with radii 20+15 overlaps");
    a.apply_collision(v, &mut b);
    let dist = (b.center.x - a.center.x).abs();
    assert!(dist >= 20_000 + 15_000 - 1);
}

#[test]
fn containment_clamps_and_reflects() {
    let mut b = ball_at(0, 650_000, 240_000, 20_000);
    b.velocity = Vec2::new(3_000, 7_000);
    b.resolve_bounding(0, 0, 640_000, 480_000);
    assert_eq!(b.center, Vec2::new(620_000, 240_000));
    assert_eq!(b.velocity, Vec2::new(-3_000, 7_000));
}

#[test]
fn containment_is_idempotent() {
    let mut b = ball_at(0, -5_000, 500_000, 20_000);
    b.velocity = Vec2::new(-2_000, 9_000);
    b.resolve_bounding(0, 0, 640_000, 480_000);
    let once = b;
    b.resolve_bounding(0, 0, 640_000, 480_000);
    assert_eq!(b, once);
}

#[test]
fn detect_circles_matches_body_detection() {
    let a = ball_at(0, 1_000, 2_000, 20_000);
    let b = ball_at(1, 31_000, 2_000, 15_000);
    assert_eq!(
        a.collides(&b),
        detect_circles(Vec2::new(1_000, 2_000), 20_000, Vec2::new(31_000, 2_000), 15_000),
    );
}
