// The per-frame update: gravity, sleep countdown and wake on impact.

use balls::ball::{Ball, Rgba, FREEZING_THRESHOLD, WAKE_BUDGET};
use balls::vec2::Vec2;

fn white() -> Rgba {
    Rgba { r: 255, g: 255, b: 255, a: 255 }
}

#[test]
fn resting_body_falls_asleep_after_its_budget_runs_out() {
    // zero velocity, gravity off, alone on the floor: each frame costs one
    // tick of wake budget, and position never changes.
    let mut b = Ball::new(0, Vec2::new(320_000, 20_000), 20_000, white());
    let mut others: Vec<Ball> = Vec::new();
    let start = b.center;
    assert_eq!(b.freezing, WAKE_BUDGET);
    for k in 0..(WAKE_BUDGET as usize) {
        b.update(16, Vec2::new(0, 0), &mut others);
        assert_eq!(b.center, start);
        assert_eq!(b.freezing, WAKE_BUDGET - 1 - k as i64);
        assert!(b.freezing >= 0);
    }
    // one more slow frame tips the budget negative: asleep
    b.update(16, Vec2::new(0, 0), &mut others);
    assert_eq!(b.freezing, -1);
    // asleep: even with gravity back on, nothing moves
    b.update(16, Vec2::new(0, -980_000), &mut others);
    assert_eq!(b.center, start);
    assert_eq!(b.velocity, Vec2::new(0, 0));
    assert_eq!(b.freezing, -1);
}

#[test]
fn falling_body_bounces_off_the_floor() {
    let mut b = Ball::new(0, Vec2::new(320_000, 240_000), 20_000, white());
    let mut others: Vec<Ball> = Vec::new();
    // one full second of gravity: velocity -980, far below the floor,
    // so containment clamps to the floor and reflects the velocity.
    b.update(1_000, Vec2::new(0, -980_000), &mut others);
    assert_eq!(b.center.y, 20_000);
    assert_eq!(b.velocity, Vec2::new(0, 980_000));
    assert_eq!(b.freezing, WAKE_BUDGET);
}

#[test]
fn sleeping_body_wakes_when_struck() {
    let mut striker = Ball::new(0, Vec2::new(100_000, 50_000), 20_000, white());
    striker.velocity = Vec2::new(80_000, 0);
    let mut sleeper = Ball::new(1, Vec2::new(130_000, 50_000), 20_000, white());
    sleeper.freezing = -1;

    let v = striker.collides(&sleeper).expect("the pair overlaps");
    striker.apply_collision(v, &mut sleeper);
    let speed_sq =
        sleeper.velocity.x as i128 * sleeper.velocity.x as i128
        + sleeper.velocity.y as i128 * sleeper.velocity.y as i128;
    assert!(speed_sq > (FREEZING_THRESHOLD as i128) * (FREEZING_THRESHOLD as i128));
    assert_eq!(sleeper.freezing, WAKE_BUDGET);
}

#[test]
fn update_resolves_against_every_other_body() {
    let mut a = Ball::new(0, Vec2::new(100_000, 50_000), 20_000, white());
    a.velocity = Vec2::new(10_000, 0);
    let b = Ball::new(1, Vec2::new(130_000, 50_000), 20_000, white());
    let mut others = vec![a, b];
    let mut mover = a;
    mover.update(0, Vec2::new(0, 0), &mut others);
    // the stale copy of the mover (same id) is skipped, the other body
    // is pushed away and picks up speed from the elastic exchange
    assert_eq!(others[0], a);
    assert!(others[1].center.x > 130_000);
    assert!(others[1].velocity.x > 0);
    // equal masses in a head-on exchange: the mover hands its speed over
    assert_eq!(mover.velocity.x, 0);
}
