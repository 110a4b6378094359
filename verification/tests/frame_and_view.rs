// The frame clock and the camera mapping.

use balls::camera::Camera;
use balls::clock::Clock;
use balls::vec2::Vec2;

#[test]
fn uncapped_tick_returns_the_elapsed_time() {
    let mut c = Clock::new(1_000, None);
    assert!(c.ready(1_000));
    assert_eq!(c.tick(1_250), 250);
    assert_eq!(c.tick_uncapped(1_900), 650);
    assert_eq!(c.prev_tick, 1_900);
}

#[test]
fn capped_ticks_always_return_at_least_the_period() {
    // a capped clock, polled with some scheduler jitter: every tick is at
    // least the period, so 100 ticks last at least 100 periods.
    let period: u64 = 8_333;
    let mut c = Clock::new(0, Some(period));
    let mut now: u64 = 0;
    let mut total: u64 = 0;
    for k in 0..100u64 {
        // not yet ready right before the period has elapsed
        assert!(!c.ready(now + period - 1));
        now += period + (k % 3); // jitter of 0..2 microseconds
        assert!(c.ready(now));
        let dt = c.tick(now);
        assert!(dt >= period);
        total += dt;
    }
    assert!(total >= 100 * period);
}

#[test]
fn capped_tick_reports_the_actual_elapsed_time() {
    let mut c = Clock::new(500, Some(1_000));
    // the frame ran long: the real duration comes back, not the cap
    assert_eq!(c.tick_capped(1_000, 2_700), 2_200);
    assert_eq!(c.prev_tick, 2_700);
}

#[test]
fn projection_scales_then_translates() {
    // the original scene camera: offset (0, 480), unit scale, vertical flip
    let cam = Camera::new(Vec2::new(0, 480), 1).invert_v();
    assert_eq!(cam.project(Vec2::new(10, 20)), Vec2::new(10, 460));
    assert_eq!(cam.scale(35), 35);
}

#[test]
fn double_inversion_restores_the_camera() {
    let cam = Camera::new(Vec2::new(7, 9), 3);
    let twice = cam.invert_h().invert_h();
    assert_eq!(twice.scale_v, Vec2::new(3, 3));
    let twice_v = twice.invert_v().invert_v();
    assert_eq!(twice_v.scale_v, Vec2::new(3, 3));
}

#[test]
fn set_scale_resets_axis_inversion() {
    let mut cam = Camera::new(Vec2::new(0, 0), 2).invert_v();
    assert_eq!(cam.scale_v, Vec2::new(2, -2));
    cam.set_scale(5);
    assert_eq!(cam.scale_v, Vec2::new(5, 5));
}

#[test]
fn projection_round_trips_through_its_inverse() {
    let cam = Camera::new(Vec2::new(-3_000, 480_000), 7).invert_v();
    let points = [
        Vec2::new(0, 0),
        Vec2::new(123, -456),
        Vec2::new(-640_000, 480_000),
    ];
    for p in points {
        assert_eq!(cam.unproject(cam.project(p)), p);
    }
}

#[test]
fn set_position_moves_only_the_offset() {
    let mut cam = Camera::new(Vec2::new(1, 2), 4);
    cam.set_position(Vec2::new(-9, 11));
    assert_eq!(cam.position, Vec2::new(-9, 11));
    assert_eq!(cam.scale, 4);
    assert_eq!(cam.scale_v, Vec2::new(4, 4));
}
