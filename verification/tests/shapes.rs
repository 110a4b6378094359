// The shape-interaction capability: circle-circle and circle-plane.

use balls::shapes::{detect_plane, Body, Circle, Collides, Ground};
use balls::vec2::Vec2;

fn circle(x: i64, y: i64, radius: i64) -> Circle {
    Circle {
        body: Body { velocity: Vec2::new(0, 0), position: Vec2::new(x, y) },
        radius,
    }
}

#[test]
fn circles_interact_like_the_body_detector() {
    let a = circle(0, 0, 20_000);
    let b = circle(30_000, 0, 20_000);
    // overlap depth 10, pointing from the other circle back toward `a`
    assert_eq!(a.interact(&b), Some(Vec2::new(-10_000, 0)));
    assert_eq!(b.interact(&a), Some(Vec2::new(10_000, 0)));
    let far = circle(100_000, 0, 20_000);
    assert_eq!(a.interact(&far), None);
}

#[test]
fn circle_above_ground_does_not_touch_it() {
    let c = circle(5_000, 30_000, 20_000);
    let g = Ground {
        body: Body { velocity: Vec2::new(0, 0), position: Vec2::new(0, 0) },
        normal: Vec2::new(0, 1_000),
    };
    assert_eq!(c.interact(&g), None);
}

#[test]
fn circle_sunk_into_ground_is_pushed_out_along_the_normal() {
    // center 0.3 above a horizontal plane, radius 20: overlap depth 19.7
    let c = circle(5_000, 300, 20_000);
    let g = Ground {
        body: Body { velocity: Vec2::new(0, 0), position: Vec2::new(0, 0) },
        normal: Vec2::new(0, 1_000),
    };
    assert_eq!(c.interact(&g), Some(Vec2::new(0, 19_700)));
}

#[test]
fn circle_below_ground_is_pushed_out_on_its_own_side() {
    let c = circle(0, -300, 20_000);
    let g = Ground {
        body: Body { velocity: Vec2::new(0, 0), position: Vec2::new(0, 0) },
        normal: Vec2::new(0, 1_000),
    };
    assert_eq!(c.interact(&g), Some(Vec2::new(0, -19_700)));
}

#[test]
fn plane_detection_does_not_need_a_unit_normal() {
    // the same plane with a scaled normal gives the same penetration
    let p = Vec2::new(5_000, 300);
    let gp = Vec2::new(0, 0);
    assert_eq!(
        detect_plane(p, 20_000, gp, Vec2::new(0, 1_000)),
        detect_plane(p, 20_000, gp, Vec2::new(0, 2_000)),
    );
}
