//! The shape-interaction capability: a closed "interacts with" relation
//! over shape pairs — circle against circle, and circle against an
//! infinite plane — each returning a penetration vector on contact.
//!
//! The plane is carried by its normal direction, an integer vector that
//! need not be a unit vector; the contracts divide lengths out exactly.

use vstd::prelude::*;
use vstd::math::abs;
use crate::ball::{detect_circles, pen_circle_s, P_LIM, LIM, RADIUS_MAX};
use crate::num::{
    div_i128, isqrt, is_sqrt, lemma_abs_mul, lemma_sqrt_is, lemma_trunc_div_quotient_bound,
    mul_ww, mul_i128, sqrt_floor, trunc_div,
};
use crate::vec2::{bounded, dot_s, len_sq_s, v2, Vec2};

verus! {

/// Kinematic state shared by every shape.
pub struct Body {
    /// Velocity, per second.
    pub velocity: Vec2,
    /// Position, in simulation space.
    pub position: Vec2,
}

/// An infinite plane (ground), given by a point and the direction of its
/// normal.
pub struct Ground {
    /// A point of the plane, with its kinematic state.
    pub body: Body,
    /// The plane's normal direction; any nonzero integer vector.
    pub normal: Vec2,
}

/// A circle shape.
pub struct Circle {
    /// Center and velocity.
    pub body: Body,
    /// Radius; positive.
    pub radius: i64,
}

/// The shape-interaction capability: `interact` decides overlap against
/// the other shape and returns the penetration vector on contact, exactly
/// as `interact_s` states it.
pub trait Collides<T> {
    /// The inputs on which the interaction is defined.
    spec fn interact_ok(&self, other: &T) -> bool;

    /// What the interaction returns.
    spec fn interact_s(&self, other: &T) -> Option<Vec2>;

    /// Decide overlap; `None` means no contact.
    fn interact(&self, other: &T) -> (r: Option<Vec2>)
        requires
            self.interact_ok(other),
        ensures
            r == self.interact_s(other),
    ;
}

/// Overlap decision for a circle at `p` with radius `r` against the plane
/// through `gp` with normal direction `n`: contact exactly when the
/// perpendicular distance of the center from the plane does not exceed
/// the radius; on contact, the penetration vector along the normal on the
/// circle's side of the plane, scaled by the overlap depth.
pub open spec fn pen_plane_s(p: Vec2, r: int, gp: Vec2, n: Vec2) -> Option<Vec2> {
    let dx = p.x - gp.x;
    let dy = p.y - gp.y;
    let dt = dx * n.x + dy * n.y;
    let n2 = len_sq_s(n);
    if dt * dt > r * r * n2 {
        None
    } else {
        let pd = sqrt_floor(trunc_div(dt * dt, n2));
        let nd = sqrt_floor(n2);
        let depth = r - pd;
        let sx: int = if dt >= 0 { n.x as int } else { -n.x as int };
        let sy: int = if dt >= 0 { n.y as int } else { -n.y as int };
        Some(v2(trunc_div(sx * depth, nd), trunc_div(sy * depth, nd)))
    }
}

impl Collides<Circle> for Circle {
    /// Both circles within the representable region.
    open spec fn interact_ok(&self, other: &Circle) -> bool {
        &&& bounded(self.body.position, P_LIM as int)
        &&& bounded(other.body.position, P_LIM as int)
        &&& 0 < self.radius <= RADIUS_MAX
        &&& 0 < other.radius <= RADIUS_MAX
    }

    /// The circle-circle penetration vector, pointing from the other
    /// circle back toward this one.
    open spec fn interact_s(&self, other: &Circle) -> Option<Vec2> {
        pen_circle_s(
            self.body.position,
            self.radius as int,
            other.body.position,
            other.radius as int,
        )
    }

    fn interact(&self, other: &Circle) -> (r: Option<Vec2>) {
        detect_circles(self.body.position, self.radius, other.body.position, other.radius)
    }
}

impl Collides<Ground> for Circle {
    /// The circle within the representable region, the normal nonzero.
    open spec fn interact_ok(&self, other: &Ground) -> bool {
        &&& bounded(self.body.position, P_LIM as int)
        &&& bounded(other.body.position, P_LIM as int)
        &&& bounded(other.normal, LIM as int)
        &&& !(other.normal.x == 0 && other.normal.y == 0)
        &&& 0 < self.radius <= RADIUS_MAX
    }

    /// The circle-plane penetration vector.
    open spec fn interact_s(&self, other: &Ground) -> Option<Vec2> {
        pen_plane_s(self.body.position, self.radius as int, other.body.position, other.normal)
    }

    fn interact(&self, other: &Ground) -> (r: Option<Vec2>) {
        detect_plane(self.body.position, self.radius, other.body.position, other.normal)
    }
}

/// Overlap detection for a circle against a plane; the narrow phase under
/// the circle-ground capability.
pub fn detect_plane(p: Vec2, r: i64, gp: Vec2, n: Vec2) -> (res: Option<Vec2>)
    requires
        bounded(p, P_LIM as int),
        bounded(gp, P_LIM as int),
        bounded(n, LIM as int),
        !(n.x == 0 && n.y == 0),
        0 < r <= RADIUS_MAX,
    ensures
        res == pen_plane_s(p, r as int, gp, n),
{
    let dx = p.x - gp.x;
    let dy = p.y - gp.y;
    proof {
        lemma_abs_mul(dx as int, n.x as int, 0x800_0000, 0x100_0000);
        lemma_abs_mul(dy as int, n.y as int, 0x800_0000, 0x100_0000);
    }
    let dt = mul_ww(dx, n.x) + mul_ww(dy, n.y);
    let n2 = n.len_sq();
    proof {
        assert(n2 > 0) by (nonlinear_arith)
            requires
                n2 == n.x * n.x + n.y * n.y,
                n.x != 0 || n.y != 0;
        lemma_abs_mul(dt as int, dt as int, 0x20_0000_0000_0000, 0x20_0000_0000_0000);
        lemma_abs_mul(r as int, r as int, 0x100_0000, 0x100_0000);
    }
    let dt2 = mul_i128(dt, dt);
    let rr = mul_ww(r, r);
    proof {
        crate::ball::lemma_dot_bound(n, n, 0x100_0000, 0x100_0000);
        assert(rr >= 0) by (nonlinear_arith)
            requires rr == r * r;
        lemma_abs_mul(rr as int, n2 as int, 0x1_0000_0000_0000, 0x2_0000_0000_0000);
    }
    let rrn = mul_i128(rr, n2);
    if dt2 > rrn {
        None
    } else {
        proof {
            assert(rr * n2 == n2 * rr) by (nonlinear_arith);
            assert(dt2 >= 0) by (nonlinear_arith)
                requires dt2 == dt * dt;
            lemma_trunc_div_quotient_bound(dt2 as int, n2 as int, rr as int);
        }
        let q = div_i128(dt2, n2);
        proof {
            crate::num::lemma_trunc_div_bound(dt2 as int, n2 as int);
            assert(q as u128 as int == q as int);
            assert(n2 as u128 as int == n2 as int);
        }
        let pd_w = isqrt(q as u128);
        let nd_w = isqrt(n2 as u128);
        proof {
            lemma_sqrt_is(q as int, pd_w as int);
            lemma_sqrt_is(n2 as int, nd_w as int);
            assert(pd_w as int <= r as int) by (nonlinear_arith)
                requires
                    is_sqrt(q as int, pd_w as int),
                    q <= rr,
                    rr == r * r,
                    r > 0;
            assert(nd_w >= 1) by (nonlinear_arith)
                requires
                    is_sqrt(n2 as int, nd_w as int),
                    n2 > 0;
            assert(abs(n.x as int) <= nd_w as int && abs(n.y as int) <= nd_w as int)
                by (nonlinear_arith)
                requires
                    is_sqrt(n2 as int, nd_w as int),
                    n2 == n.x * n.x + n.y * n.y;
            assert(nd_w as int <= 0x2_000_000) by (nonlinear_arith)
                requires
                    is_sqrt(n2 as int, nd_w as int),
                    n2 <= 0x2_0000_0000_0000;
        }
        let pd = pd_w as i64;
        let nd = nd_w as i64;
        let depth = r - pd;
        let sx = if dt >= 0 { n.x } else { -n.x };
        let sy = if dt >= 0 { n.y } else { -n.y };
        proof {
            lemma_abs_mul(sx as int, depth as int, nd as int, depth as int);
            lemma_abs_mul(sy as int, depth as int, nd as int, depth as int);
            lemma_abs_mul(sx as int, depth as int, 0x100_0000, 0x100_0000);
            lemma_abs_mul(sy as int, depth as int, 0x100_0000, 0x100_0000);
            assert(nd as int * depth as int == depth as int * nd as int)
                by (nonlinear_arith);
            lemma_trunc_div_quotient_bound(sx as int * depth as int, nd as int, depth as int);
            lemma_trunc_div_quotient_bound(sy as int * depth as int, nd as int, depth as int);
        }
        let vx = div_i128(mul_ww(sx, depth), nd as i128);
        let vy = div_i128(mul_ww(sy, depth), nd as i128);
        Some(Vec2::new(vx as i64, vy as i64))
    }
}

} // verus!
