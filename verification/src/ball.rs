//! The simulated body: overlap detection, elastic collision response,
//! boundary containment, and the per-frame update with its sleep state.
//!
//! Units: positions and radii are thousandths of a pixel, velocities are
//! thousandths of a pixel per second, time steps are milliseconds. All
//! rounding is truncation toward zero and is stated in the contracts.

use vstd::prelude::*;
use vstd::math::abs;
use crate::num::{
    clamp_i64, clamp_i128, clamp_s, div_i64, div_i128, isqrt, is_sqrt, lemma_abs_mul,
    lemma_sqrt_is, lemma_trunc_div_bound, lemma_trunc_div_quotient_bound, lemma_trunc_div2,
    mul_ww, mul_i128, sqrt_floor, trunc_div,
};
use crate::vec2::{bounded, dot_s, len_sq_s, v2, Vec2};

verus! {

/// Bound on masses, velocities and penetration vectors.
pub const LIM: i64 = 0x100_0000;

/// Bound on position components; wider than `LIM` so a body pushed around
/// during a frame stays representable before containment pulls it back.
pub const P_LIM: i64 = 0x400_0000;

/// Largest radius a body may have (it must fit the arena).
pub const RADIUS_MAX: i64 = 240_000;

/// Speed below which a frame counts toward falling asleep, and above which
/// a struck sleeper wakes.
pub const FREEZING_THRESHOLD: i64 = 1;

/// The wake budget a fresh or newly woken body starts with.
pub const WAKE_BUDGET: i64 = 10;

/// Default gravity, in thousandths of a pixel per second squared.
pub const GRAVITY_X: i64 = 0;

/// Default gravity, vertical component.
pub const GRAVITY_Y: i64 = -980_000;

/// The arena rectangle every body is contained in.
pub const ARENA_LEFT: i64 = 0;

/// Arena bottom edge.
pub const ARENA_BOTTOM: i64 = 0;

/// Arena right edge.
pub const ARENA_RIGHT: i64 = 640_000;

/// Arena top edge.
pub const ARENA_TOP: i64 = 480_000;

/// Milliseconds per second: velocities are per second, steps are in ms.
pub const TIME_SCALE: i64 = 1000;

/// Longest accepted frame duration, in milliseconds.
pub const DT_MAX: i64 = 1000;

/// An opaque visual tag carried along by a body; the physics never reads it.
#[derive(Clone, Copy, Debug, PartialEq, Eq, Structural)]
pub struct Rgba {
    pub r: u8,
    pub g: u8,
    pub b: u8,
    pub a: u8,
}

/// A circular body with mutable physical state.
#[derive(Clone, Copy, Debug, PartialEq, Eq, Structural)]
pub struct Ball {
    /// Stable index, unique per run; used to skip self-interaction.
    pub id: usize,
    /// Center, in simulation space.
    pub center: Vec2,
    /// Radius; positive.
    pub radius: i64,
    /// Mass; positive (equal to the radius for bodies made by `new`).
    pub mass: i64,
    /// Visual tag, opaque to the physics.
    pub color: Rgba,
    /// Velocity, per second.
    pub velocity: Vec2,
    /// Remaining wake budget: nonnegative while active, negative once asleep.
    pub freezing: i64,
}

impl Ball {
    /// Well-formedness: the configuration invariant every operation keeps.
    pub open spec fn wf(self) -> bool {
        &&& 0 < self.radius <= RADIUS_MAX
        &&& 0 < self.mass <= LIM
        &&& bounded(self.center, P_LIM as int)
        &&& bounded(self.velocity, LIM as int)
        &&& -1 <= self.freezing <= WAKE_BUDGET
    }
}

/// The penetration vector for center offset `d` (from this body to the
/// other) and radius sum `rsum`: the unit direction from the other body
/// back toward this one, scaled by the overlap depth. Concentric bodies
/// fall back to a fixed horizontal direction.
pub open spec fn pen_vec_s(d: Vec2, rsum: int) -> Vec2 {
    let ls = len_sq_s(d);
    if ls == 0 {
        v2(rsum, 0)
    } else {
        let dist = sqrt_floor(ls);
        let depth = rsum - dist;
        v2(trunc_div(-d.x * depth, dist), trunc_div(-d.y * depth, dist))
    }
}

/// Overlap decision for two circles at `pa`/`pb` with radii `ra`/`rb`:
/// contact exactly when the center distance does not exceed the radius
/// sum; on contact, the penetration vector pointing from the second
/// circle back toward the first.
pub open spec fn pen_circle_s(pa: Vec2, ra: int, pb: Vec2, rb: int) -> Option<Vec2> {
    let d = v2(pb.x - pa.x, pb.y - pa.y);
    let rsum = ra + rb;
    if len_sq_s(d) > rsum * rsum {
        None
    } else {
        Some(pen_vec_s(d, rsum))
    }
}

/// Overlap decision for two bodies.
pub open spec fn collide_vec_s(a: Ball, b: Ball) -> Option<Vec2> {
    pen_circle_s(a.center, a.radius as int, b.center, b.radius as int)
}

/// The elastic-exchange numerator for the struck pair's first body:
/// its new normal velocity times the total mass.
pub open spec fn elastic_num_a(ua: int, ub: int, ma: int, mb: int) -> int {
    ua * (ma - mb) + 2 * mb * ub
}

/// The elastic-exchange numerator for the second body.
pub open spec fn elastic_num_b(ua: int, ub: int, ma: int, mb: int) -> int {
    ub * (mb - ma) + 2 * ma * ua
}

/// The collision normal actually used: the penetration vector itself, or a
/// fixed horizontal direction when it is zero (exactly touching bodies).
pub open spec fn collide_norm_s(v: Vec2) -> Vec2 {
    if len_sq_s(v) == 0 {
        v2(1, 0)
    } else {
        v
    }
}

/// Recombined velocity after a collision along (unnormalized) normal `n`:
/// the tangential component `w` is kept, the normal component is replaced
/// by `anum / m`; one truncating division per component, clamped to the
/// velocity range.
pub open spec fn recombine_s(n: Vec2, w: int, anum: int, m: int) -> Vec2 {
    let l2 = len_sq_s(n);
    v2(
        clamp_s(trunc_div(-n.y * w * m + n.x * anum, l2 * m), -LIM as int, LIM as int),
        clamp_s(trunc_div(n.x * w * m + n.y * anum, l2 * m), -LIM as int, LIM as int),
    )
}

/// Wake rule: a sleeping body whose post-collision speed exceeds the
/// freezing threshold gets its wake budget reset.
pub open spec fn wake_s(b: Ball) -> Ball {
    if b.freezing < 0 && len_sq_s(b.velocity) > FREEZING_THRESHOLD * FREEZING_THRESHOLD {
        Ball { freezing: WAKE_BUDGET, ..b }
    } else {
        b
    }
}

/// One resolved collision between `a` and `b` with penetration vector `v`:
/// positions split the penetration evenly, velocities exchange their normal
/// components elastically, and a struck sleeper may wake.
pub open spec fn collide_step_s(a: Ball, b: Ball, v: Vec2) -> (Ball, Ball) {
    let hx = trunc_div(v.x as int, 2);
    let hy = trunc_div(v.y as int, 2);
    let ca = v2(
        clamp_s(a.center.x + hx, -P_LIM as int, P_LIM as int),
        clamp_s(a.center.y + hy, -P_LIM as int, P_LIM as int),
    );
    let cb = v2(
        clamp_s(b.center.x - hx, -P_LIM as int, P_LIM as int),
        clamp_s(b.center.y - hy, -P_LIM as int, P_LIM as int),
    );
    let n = collide_norm_s(v);
    let t = v2(-n.y as int, n.x as int);
    let m = a.mass + b.mass;
    let wa = dot_s(a.velocity, t);
    let wb = dot_s(b.velocity, t);
    let ua = dot_s(a.velocity, n);
    let ub = dot_s(b.velocity, n);
    let va = recombine_s(n, wa, elastic_num_a(ua, ub, a.mass as int, b.mass as int), m as int);
    let vb = recombine_s(n, wb, elastic_num_b(ua, ub, a.mass as int, b.mass as int), m as int);
    let a2 = Ball { center: ca, velocity: va, ..a };
    let b2 = wake_s(Ball { center: cb, velocity: vb, ..b });
    (a2, b2)
}

impl Ball {
    /// A fresh body: at rest, mass equal to its radius, full wake budget.
    pub fn new(id: usize, center: Vec2, radius: i64, color: Rgba) -> (b: Ball)
        requires
            0 < radius <= RADIUS_MAX,
            bounded(center, P_LIM as int),
        ensures
            b == (Ball {
                id,
                center,
                radius,
                mass: radius,
                color,
                velocity: Vec2 { x: 0, y: 0 },
                freezing: WAKE_BUDGET,
            }),
            b.wf(),
    {
        Ball {
            id,
            center,
            radius,
            mass: radius,
            color,
            velocity: Vec2::zero(),
            freezing: WAKE_BUDGET,
        }
    }

    /// Overlap detection against another body.
    pub fn collides(&self, other: &Ball) -> (r: Option<Vec2>)
        requires
            self.wf(),
            other.wf(),
        ensures
            r == collide_vec_s(*self, *other),
            r matches Some(v) ==> bounded(v, LIM as int),
    {
        detect_circles(self.center, self.radius, other.center, other.radius)
    }
}

/// Overlap detection for two circles; the shared narrow phase under both
/// body-body interaction and the shape capability.
pub fn detect_circles(pa: Vec2, ra: i64, pb: Vec2, rb: i64) -> (r: Option<Vec2>)
    requires
        bounded(pa, P_LIM as int),
        bounded(pb, P_LIM as int),
        0 < ra <= RADIUS_MAX,
        0 < rb <= RADIUS_MAX,
    ensures
        r == pen_circle_s(pa, ra as int, pb, rb as int),
        r matches Some(v) ==> bounded(v, LIM as int),
{
    let d = pb.sub(pa);
    let ls = d.len_sq();
    let rsum = ra + rb;
    let r2 = mul_ww(rsum, rsum);
    proof {
        assert(d == v2(pb.x - pa.x, pb.y - pa.y));
    }
    if ls > r2 {
        None
    } else if d.x == 0 && d.y == 0 {
        proof {
            assert(len_sq_s(d) == 0) by (nonlinear_arith)
                requires d.x == 0 && d.y == 0;
        }
        Some(Vec2::new(rsum, 0))
    } else {
            proof {
                assert(ls > 0) by (nonlinear_arith)
                    requires
                        ls == d.x * d.x + d.y * d.y,
                        d.x != 0 || d.y != 0;
                lemma_abs_mul(d.x as int, d.x as int, 2 * P_LIM as int, 2 * P_LIM as int);
                lemma_abs_mul(d.y as int, d.y as int, 2 * P_LIM as int, 2 * P_LIM as int);
                assert(ls < 0x1_0000_0000_0000_0000);
            }
            let dist_w = isqrt(ls as u128);
            proof {
                assert(ls as u128 as int == ls as int);
                lemma_sqrt_is(ls as int, dist_w as int);
                assert(dist_w as int <= rsum as int) by (nonlinear_arith)
                    requires
                        is_sqrt(ls as int, dist_w as int),
                        ls <= rsum * rsum,
                        rsum > 0;
                assert(dist_w >= 1) by (nonlinear_arith)
                    requires
                        is_sqrt(ls as int, dist_w as int),
                        ls > 0;
            }
            let dist = dist_w as i64;
            let depth = rsum - dist;
            let nx = mul_ww(d.x, depth);
            let ny = mul_ww(d.y, depth);
            proof {
                // each center-offset component is at most the floor distance
                assert(abs(d.x as int) <= dist as int && abs(d.y as int) <= dist as int)
                    by (nonlinear_arith)
                    requires
                        is_sqrt((d.x * d.x + d.y * d.y) as int, dist as int),
                        dist as int == dist_w as int,
                        d.x * d.x + d.y * d.y == ls,
                        ls == len_sq_s(d);
                lemma_abs_mul(d.x as int, depth as int, dist as int, depth as int);
                lemma_abs_mul(d.y as int, depth as int, dist as int, depth as int);
                lemma_abs_mul(d.x as int, depth as int, 0x800_0000, 0x100_0000);
                lemma_abs_mul(d.y as int, depth as int, 0x800_0000, 0x100_0000);
                assert(dist as int * depth as int == depth as int * dist as int)
                    by (nonlinear_arith);
                lemma_trunc_div_quotient_bound(-nx as int, dist as int, depth as int);
                lemma_trunc_div_quotient_bound(-ny as int, dist as int, depth as int);
            }
            let px = div_i128(-nx, dist as i128);
            let py = div_i128(-ny, dist as i128);
            proof {
                assert((-d.x) * (depth as int) == -(d.x * depth)) by (nonlinear_arith);
                assert((-d.y) * (depth as int) == -(d.y * depth)) by (nonlinear_arith);
            }
            Some(Vec2::new(px as i64, py as i64))
    }
}

impl Ball {
    /// Resolve a detected collision: separate the pair along the penetration
    /// vector `v` and exchange velocities elastically along it; wake the
    /// other body if it was asleep and is now moving.
    pub fn apply_collision(&mut self, v: Vec2, other: &mut Ball)
        requires
            old(self).wf(),
            old(other).wf(),
            bounded(v, LIM as int),
        ensures
            *final(self) == collide_step_s(*old(self), *old(other), v).0,
            *final(other) == collide_step_s(*old(self), *old(other), v).1,
            final(self).wf(),
            final(other).wf(),
    {
        let ghost a0 = *self;
        let ghost b0 = *other;
        // positional correction: half the penetration each way
        let hx = div_i64(v.x, 2);
        let hy = div_i64(v.y, 2);
        proof {
            lemma_trunc_div_bound(v.x as int, 2);
            lemma_trunc_div_bound(v.y as int, 2);
        }
        self.center.x = clamp_i64(self.center.x + hx, -P_LIM, P_LIM);
        self.center.y = clamp_i64(self.center.y + hy, -P_LIM, P_LIM);
        other.center.x = clamp_i64(other.center.x - hx, -P_LIM, P_LIM);
        other.center.y = clamp_i64(other.center.y - hy, -P_LIM, P_LIM);

        // velocity correction: elastic exchange along the normal
        let n = if v.x == 0 && v.y == 0 { Vec2::new(1, 0) } else { v };
        proof {
            assert(len_sq_s(v) == 0 <==> v.x == 0 && v.y == 0) by (nonlinear_arith);
            assert(len_sq_s(n) > 0) by (nonlinear_arith)
                requires n.x != 0 || n.y != 0;
        }
        let t = n.perp();
        let l2 = n.len_sq();
        let m = self.mass + other.mass;
        let wa = self.velocity.dot(t);
        let wb = other.velocity.dot(t);
        let ua = self.velocity.dot(n);
        let ub = other.velocity.dot(n);
        proof {
            lemma_dot_bound(a0.velocity, t, 0x100_0000, 0x100_0000);
            lemma_dot_bound(b0.velocity, t, 0x100_0000, 0x100_0000);
            lemma_dot_bound(a0.velocity, n, 0x100_0000, 0x100_0000);
            lemma_dot_bound(b0.velocity, n, 0x100_0000, 0x100_0000);
            lemma_dot_bound(n, n, 0x100_0000, 0x100_0000);
        }
        let dm = self.mass - other.mass;
        proof {
            lemma_abs_mul(ua as int, dm as int, 0x2_0000_0000_0000, 0x100_0000);
            lemma_abs_mul(ub as int, -dm as int, 0x2_0000_0000_0000, 0x100_0000);
            lemma_abs_mul(b0.mass as int, ub as int, 0x100_0000, 0x2_0000_0000_0000);
            lemma_abs_mul(a0.mass as int, ua as int, 0x100_0000, 0x2_0000_0000_0000);
            lemma_abs_mul(l2 as int, m as int, 0x2_0000_0000_0000, 0x200_0000);
            assert(2 * (b0.mass * ub) == 2 * b0.mass * ub) by (nonlinear_arith);
            assert(2 * (a0.mass * ua) == 2 * a0.mass * ua) by (nonlinear_arith);
        }
        let anum = mul_i128(ua, dm as i128) + 2 * mul_i128(other.mass as i128, ub);
        let bnum = mul_i128(ub, -dm as i128) + 2 * mul_i128(self.mass as i128, ua);
        let den = mul_i128(l2, m as i128);
        proof {
            assert(den > 0) by (nonlinear_arith)
                requires den == l2 * m, l2 > 0, m > 0;
        }
        let vax = recombine_part(t.x, wa, n.x, anum, m, den);
        let vay = recombine_part(t.y, wa, n.y, anum, m, den);
        let vbx = recombine_part(t.x, wb, n.x, bnum, m, den);
        let vby = recombine_part(t.y, wb, n.y, bnum, m, den);
        self.velocity = Vec2::new(vax, vay);
        other.velocity = Vec2::new(vbx, vby);

        // wake a struck sleeper that is moving again
        if other.freezing < 0 {
            let ls = other.velocity.len_sq();
            proof {
                lemma_abs_mul(FREEZING_THRESHOLD as int, FREEZING_THRESHOLD as int, 1, 1);
            }
            let thr2 = mul_i128(FREEZING_THRESHOLD as i128, FREEZING_THRESHOLD as i128);
            if ls > thr2 {
                other.freezing = WAKE_BUDGET;
            }
        }
        proof {
            let (a2, b2) = collide_step_s(a0, b0, v);
            assert(*self == a2);
            assert(*other == b2);
        }
    }
}

/// One axis of boundary containment: if the offset from the rectangle
/// middle exceeds the half extent shrunk by the radius, the position is
/// clamped to that boundary and the velocity component reflected.
pub open spec fn contain_axis_s(pos: int, vel: int, lo: int, hi: int, radius: int) -> (int, int) {
    let mid = trunc_div(lo + hi, 2);
    let half = trunc_div(hi - lo, 2) - radius;
    let off = pos - mid;
    if abs(off) > half {
        ((if off >= 0 { mid + half } else { mid - half }), -vel)
    } else {
        (pos, vel)
    }
}

/// Containment of a body in an axis-aligned rectangle, both axes
/// independently.
pub open spec fn contain_s(b: Ball, lo: int, bot: int, hi: int, top: int) -> Ball {
    let px = contain_axis_s(b.center.x as int, b.velocity.x as int, lo, hi, b.radius as int);
    let py = contain_axis_s(b.center.y as int, b.velocity.y as int, bot, top, b.radius as int);
    Ball {
        center: v2(px.0, py.0),
        velocity: v2(px.1, py.1),
        ..b
    }
}

/// Gravity and motion integration for one frame: velocity picks up
/// `gravity * dt`, the position moves by the new velocity times `dt`;
/// both are kept inside their representable ranges.
pub open spec fn integrate_s(b: Ball, dt: int, gravity: Vec2) -> Ball {
    let vx = clamp_s(
        b.velocity.x + trunc_div(gravity.x * dt, TIME_SCALE as int),
        -LIM as int,
        LIM as int,
    );
    let vy = clamp_s(
        b.velocity.y + trunc_div(gravity.y * dt, TIME_SCALE as int),
        -LIM as int,
        LIM as int,
    );
    let cx = clamp_s(b.center.x + trunc_div(vx * dt, TIME_SCALE as int), -P_LIM as int, P_LIM as int);
    let cy = clamp_s(b.center.y + trunc_div(vy * dt, TIME_SCALE as int), -P_LIM as int, P_LIM as int);
    Ball { center: v2(cx, cy), velocity: v2(vx, vy), ..b }
}

/// Wake-budget bookkeeping after a frame: a slow body loses one tick of
/// its budget; once the budget is negative the body is asleep.
pub open spec fn freeze_update_s(b: Ball) -> Ball {
    if len_sq_s(b.velocity) < FREEZING_THRESHOLD * FREEZING_THRESHOLD {
        Ball { freezing: (b.freezing - 1) as i64, ..b }
    } else {
        b
    }
}

/// The pairwise interaction pass from index `i` on: each other body is
/// tested against the current state of the moving body, in index order,
/// and every contact is resolved immediately.
pub open spec fn interact_seq_s(b: Ball, os: Seq<Ball>, i: int) -> (Ball, Seq<Ball>)
    decreases os.len() - i,
{
    if i < 0 || i >= os.len() {
        (b, os)
    } else {
        let o = os[i];
        if o.id == b.id {
            interact_seq_s(b, os, i + 1)
        } else {
            match collide_vec_s(b, o) {
                Option::None => interact_seq_s(b, os, i + 1),
                Option::Some(v) => {
                    let p = collide_step_s(b, o, v);
                    interact_seq_s(p.0, os.update(i, p.1), i + 1)
                },
            }
        }
    }
}

/// One full frame for one body: an asleep body is left untouched;
/// an active one integrates gravity and motion, interacts with every
/// other body in index order, is contained in the arena, and pays one
/// tick of wake budget if it ended the frame slow.
pub open spec fn update_s(b: Ball, os: Seq<Ball>, dt: int, gravity: Vec2) -> (Ball, Seq<Ball>) {
    if b.freezing < 0 {
        (b, os)
    } else {
        let b1 = integrate_s(b, dt, gravity);
        let p = interact_seq_s(b1, os, 0);
        let b2 = contain_s(
            p.0,
            ARENA_LEFT as int,
            ARENA_BOTTOM as int,
            ARENA_RIGHT as int,
            ARENA_TOP as int,
        );
        (freeze_update_s(b2), p.1)
    }
}

impl Ball {
    /// Clamp this body into an axis-aligned rectangle, reflecting the
    /// velocity component on each axis whose wall was hit.
    pub fn resolve_bounding(&mut self, left: i64, bottom: i64, right: i64, top: i64)
        requires
            old(self).wf(),
            -P_LIM <= left < right <= P_LIM,
            -P_LIM <= bottom < top <= P_LIM,
            old(self).radius <= trunc_div(right - left, 2),
            old(self).radius <= trunc_div(top - bottom, 2),
        ensures
            *final(self) == contain_s(*old(self), left as int, bottom as int, right as int, top as int),
            final(self).wf(),
            left <= final(self).center.x <= right,
            bottom <= final(self).center.y <= top,
    {
        proof {
            lemma_trunc_div2(left + right);
            lemma_trunc_div2(right - left);
            lemma_trunc_div2(bottom + top);
            lemma_trunc_div2(top - bottom);
            lemma_trunc_div_quotient_bound(left + right, 2, P_LIM as int);
            lemma_trunc_div_quotient_bound(bottom + top, 2, P_LIM as int);
            lemma_trunc_div_quotient_bound(right - left, 2, P_LIM as int);
            lemma_trunc_div_quotient_bound(top - bottom, 2, P_LIM as int);
        }
        let mid_x = div_i64(left + right, 2);
        let mid_y = div_i64(bottom + top, 2);
        let half_x = div_i64(right - left, 2) - self.radius;
        let half_y = div_i64(top - bottom, 2) - self.radius;

        let off_x = self.center.x - mid_x;
        let ax = if off_x < 0 { -off_x } else { off_x };
        if ax > half_x {
            self.center.x = if off_x >= 0 { mid_x + half_x } else { mid_x - half_x };
            self.velocity.x = -self.velocity.x;
        }

        let off_y = self.center.y - mid_y;
        let ay = if off_y < 0 { -off_y } else { off_y };
        if ay > half_y {
            self.center.y = if off_y >= 0 { mid_y + half_y } else { mid_y - half_y };
            self.velocity.y = -self.velocity.y;
        }
    }

    /// One frame for this body: gravity, motion, interaction with every
    /// other body (itself excluded by id), containment in the arena, and
    /// the sleep bookkeeping. An asleep body does not move at all.
    pub fn update(&mut self, dt: i64, gravity: Vec2, others: &mut Vec<Ball>)
        requires
            old(self).wf(),
            0 <= dt <= DT_MAX,
            bounded(gravity, LIM as int),
            forall|j: int| 0 <= j < old(others)@.len() ==> (#[trigger] old(others)@[j]).wf(),
        ensures
            *final(self) == update_s(*old(self), old(others)@, dt as int, gravity).0,
            final(others)@ == update_s(*old(self), old(others)@, dt as int, gravity).1,
            final(self).wf(),
            forall|j: int| 0 <= j < final(others)@.len() ==> (#[trigger] final(others)@[j]).wf(),
    {
        if self.freezing < 0 {
            return ;
        }

        // integrate gravity, then motion by the new velocity
        proof {
            lemma_abs_mul(gravity.x as int, dt as int, 0x100_0000, 1000);
            lemma_abs_mul(gravity.y as int, dt as int, 0x100_0000, 1000);
            lemma_trunc_div_quotient_bound(gravity.x * dt, TIME_SCALE as int, 0x100_0000);
            lemma_trunc_div_quotient_bound(gravity.y * dt, TIME_SCALE as int, 0x100_0000);
        }
        let gx = div_i128(mul_ww(gravity.x, dt), TIME_SCALE as i128);
        let gy = div_i128(mul_ww(gravity.y, dt), TIME_SCALE as i128);
        self.velocity.x = clamp_i128(self.velocity.x as i128 + gx, -LIM, LIM);
        self.velocity.y = clamp_i128(self.velocity.y as i128 + gy, -LIM, LIM);
        proof {
            lemma_abs_mul(self.velocity.x as int, dt as int, 0x100_0000, 1000);
            lemma_abs_mul(self.velocity.y as int, dt as int, 0x100_0000, 1000);
            lemma_trunc_div_quotient_bound(self.velocity.x * dt, TIME_SCALE as int, 0x100_0000);
            lemma_trunc_div_quotient_bound(self.velocity.y * dt, TIME_SCALE as int, 0x100_0000);
        }
        let px = div_i128(mul_ww(self.velocity.x, dt), TIME_SCALE as i128);
        let py = div_i128(mul_ww(self.velocity.y, dt), TIME_SCALE as i128);
        self.center.x = clamp_i128(self.center.x as i128 + px, -P_LIM, P_LIM);
        self.center.y = clamp_i128(self.center.y as i128 + py, -P_LIM, P_LIM);

        let ghost b1 = *self;
        let ghost os0 = others@;
        proof {
            assert(b1 == integrate_s(*old(self), dt as int, gravity));
        }

        // pairwise interaction, in index order, against current states
        let n = others.len();
        let mut i: usize = 0;
        while i < n
            invariant
                i <= n,
                others@.len() == n,
                self.wf(),
                self.freezing == b1.freezing,
                forall|j: int| 0 <= j < others@.len() ==> (#[trigger] others@[j]).wf(),
                interact_seq_s(*self, others@, i as int) == interact_seq_s(b1, os0, 0),
            decreases n - i,
        {
            let ghost sp = *self;
            let ghost osp = others@;
            let o = others[i];
            if o.id != self.id {
                let pen = self.collides(&o);
                if let Some(v) = pen {
                    let mut ob = o;
                    self.apply_collision(v, &mut ob);
                    others.set(i, ob);
                }
            }
            proof {
                assert(interact_seq_s(sp, osp, i as int)
                    == interact_seq_s(*self, others@, i + 1));
            }
            i = i + 1;
        }

        // containment in the arena, then sleep bookkeeping
        self.resolve_bounding(ARENA_LEFT, ARENA_BOTTOM, ARENA_RIGHT, ARENA_TOP);
        let ls = self.velocity.len_sq();
        proof {
            lemma_abs_mul(FREEZING_THRESHOLD as int, FREEZING_THRESHOLD as int, 1, 1);
        }
        let thr2 = mul_i128(FREEZING_THRESHOLD as i128, FREEZING_THRESHOLD as i128);
        if ls < thr2 {
            self.freezing = self.freezing - 1;
        }
    }
}

/// Bound on a dot product from bounds on its operands.
pub proof fn lemma_dot_bound(a: Vec2, b: Vec2, ba: int, bb: int)
    requires
        bounded(a, ba),
        bounded(b, bb),
        0 <= ba,
        0 <= bb,
    ensures
        abs(dot_s(a, b)) <= 2 * ba * bb,
{
    assert(abs(a.x * b.x + a.y * b.y) <= 2 * ba * bb) by (nonlinear_arith)
        requires
            -ba <= a.x <= ba,
            -ba <= a.y <= ba,
            -bb <= b.x <= bb,
            -bb <= b.y <= bb,
            0 <= ba,
            0 <= bb;
}

/// One component of the recombined velocity: tangential part kept, normal
/// part exchanged, a single truncating division, clamped to the velocity
/// range. `tc`/`nc` are the tangent and normal components on this axis,
/// `w` the tangential velocity, `anum` the elastic numerator, `m` the total
/// mass and `den == len_sq(n) * m`.
fn recombine_part(tc: i64, w: i128, nc: i64, anum: i128, m: i64, den: i128) -> (r: i64)
    requires
        den > 0,
        abs(tc as int) <= 0x100_0000,
        abs(nc as int) <= 0x100_0000,
        abs(w as int) <= 0x2_0000_0000_0000,
        abs(anum as int) <= 0x800_0000_0000_0000_0000,
        0 < m <= 0x200_0000,
    ensures
        r as int == clamp_s(
            trunc_div(tc * (w as int) * m + nc * (anum as int), den as int),
            -LIM as int,
            LIM as int,
        ),
{
    proof {
        lemma_abs_mul(tc as int, w as int, 0x100_0000, 0x2_0000_0000_0000);
        lemma_abs_mul(tc * w, m as int, 0x200_0000_0000_0000_0000, 0x200_0000);
        lemma_abs_mul(nc as int, anum as int, 0x100_0000, 0x800_0000_0000_0000_0000);
    }
    let tw = mul_i128(tc as i128, w);
    let twm = mul_i128(tw, m as i128);
    let na = mul_i128(nc as i128, anum);
    let q = div_i128(twm + na, den);
    clamp_i128(q, -LIM, LIM)
}

} // verus!
