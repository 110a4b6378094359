//! Global properties of the collision response, containment and sleep
//! state, proved once and for all inputs.

use vstd::prelude::*;
use vstd::math::abs;
use crate::ball::{
    collide_step_s, collide_norm_s, collide_vec_s, contain_s, elastic_num_a, elastic_num_b,
    freeze_update_s,
    integrate_s, interact_seq_s, recombine_s, update_s, Ball, ARENA_BOTTOM, ARENA_LEFT,
    ARENA_RIGHT, ARENA_TOP, FREEZING_THRESHOLD, LIM, P_LIM, WAKE_BUDGET,
};
use crate::num::{lemma_trunc_div_exact, lemma_trunc_div2, trunc_div};
use crate::vec2::{bounded, dot_s, len_sq_s, v2, Vec2};

verus! {

/// Momentum conservation: the elastic exchange conserves momentum along
/// the contact normal. `elastic_num_a` and `elastic_num_b` are the new
/// normal velocities times the total mass, so their mass-weighted sum
/// equals the old normal momentum times the total mass, exactly.
pub proof fn lemma_momentum_conserved(ua: int, ub: int, ma: int, mb: int)
    ensures
        ma * elastic_num_a(ua, ub, ma, mb) + mb * elastic_num_b(ua, ub, ma, mb)
            == (ma * ua + mb * ub) * (ma + mb),
{
    let a1 = ma * ua;
    let b1 = mb * ub;
    assert(ma * (ua * (ma - mb) + 2 * mb * ub) == a1 * (ma - mb) + 2 * (b1 * ma))
        by (nonlinear_arith)
        requires
            a1 == ma * ua,
            b1 == mb * ub;
    assert(mb * (ub * (mb - ma) + 2 * ma * ua) == b1 * (mb - ma) + 2 * (a1 * mb))
        by (nonlinear_arith)
        requires
            a1 == ma * ua,
            b1 == mb * ub;
    assert(a1 * (ma - mb) + 2 * (b1 * ma) + (b1 * (mb - ma) + 2 * (a1 * mb))
        == (a1 + b1) * (ma + mb)) by (nonlinear_arith);
}

/// Recombining with an unchanged normal component reproduces the original
/// velocity exactly: the tangential and normal parts add back up, and the
/// single truncating division is of an exact multiple.
pub proof fn lemma_recombine_identity(va: Vec2, ma: int, mb: int, n: Vec2, u: int)
    requires
        len_sq_s(n) > 0,
        dot_s(va, n) == u,
        bounded(va, LIM as int),
        bounded(n, LIM as int),
        0 < ma,
        0 < mb,
    ensures
        recombine_s(
            n,
            dot_s(va, v2(-n.y as int, n.x as int)),
            u * (ma + mb),
            ma + mb,
        ) == va,
{
    let l2 = len_sq_s(n);
    let m = ma + mb;
    let t = v2(-n.y as int, n.x as int);
    assert(t.x == -n.y && t.y == n.x);
    let w = dot_s(va, t);
    assert(m > 0);
    assert(l2 * m > 0) by (nonlinear_arith)
        requires l2 > 0, m > 0;
    assert((-n.y) * w + n.x * u == l2 * va.x) by (nonlinear_arith)
        requires
            w == va.x * (-n.y) + va.y * n.x,
            u == va.x * n.x + va.y * n.y,
            l2 == n.x * n.x + n.y * n.y;
    assert(n.x * w + n.y * u == l2 * va.y) by (nonlinear_arith)
        requires
            w == va.x * (-n.y) + va.y * n.x,
            u == va.x * n.x + va.y * n.y,
            l2 == n.x * n.x + n.y * n.y;
    assert(-n.y * w * m + n.x * (u * m) == va.x * (l2 * m)) by (nonlinear_arith)
        requires (-n.y) * w + n.x * u == l2 * va.x;
    assert(n.x * w * m + n.y * (u * m) == va.y * (l2 * m)) by (nonlinear_arith)
        requires n.x * w + n.y * u == l2 * va.y;
    lemma_trunc_div_exact(va.x as int, l2 * m);
    lemma_trunc_div_exact(va.y as int, l2 * m);
}

/// Tangential invariance: a contact with zero relative velocity along the
/// (nonzero) penetration vector leaves both velocities exactly unchanged
/// by the resolved collision.
pub proof fn lemma_tangential_invariance(a: Ball, b: Ball, v: Vec2)
    requires
        a.wf(),
        b.wf(),
        bounded(v, LIM as int),
        len_sq_s(v) > 0,
        dot_s(a.velocity, v) == dot_s(b.velocity, v),
    ensures
        collide_step_s(a, b, v).0.velocity == a.velocity,
        collide_step_s(a, b, v).1.velocity == b.velocity,
{
    let n = collide_norm_s(v);
    assert(n == v);
    let u = dot_s(a.velocity, n);
    let ma = a.mass as int;
    let mb = b.mass as int;
    assert(elastic_num_a(u, u, ma, mb) == u * (ma + mb)) by (nonlinear_arith);
    assert(elastic_num_b(u, u, ma, mb) == u * (mb + ma)) by (nonlinear_arith);
    lemma_recombine_identity(a.velocity, ma, mb, n, u);
    lemma_recombine_identity(b.velocity, mb, ma, n, u);
}

/// Containment idempotence: containing a body twice in the same rectangle
/// with no motion in between gives exactly the state of containing once.
pub proof fn lemma_contain_idempotent(b: Ball, lo: int, bot: int, hi: int, top: int)
    requires
        b.wf(),
        -P_LIM <= lo < hi <= P_LIM,
        -P_LIM <= bot < top <= P_LIM,
        b.radius as int <= trunc_div(hi - lo, 2),
        b.radius as int <= trunc_div(top - bot, 2),
    ensures
        contain_s(contain_s(b, lo, bot, hi, top), lo, bot, hi, top)
            == contain_s(b, lo, bot, hi, top),
{
    lemma_trunc_div2(lo + hi);
    lemma_trunc_div2(hi - lo);
    lemma_trunc_div2(bot + top);
    lemma_trunc_div2(top - bot);
    crate::num::lemma_trunc_div_quotient_bound(lo + hi, 2, P_LIM as int);
    crate::num::lemma_trunc_div_quotient_bound(bot + top, 2, P_LIM as int);
    crate::num::lemma_trunc_div_quotient_bound(hi - lo, 2, P_LIM as int);
    crate::num::lemma_trunc_div_quotient_bound(top - bot, 2, P_LIM as int);
}

/// Sleep stability, second half: a body at rest — zero velocity, gravity
/// off, alone, and sitting inside the arena — keeps its exact position
/// and velocity over a frame and pays one tick of wake budget; so from a
/// full budget it is asleep after `WAKE_BUDGET + 1` such frames.
pub proof fn lemma_rest_body_counts_down(b: Ball, dt: int)
    requires
        b.wf(),
        b.freezing >= 0,
        b.velocity == (Vec2 { x: 0, y: 0 }),
        0 <= dt <= 1000,
        abs(b.center.x - trunc_div(ARENA_LEFT + ARENA_RIGHT as int, 2))
            <= trunc_div(ARENA_RIGHT - ARENA_LEFT as int, 2) - b.radius,
        abs(b.center.y - trunc_div(ARENA_BOTTOM + ARENA_TOP as int, 2))
            <= trunc_div(ARENA_TOP - ARENA_BOTTOM as int, 2) - b.radius,
    ensures
        update_s(b, Seq::<Ball>::empty(), dt, Vec2 { x: 0, y: 0 })
            == (Ball { freezing: (b.freezing - 1) as i64, ..b }, Seq::<Ball>::empty()),
{
    let g = Vec2 { x: 0, y: 0 };
    assert(g.x * dt == 0) by (nonlinear_arith)
        requires g.x == 0;
    assert(g.y * dt == 0) by (nonlinear_arith)
        requires g.y == 0;
    let b1 = integrate_s(b, dt, g);
    assert(0 * dt == 0) by (nonlinear_arith);
    assert(b1 == b);
    assert(interact_seq_s(b1, Seq::<Ball>::empty(), 0) == (b1, Seq::<Ball>::empty()));
    let b2 = contain_s(
        b1,
        ARENA_LEFT as int,
        ARENA_BOTTOM as int,
        ARENA_RIGHT as int,
        ARENA_TOP as int,
    );
    assert(b2 == b1);
    assert(len_sq_s(b2.velocity) == 0) by (nonlinear_arith)
        requires b2.velocity.x == 0 && b2.velocity.y == 0;
    assert(freeze_update_s(b2) == Ball { freezing: (b.freezing - 1) as i64, ..b });
}

/// Separation for a head-on contact (centers on one horizontal line):
/// after the resolved collision the centers are at least the radius sum
/// apart, up to the one unit the halved correction can truncate away.
pub proof fn lemma_separation_collinear(a: Ball, b: Ball, v: Vec2)
    requires
        a.wf(),
        b.wf(),
        bounded(a.center, LIM as int),
        bounded(b.center, LIM as int),
        a.center.y == b.center.y,
        collide_vec_s(a, b) == Some(v),
    ensures
        abs(
            collide_step_s(a, b, v).1.center.x - collide_step_s(a, b, v).0.center.x,
        ) >= a.radius + b.radius - 1,
{
    let dx = b.center.x - a.center.x;
    let d = v2(dx, 0);
    let rsum = a.radius + b.radius;
    assert(len_sq_s(d) == dx * dx) by (nonlinear_arith)
        requires d.x == dx && d.y == 0;
    if dx == 0 {
        assert(v == v2(rsum, 0));
        lemma_trunc_div2(rsum);
        crate::num::lemma_trunc_div_bound(rsum, 2);
    } else {
        let ad = if dx >= 0 { dx } else { -dx };
        assert(dx * dx == ad * ad) by (nonlinear_arith)
            requires ad == dx || ad == -dx;
        assert(ad * ad > 0) by (nonlinear_arith)
            requires ad >= 1;
        crate::num::lemma_sqrt_of_square(ad);
        let dist = ad;
        assert(ad <= rsum) by (nonlinear_arith)
            requires ad * ad <= rsum * rsum && ad >= 0 && rsum > 0;
        let depth = rsum - dist;
        assert(v.y == trunc_div(-(0 * depth), dist));
        assert(0 * depth == 0) by (nonlinear_arith);
        vstd::arithmetic::div_mod::lemma_div_multiples_vanish(0, dist);
        assert(dist * 0 == 0) by (nonlinear_arith);
        assert(trunc_div(0, dist) == 0);
        if dx >= 0 {
            assert(-d.x * depth == (-depth) * dist) by (nonlinear_arith)
                requires d.x == dx && dist == dx;
            lemma_trunc_div_exact(-depth, dist);
            assert(v.x == -depth);
        } else {
            assert(-d.x * depth == depth * dist) by (nonlinear_arith)
                requires d.x == dx && dist == -dx;
            lemma_trunc_div_exact(depth, dist);
            assert(v.x == depth);
        }
        lemma_trunc_div2(v.x as int);
        crate::num::lemma_trunc_div_bound(v.x as int, 2);
    }
}

/// Sleep stability, first half: an asleep body is left exactly as it is
/// by a frame update, and disturbs nothing.
pub proof fn lemma_asleep_is_stable(b: Ball, os: Seq<Ball>, dt: int, g: Vec2)
    requires
        b.freezing < 0,
    ensures
        update_s(b, os, dt, g) == (b, os),
{
}

/// Wake on impact: a struck sleeper whose post-collision speed exceeds
/// the freezing threshold has its wake budget reset by that same
/// collision step.
pub proof fn lemma_wake_on_impact(a: Ball, b: Ball, v: Vec2)
    requires
        b.freezing < 0,
        len_sq_s(collide_step_s(a, b, v).1.velocity)
            > FREEZING_THRESHOLD * FREEZING_THRESHOLD,
    ensures
        collide_step_s(a, b, v).1.freezing == WAKE_BUDGET,
{
}

} // verus!
