//! 2D integer vectors and the spec-level vector algebra the contracts use.

use vstd::prelude::*;
use crate::num::{lemma_abs_mul, mul_ww};

verus! {

/// A 2D vector with integer components, in fixed sub-pixel units.
#[derive(Clone, Copy, Debug, PartialEq, Eq, Structural)]
pub struct Vec2 {
    pub x: i64,
    pub y: i64,
}

/// Spec-level constructor from mathematical integers (callers keep the
/// components within `i64` range).
pub open spec fn v2(x: int, y: int) -> Vec2 {
    Vec2 { x: x as i64, y: y as i64 }
}

/// Dot product, over mathematical integers.
pub open spec fn dot_s(a: Vec2, b: Vec2) -> int {
    a.x * b.x + a.y * b.y
}

/// Squared Euclidean length.
pub open spec fn len_sq_s(v: Vec2) -> int {
    dot_s(v, v)
}

/// Both components lie within `[-b, b]`.
pub open spec fn bounded(v: Vec2, b: int) -> bool {
    -b <= v.x <= b && -b <= v.y <= b
}

impl Vec2 {
    /// The vector `(x, y)`.
    pub fn new(x: i64, y: i64) -> (r: Vec2)
        ensures
            r.x == x,
            r.y == y,
    {
        Vec2 { x, y }
    }

    /// The zero vector.
    pub fn zero() -> (r: Vec2)
        ensures
            r.x == 0,
            r.y == 0,
    {
        Vec2 { x: 0, y: 0 }
    }

    /// Componentwise sum.
    pub fn add(self, o: Vec2) -> (r: Vec2)
        requires
            i64::MIN <= self.x + o.x <= i64::MAX,
            i64::MIN <= self.y + o.y <= i64::MAX,
        ensures
            r.x == self.x + o.x,
            r.y == self.y + o.y,
    {
        Vec2 { x: self.x + o.x, y: self.y + o.y }
    }

    /// Componentwise difference.
    pub fn sub(self, o: Vec2) -> (r: Vec2)
        requires
            i64::MIN <= self.x - o.x <= i64::MAX,
            i64::MIN <= self.y - o.y <= i64::MAX,
        ensures
            r.x == self.x - o.x,
            r.y == self.y - o.y,
    {
        Vec2 { x: self.x - o.x, y: self.y - o.y }
    }

    /// The perpendicular `(-y, x)`, a quarter turn counterclockwise.
    pub fn perp(self) -> (r: Vec2)
        requires
            self.y != i64::MIN,
        ensures
            r.x == -self.y,
            r.y == self.x,
    {
        Vec2 { x: -self.y, y: self.x }
    }

    /// Dot product, widened so it cannot overflow.
    pub fn dot(self, o: Vec2) -> (r: i128)
        requires
            bounded(self, 0x4000_0000_0000),
            bounded(o, 0x4000_0000_0000),
        ensures
            r as int == dot_s(self, o),
    {
        proof {
            lemma_abs_mul(self.x as int, o.x as int, 0x4000_0000_0000, 0x4000_0000_0000);
            lemma_abs_mul(self.y as int, o.y as int, 0x4000_0000_0000, 0x4000_0000_0000);
        }
        let px = mul_ww(self.x, o.x);
        let py = mul_ww(self.y, o.y);
        px + py
    }

    /// Squared Euclidean length, widened so it cannot overflow.
    pub fn len_sq(self) -> (r: i128)
        requires
            bounded(self, 0x4000_0000_0000),
        ensures
            r as int == len_sq_s(self),
            r >= 0,
    {
        proof {
            lemma_abs_mul(self.x as int, self.x as int, 0x4000_0000_0000, 0x4000_0000_0000);
            lemma_abs_mul(self.y as int, self.y as int, 0x4000_0000_0000, 0x4000_0000_0000);
            assert(self.x * self.x >= 0) by (nonlinear_arith);
            assert(self.y * self.y >= 0) by (nonlinear_arith);
        }
        let px = mul_ww(self.x, self.x);
        let py = mul_ww(self.y, self.y);
        px + py
    }
}

} // verus!
