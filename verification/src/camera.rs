//! The camera: a pure mapping from simulation space to presentation
//! space by per-axis scale and translation, with axis inversion.

use vstd::prelude::*;
use vstd::math::abs;
use crate::num::{div_i64, lemma_trunc_div_exact, trunc_div};
use crate::vec2::{bounded, v2, Vec2};

verus! {

/// Bound on camera scales and on the points it projects.
pub const CAM_LIM: i64 = 0x100_0000;

/// Bound on the camera offset and on projected results.
pub const CAM_OUT_LIM: i64 = 0x2000_0000_0000_0000;

/// A camera: translation offset, uniform scale, and the per-axis scale
/// vector that also carries the axis-inversion signs.
pub struct Camera {
    /// Presentation-space offset added after scaling.
    pub position: Vec2,
    /// The uniform scale factor.
    pub scale: i64,
    /// Per-axis scale: the uniform scale times the inversion signs.
    pub scale_v: Vec2,
}

/// Where `project` sends a point: componentwise scale, then translate.
pub open spec fn project_s(cam: Camera, v: Vec2) -> Vec2 {
    v2(
        v.x * cam.scale_v.x + cam.position.x,
        v.y * cam.scale_v.y + cam.position.y,
    )
}

/// Where `unproject` sends a point: translate back, then divide.
pub open spec fn unproject_s(cam: Camera, p: Vec2) -> Vec2 {
    v2(
        trunc_div(p.x - cam.position.x, cam.scale_v.x as int),
        trunc_div(p.y - cam.position.y, cam.scale_v.y as int),
    )
}

impl Camera {
    /// A camera with the given offset and uniform scale, no axis inverted.
    pub fn new(position: Vec2, scale: i64) -> (c: Camera)
        ensures
            c.position == position,
            c.scale == scale,
            c.scale_v.x == scale,
            c.scale_v.y == scale,
    {
        Camera { position, scale, scale_v: Vec2::new(scale, scale) }
    }

    /// Replace the offset.
    pub fn set_position(&mut self, position: Vec2)
        ensures
            final(self).position == position,
            final(self).scale == old(self).scale,
            final(self).scale_v == old(self).scale_v,
    {
        self.position = position;
    }

    /// Replace the uniform scale; this also resets the per-axis scale
    /// vector, dropping any inversion applied before.
    pub fn set_scale(&mut self, scale: i64)
        ensures
            final(self).position == old(self).position,
            final(self).scale == scale,
            final(self).scale_v.x == scale,
            final(self).scale_v.y == scale,
    {
        self.scale = scale;
        self.scale_v = Vec2::new(scale, scale);
    }

    /// Flip the vertical axis; flipping twice restores the original.
    pub fn invert_v(self) -> (c: Camera)
        requires
            self.scale_v.y != i64::MIN,
        ensures
            c.position == self.position,
            c.scale == self.scale,
            c.scale_v.x == self.scale_v.x,
            c.scale_v.y == -self.scale_v.y,
    {
        Camera { scale_v: Vec2::new(self.scale_v.x, -self.scale_v.y), ..self }
    }

    /// Flip the horizontal axis; flipping twice restores the original.
    pub fn invert_h(self) -> (c: Camera)
        requires
            self.scale_v.x != i64::MIN,
        ensures
            c.position == self.position,
            c.scale == self.scale,
            c.scale_v.x == -self.scale_v.x,
            c.scale_v.y == self.scale_v.y,
    {
        Camera { scale_v: Vec2::new(-self.scale_v.x, self.scale_v.y), ..self }
    }

    /// Project a simulation-space point to presentation space:
    /// componentwise scale, then translate.
    pub fn project(&self, v: Vec2) -> (r: Vec2)
        requires
            bounded(v, CAM_LIM as int),
            bounded(self.scale_v, CAM_LIM as int),
            bounded(self.position, CAM_OUT_LIM as int),
        ensures
            r == project_s(*self, v),
            r.x == v.x * self.scale_v.x + self.position.x,
            r.y == v.y * self.scale_v.y + self.position.y,
    {
        proof {
            crate::num::lemma_abs_mul(v.x as int, self.scale_v.x as int, 0x100_0000, 0x100_0000);
            crate::num::lemma_abs_mul(v.y as int, self.scale_v.y as int, 0x100_0000, 0x100_0000);
        }
        Vec2::new(
            v.x * self.scale_v.x + self.position.x,
            v.y * self.scale_v.y + self.position.y,
        )
    }

    /// The inverse of `project`, derived from the stored offset and scale:
    /// translate back, then divide componentwise.
    pub fn unproject(&self, p: Vec2) -> (r: Vec2)
        requires
            self.scale_v.x != 0,
            self.scale_v.y != 0,
            bounded(p, CAM_OUT_LIM as int),
            bounded(self.position, CAM_OUT_LIM as int),
        ensures
            r == unproject_s(*self, p),
            r.x == trunc_div(p.x - self.position.x, self.scale_v.x as int),
            r.y == trunc_div(p.y - self.position.y, self.scale_v.y as int),
    {
        proof {
            crate::num::lemma_trunc_div_bound(
                p.x - self.position.x,
                self.scale_v.x as int,
            );
            crate::num::lemma_trunc_div_bound(
                p.y - self.position.y,
                self.scale_v.y as int,
            );
        }
        Vec2::new(
            div_i64(p.x - self.position.x, self.scale_v.x),
            div_i64(p.y - self.position.y, self.scale_v.y),
        )
    }

    /// Scale a scalar size by the uniform scale.
    pub fn scale(&self, v: i64) -> (r: i64)
        requires
            abs(v as int) <= CAM_LIM as int,
            abs(self.scale as int) <= CAM_LIM as int,
        ensures
            r == v * self.scale,
    {
        proof {
            crate::num::lemma_abs_mul(v as int, self.scale as int, 0x100_0000, 0x100_0000);
        }
        v * self.scale
    }
}

/// Projection round-trip: for any nonzero per-axis scale, un-projecting a
/// projected point recovers the point exactly.
pub proof fn lemma_project_roundtrip(cam: Camera, v: Vec2)
    requires
        cam.scale_v.x != 0,
        cam.scale_v.y != 0,
        bounded(v, CAM_LIM as int),
        bounded(cam.scale_v, CAM_LIM as int),
        bounded(cam.position, CAM_OUT_LIM as int),
    ensures
        unproject_s(cam, project_s(cam, v)) == v,
{
    crate::num::lemma_abs_mul(v.x as int, cam.scale_v.x as int, 0x100_0000, 0x100_0000);
    crate::num::lemma_abs_mul(v.y as int, cam.scale_v.y as int, 0x100_0000, 0x100_0000);
    lemma_trunc_div_exact(v.x as int, cam.scale_v.x as int);
    lemma_trunc_div_exact(v.y as int, cam.scale_v.y as int);
}

} // verus!
