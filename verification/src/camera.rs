//! The camera: an eye position and an orthonormal-intent basis carrying
//! camera-space ray directions into world space.

use vstd::prelude::*;
use crate::vec3::{Vec3, v3_wf, vadd, vscale, vsub, vcross, vnormalize};

verus! {

/// Eye, look-at target, up hint, and the derived basis.
#[derive(Clone, Copy, Debug)]
pub struct Camera {
    pub eye: Vec3,
    pub center: Vec3,
    pub up: Vec3,
    /// Basis: camera right.
    pub u: Vec3,
    /// Basis: camera up.
    pub v: Vec3,
    /// Basis: camera backward (from target toward the eye).
    pub w: Vec3,
}

/// The backward basis vector derived from eye and target.
pub open spec fn basis_w(eye: Vec3, center: Vec3) -> Vec3 {
    vnormalize(vsub(eye, center))
}

/// The right basis vector derived from the up hint and `w`.
pub open spec fn basis_u(eye: Vec3, center: Vec3, up: Vec3) -> Vec3 {
    vnormalize(vcross(up, basis_w(eye, center)))
}

/// The true up basis vector.
pub open spec fn basis_v(eye: Vec3, center: Vec3, up: Vec3) -> Vec3 {
    vcross(basis_w(eye, center), basis_u(eye, center, up))
}

/// Invariant of a camera: well-formed fields with the basis derived from
/// eye, target and up hint.
pub open spec fn camera_wf(c: Camera) -> bool {
    &&& v3_wf(c.eye)
    &&& v3_wf(c.center)
    &&& v3_wf(c.up)
    &&& v3_wf(c.u)
    &&& v3_wf(c.v)
    &&& v3_wf(c.w)
    &&& c.w == basis_w(c.eye, c.center)
    &&& c.u == basis_u(c.eye, c.center, c.up)
    &&& c.v == basis_v(c.eye, c.center, c.up)
}

/// The exact world-space direction of a camera-space vector.
pub open spec fn basis_change_spec(c: Camera, d: Vec3) -> Vec3 {
    vadd(vadd(vscale(c.u, d.x as int), vscale(c.v, d.y as int)), vscale(c.w, d.z as int))
}

impl Camera {
    /// Build a camera looking from `eye` toward `center` with the given up
    /// hint.
    pub fn new(eye: Vec3, center: Vec3, up: Vec3) -> (r: Camera)
        requires
            v3_wf(eye),
            v3_wf(center),
            v3_wf(up),
        ensures
            r.eye == eye,
            r.center == center,
            r.up == up,
            camera_wf(r),
    {
        let w: Vec3 = eye.minus(&center).normalized();
        let u: Vec3 = up.cross(&w).normalized();
        let v: Vec3 = w.cross(&u);
        Camera { eye, center, up, u, v, w }
    }

    /// Recompute the basis after the eye or target moved.
    pub fn update_basis(&mut self)
        requires
            v3_wf(old(self).eye),
            v3_wf(old(self).center),
            v3_wf(old(self).up),
        ensures
            final(self).eye == old(self).eye,
            final(self).center == old(self).center,
            final(self).up == old(self).up,
            camera_wf(*final(self)),
    {
        let w: Vec3 = self.eye.minus(&self.center).normalized();
        let u: Vec3 = self.up.cross(&w).normalized();
        let v: Vec3 = w.cross(&u);
        self.w = w;
        self.u = u;
        self.v = v;
    }

    /// Carry a camera-space direction into world space.
    pub fn basis_change(&self, d: &Vec3) -> (r: Vec3)
        requires
            camera_wf(*self),
            v3_wf(*d),
        ensures
            r == basis_change_spec(*self, *d),
            v3_wf(r),
    {
        self.u.scaled(d.x).plus(&self.v.scaled(d.y)).plus(&self.w.scaled(d.z))
    }
}

} // verus!
