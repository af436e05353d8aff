//! Orthonormal bases for expressing sampled directions about a normal.

use vstd::prelude::*;
use crate::fixed::{Fx, FX_ONE, clip, iabs};
use crate::vec3::{Vec3, v3_add, v3_cross, v3_scale, v3_unit, spec_v3};

verus! {

pub struct Onb {
    pub u: Vec3,
    pub v: Vec3,
    pub w: Vec3,
}

/// An orthonormal basis about a direction `n`: `w` along the
/// direction, the others by cross products with a fixed helper axis.
pub open spec fn spec_onb_from_w(n: Vec3) -> Onb {
    let w = v3_unit(n);
    let a = if clip(iabs(w.x.val())) > 9 * FX_ONE as int / 10 {
        spec_v3(0, FX_ONE as int, 0)
    } else {
        spec_v3(FX_ONE as int, 0, 0)
    };
    let v = v3_unit(v3_cross(w, a));
    let u = v3_cross(w, v);
    Onb { u, v, w }
}

/// A vector with the given coordinates in the basis.
pub open spec fn spec_onb_transform(b: Onb, vec: Vec3) -> Vec3 {
    v3_add(
        v3_add(v3_scale(b.u, vec.x.val()), v3_scale(b.v, vec.y.val())),
        v3_scale(b.w, vec.z.val()),
    )
}

impl Onb {
    pub fn build_from_w(n: Vec3) -> (b: Onb)
        ensures
            b == spec_onb_from_w(n),
    {
        let w = n.unit();
        let a = if w.x.abs().raw > 9 * FX_ONE / 10 {
            Vec3::new(Fx::zero(), Fx::one(), Fx::zero())
        } else {
            Vec3::new(Fx::one(), Fx::zero(), Fx::zero())
        };
        let v = w.cross(a).unit();
        let u = w.cross(v);
        Onb { u, v, w }
    }

    pub fn u(&self) -> (r: Vec3)
        ensures
            r == self.u,
    {
        self.u
    }

    pub fn v(&self) -> (r: Vec3)
        ensures
            r == self.v,
    {
        self.v
    }

    pub fn w(&self) -> (r: Vec3)
        ensures
            r == self.w,
    {
        self.w
    }

    pub fn transform(&self, a: Fx, b: Fx, c: Fx) -> (r: Vec3)
        ensures
            r == spec_onb_transform(*self, Vec3 { x: a, y: b, z: c }),
    {
        self.u.scale(a).add(self.v.scale(b)).add(self.w.scale(c))
    }

    pub fn transform_vec3(&self, vec: Vec3) -> (r: Vec3)
        ensures
            r == spec_onb_transform(*self, vec),
    {
        self.u.scale(vec.x).add(self.v.scale(vec.y)).add(self.w.scale(vec.z))
    }
}

} // verus!
