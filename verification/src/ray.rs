//! Rays: an origin, a direction, and a shutter time for motion blur.

use vstd::prelude::*;
use crate::fixed::Fx;
use crate::vec3::{Point3, Vec3, v3_add, v3_scale};

verus! {

#[derive(Clone, Copy, Debug, PartialEq, Eq, Structural)]
pub struct Ray {
    pub orig: Point3,
    pub dir: Vec3,
    pub time: Fx,
}

/// The point the ray reaches at parameter `t`: `orig + t * dir`.
pub open spec fn spec_ray_at(r: Ray, t: int) -> Point3 {
    v3_add(r.orig, v3_scale(r.dir, t))
}

impl Ray {
    pub fn new(origin: Point3, direction: Vec3) -> (r: Ray)
        ensures
            r.orig == origin,
            r.dir == direction,
            r.time.val() == 0,
    {
        Ray { orig: origin, dir: direction, time: Fx::zero() }
    }

    pub fn new_with_time(origin: Point3, direction: Vec3, time: Fx) -> (r: Ray)
        ensures
            r == (Ray { orig: origin, dir: direction, time }),
    {
        Ray { orig: origin, dir: direction, time }
    }

    pub fn at(&self, t: Fx) -> (p: Point3)
        ensures
            p == spec_ray_at(*self, t.val()),
    {
        self.orig.add(self.dir.scale(t))
    }
}

} // verus!
