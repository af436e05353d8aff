//! The unordered list composite: a linear scan that keeps the closest hit.

use vstd::prelude::*;
use crate::aabb::Aabb;
use crate::fixed::Fx;
use crate::hittable::{
    HitRecord, Hittable, spec_bounding_box, spec_hit, spec_list_box, spec_list_hit_from,
};
use crate::interval::Interval;
use crate::ray::Ray;

verus! {

pub struct HittableList {
    pub objects: Vec<Hittable>,
}

impl HittableList {
    pub fn new() -> (r: HittableList)
        ensures
            r.objects@.len() == 0,
    {
        HittableList { objects: Vec::new() }
    }

    pub fn new_with_object(object: Hittable) -> (r: HittableList)
        ensures
            r.objects@ =~= seq![object],
    {
        let mut list = HittableList::new();
        list.add(object);
        list
    }

    pub fn add(&mut self, object: Hittable)
        ensures
            final(self).objects@ =~= old(self).objects@.push(object),
    {
        self.objects.push(object);
    }

    pub fn clear(&mut self)
        ensures
            final(self).objects@.len() == 0,
    {
        self.objects.clear();
    }

    /// Scans every member, narrowing the window's upper bound to the best
    /// parameter found so far, and returns the closest accepted hit.
    pub fn hit(&self, r: &Ray, ray_t: Interval) -> (res: Option<HitRecord>)
        ensures
            res == spec_list_hit_from(*self, 0, *r, ray_t.min.val(), ray_t.max.val(), None),
        decreases *self, 1int,
    {
        let mut best: Option<HitRecord> = None;
        let n = self.objects.len();
        let mut i: usize = 0;
        while i < n
            invariant
                n == self.objects@.len(),
                0 <= i <= n,
                spec_list_hit_from(*self, 0, *r, ray_t.min.val(), ray_t.max.val(), None)
                    == spec_list_hit_from(*self, i as int, *r, ray_t.min.val(), ray_t.max.val(), best),
            decreases n - i,
        {
            let cur_hi = match best {
                Some(b) => b.t,
                None => ray_t.max,
            };
            let child = self.objects[i].hit(r, Interval::new(ray_t.min, cur_hi));
            match child {
                Some(c) => {
                    best = Some(c);
                }
                None => {}
            }
            i = i + 1;
        }
        best
    }

    /// The unweighted average of the members' sampling densities.
    pub fn pdf_value(&self, origin: &crate::vec3::Point3, v: &crate::vec3::Vec3) -> (res: Fx)
        ensures
            res.val() == crate::hittable::spec_pdf_value(
                crate::hittable::Hittable::List(*self),
                *origin,
                *v,
            ),
        decreases *self, 1int,
    {
        let n = self.objects.len();
        if n == 0 {
            return Fx::zero();
        }
        let wdenom = Fx::from_usize(n);
        proof {
            assert(wdenom.val() >= crate::fixed::FX_ONE as int);
        }
        let weight = Fx::one().div(wdenom);
        let mut acc = Fx::zero();
        let mut i: usize = 0;
        while i < n
            invariant
                n == self.objects@.len(),
                n >= 1,
                0 <= i <= n,
                weight.val() == crate::fixed::fx_div(
                    crate::fixed::FX_ONE as int,
                    crate::fixed::clip(n as int * crate::fixed::FX_ONE as int),
                ),
                crate::hittable::spec_list_pdf_from(*self, 0, *origin, *v, weight.val(), 0)
                    == crate::hittable::spec_list_pdf_from(
                    *self,
                    i as int,
                    *origin,
                    *v,
                    weight.val(),
                    acc.val(),
                ),
            decreases n - i,
        {
            let child = self.objects[i].pdf_value(origin, v);
            acc = acc.add(weight.mul(child));
            i = i + 1;
        }
        acc
    }

    /// A direction toward a uniformly chosen member.
    pub fn random(&self, origin: &crate::vec3::Vec3, rng: &mut crate::rng::Rng) -> (res:
        crate::vec3::Vec3)
        ensures
            (res, final(rng).state) == crate::hittable::spec_hittable_random(
                crate::hittable::Hittable::List(*self),
                *origin,
                old(rng).state,
            ),
        decreases *self, 1int,
    {
        let n = self.objects.len();
        if n == 0 || n > 0x7fffffff {
            return crate::vec3::Vec3 { x: Fx::one(), y: Fx::zero(), z: Fx::zero() };
        }
        let idx = rng.random_int(0, (n - 1) as i32);
        self.objects[idx as usize].random(origin, rng)
    }

    /// The union of the members' boxes; an empty list reports the empty box.
    pub fn bounding_box(&self) -> (res: Aabb)
        ensures
            res == spec_list_box(*self, 0),
        decreases *self, 1int,
    {
        let n = self.objects.len();
        let mut i: usize = n;
        let mut acc = Aabb::new_with_empty();
        while i > 0
            invariant
                n == self.objects@.len(),
                0 <= i <= n,
                acc == spec_list_box(*self, i as int),
            decreases i,
        {
            i = i - 1;
            acc = Aabb::from_boxes(self.objects[i].bounding_box(), acc);
        }
        acc
    }
}

} // verus!
