//! A constant-density participating medium inside a boundary object.
//!
//! Whether a ray scatters inside the medium depends on a random free-flight
//! distance drawn per query, so the medium stands outside the deterministic
//! intersection interface: its query takes the sampled distance as an
//! argument, and the caller draws it (for density `d` and a unit sample
//! `u`, the distance is `-ln(u) / d`, which is `neg_inv_density * ln u`).

use vstd::prelude::*;
use crate::fixed::{Fx, FX_INF, fx_add, fx_div, fx_mul, fx_neg, fx_sub};
use crate::hittable::{HitRecord, Hittable, spec_hit};
use crate::interval::Interval;
use crate::ray::Ray;
use crate::vec3::{Vec3, spec_v3, v3_length, fxv};

verus! {

pub struct ConstantMedium {
    pub boundary: Box<Hittable>,
    pub neg_inv_density: Fx,
    /// Index of the phase-function material in the scene's material table.
    pub phase_function: usize,
}

/// Where a ray scatters inside the boundary, given the sampled free-flight
/// distance: the ray's span inside the boundary is clipped to the query
/// window, and the sample must fall within it. Degenerate geometry answers
/// no intersection.
pub open spec fn spec_medium_hit(
    m: ConstantMedium,
    r: Ray,
    lo: int,
    hi: int,
    hit_distance: int,
) -> Option<HitRecord> {
    match spec_hit(*m.boundary, r, -(FX_INF as int), FX_INF as int) {
        Option::None => None,
        Option::Some(rec1) => match spec_hit(
            *m.boundary,
            r,
            fx_add(rec1.t.val(), 7),
            FX_INF as int,
        ) {
            Option::None => None,
            Option::Some(rec2) => {
                let t1a = if rec1.t.val() < lo { lo } else { rec1.t.val() };
                let t2 = if rec2.t.val() > hi { hi } else { rec2.t.val() };
                if t1a >= t2 {
                    None
                } else {
                    let t1 = if t1a < 0 { 0 } else { t1a };
                    let ray_length = v3_length(r.dir);
                    if ray_length == 0 {
                        None
                    } else {
                        let distance_inside = fx_mul(fx_sub(t2, t1), ray_length);
                        if hit_distance > distance_inside {
                            None
                        } else {
                            let t = fx_add(t1, fx_div(hit_distance, ray_length));
                            Option::Some(
                                HitRecord {
                                    p: crate::ray::spec_ray_at(r, t),
                                    normal: spec_v3(crate::fixed::FX_ONE as int, 0, 0),
                                    t: fxv(t),
                                    u: fxv(0),
                                    v: fxv(0),
                                    front_face: true,
                                    mat: m.phase_function,
                                },
                            )
                        }
                    }
                }
            }
        },
    }
}

impl ConstantMedium {
    /// A medium of the given density inside a boundary, scattering with
    /// the given phase-function material.
    ///
    /// A zero density has no reciprocal on the fixed-point grid (the
    /// division that floating point resolves to an infinity is undefined
    /// here), so it is excluded rather than resolved to a sentinel.
    pub fn new(boundary: Box<Hittable>, density: Fx, phase_function: usize) -> (m: ConstantMedium)
        requires
            density.val() != 0,
        ensures
            m.boundary == boundary,
            m.neg_inv_density.val() == fx_neg(fx_div(crate::fixed::FX_ONE as int, density.val())),
            m.phase_function == phase_function,
    {
        ConstantMedium {
            boundary,
            neg_inv_density: Fx::one().div(density).neg(),
            phase_function,
        }
    }

    /// The scattering event for one query, given the sampled free-flight
    /// distance for this ray.
    pub fn hit(&self, r: &Ray, ray_t: Interval, hit_distance: Fx) -> (res: Option<HitRecord>)
        ensures
            res == spec_medium_hit(
                *self,
                *r,
                ray_t.min.val(),
                ray_t.max.val(),
                hit_distance.val(),
            ),
    {
        let rec1 = match self.boundary.hit(r, Interval::universe()) {
            None => {
                return None;
            }
            Some(rec) => rec,
        };
        let rec2 = match self.boundary.hit(
            r,
            Interval::new(rec1.t.add(Fx::from_raw(7)), Fx::infinity()),
        ) {
            None => {
                return None;
            }
            Some(rec) => rec,
        };
        let t1a = if rec1.t.raw < ray_t.min.raw {
            ray_t.min
        } else {
            rec1.t
        };
        let t2 = if rec2.t.raw > ray_t.max.raw {
            ray_t.max
        } else {
            rec2.t
        };
        if t1a.raw >= t2.raw {
            return None;
        }
        let t1 = if t1a.raw < 0 {
            Fx::zero()
        } else {
            t1a
        };
        let ray_length = r.dir.length();
        if ray_length.raw == 0 {
            return None;
        }
        let distance_inside = t2.sub(t1).mul(ray_length);
        if hit_distance.raw > distance_inside.raw {
            return None;
        }
        let t = t1.add(hit_distance.div(ray_length));
        let mut rec = HitRecord::new_default();
        rec.t = t;
        rec.p = r.at(t);
        rec.normal = Vec3 { x: Fx::one(), y: Fx::zero(), z: Fx::zero() };
        rec.front_face = true;
        rec.mat = self.phase_function;
        Some(rec)
    }
}

} // verus!
