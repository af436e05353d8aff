//! Sampling densities over outgoing directions.

use vstd::prelude::*;
use crate::fixed::{Fx, FX_ONE, fx_add, fx_div, fx_mul};
use crate::hittable::{Hittable, spec_pdf_value, spec_hittable_random};
use crate::onb::{Onb, spec_onb_from_w, spec_onb_transform};
use crate::rng::{Rng, spec_next_state, spec_unit_sample};
use crate::trig::FX_TWO_PI;
use crate::vec3::{
    Point3, Vec3, v3_dot, v3_unit, spec_random_cosine_direction, spec_random_unit_vector,
    random_cosine_direction, random_unit_vector,
};

verus! {

/// A cosine-weighted density about a stored basis's `w` axis.
pub struct CosinePdf {
    pub uvw: Onb,
}

/// The uniform density over the whole sphere of directions.
pub struct SpherePdf {}

/// A stateless density: cosine-weighted about an axis, or uniform over
/// the sphere.
pub enum Pdf {
    Cosine(CosinePdf),
    Sphere(SpherePdf),
}

/// The density a strategy assigns to a direction.
pub open spec fn spec_pdf_value_of(p: Pdf, direction: Vec3) -> int {
    match p {
        Pdf::Cosine(c) => {
            let cosine = v3_dot(v3_unit(direction), c.uvw.w);
            if cosine < 0 {
                0
            } else {
                fx_div(cosine, crate::trig::FX_PI as int)
            }
        }
        Pdf::Sphere(_) => fx_div(FX_ONE as int, 2 * FX_TWO_PI as int),
    }
}

/// The direction a strategy draws, with the generator state it leaves.
pub open spec fn spec_pdf_generate(p: Pdf, s0: u64) -> (Vec3, u64) {
    match p {
        Pdf::Cosine(c) => {
            let d = spec_random_cosine_direction(s0);
            (spec_onb_transform(c.uvw, d.0), d.1)
        }
        Pdf::Sphere(_) => spec_random_unit_vector(s0),
    }
}

impl CosinePdf {
    pub fn new(w: &Vec3) -> (r: CosinePdf)
        ensures
            r.uvw == spec_onb_from_w(*w),
    {
        CosinePdf { uvw: Onb::build_from_w(*w) }
    }
}

impl Pdf {
    /// The density of drawing the given direction.
    pub fn value(&self, direction: &Vec3) -> (r: Fx)
        ensures
            r.val() == spec_pdf_value_of(*self, *direction),
    {
        match self {
            Pdf::Cosine(c) => {
                let cosine = direction.unit().dot(c.uvw.w());
                if cosine.raw < 0 {
                    Fx::zero()
                } else {
                    cosine.div(Fx::from_raw(crate::trig::FX_PI))
                }
            }
            Pdf::Sphere(_) => Fx::one().div(Fx::from_raw(2 * FX_TWO_PI)),
        }
    }

    /// Draws a direction.
    pub fn generate(&self, rng: &mut Rng) -> (r: Vec3)
        ensures
            (r, final(rng).state) == spec_pdf_generate(*self, old(rng).state),
    {
        match self {
            Pdf::Cosine(c) => {
                let d = random_cosine_direction(rng);
                c.uvw.transform_vec3(d)
            }
            Pdf::Sphere(_) => random_unit_vector(rng),
        }
    }
}

/// Every direction the cosine strategy generates starts, in the sampling
/// frame, in the upper hemisphere: the local sample's vertical component
/// is never negative.
pub proof fn lemma_cosine_sample_local_up(s0: u64)
    ensures
        spec_random_cosine_direction(s0).0.z.val() >= 0,
{
    let s1 = spec_next_state(s0);
    let s2 = spec_next_state(s1);
    let r2 = spec_unit_sample(s2).val();
    let a = crate::fixed::fx_sub(FX_ONE as int, r2);
    if a > 0 {
        crate::fixed::lemma_sqrt_exists(a * FX_ONE as int);
        let zv = crate::fixed::sqrt_floor(a * FX_ONE as int);
        assert(crate::fixed::fx_sqrt(a) == zv);
        assert(0 <= zv && zv * zv <= a * FX_ONE as int);
        assert(a * FX_ONE as int <= 0x100000000) by (nonlinear_arith)
            requires
                0 < a <= 0x10000,
                FX_ONE as int == 0x10000,
        {}
        assert(zv <= 0x10000) by (nonlinear_arith)
            requires
                zv * zv <= 0x100000000,
                zv >= 0,
        {}
    }
}

/// A sampling density is never negative.
pub proof fn lemma_pdf_value_nonneg(p: Pdf, direction: Vec3)
    ensures
        spec_pdf_value_of(p, direction) >= 0,
{
    match p {
        Pdf::Cosine(c) => {
            let cosine = v3_dot(v3_unit(direction), c.uvw.w);
            if cosine >= 0 {
                assert(crate::fixed::tdiv(cosine * FX_ONE as int, crate::trig::FX_PI as int) >= 0)
                    by (nonlinear_arith)
                    requires
                        cosine >= 0,
                        FX_ONE as int > 0,
                        crate::trig::FX_PI as int > 0,
                {}
            }
        }
        Pdf::Sphere(_) => {
            assert(crate::fixed::tdiv(FX_ONE as int * FX_ONE as int, 2 * FX_TWO_PI as int) >= 0)
                by (nonlinear_arith)
                requires
                    FX_ONE as int > 0,
                    FX_TWO_PI as int > 0,
            {}
        }
    }
}

/// The density of sampling a scene object's surface from a fixed origin.
pub struct HittablePdf<'a> {
    pub obj: &'a Hittable,
    pub origin: Point3,
}

impl<'a> HittablePdf<'a> {
    pub fn new(obj: &'a Hittable, origin: Point3) -> (r: HittablePdf<'a>)
        ensures
            r.obj == obj,
            r.origin == origin,
    {
        HittablePdf { obj, origin }
    }

    pub fn value(&self, direction: &Vec3) -> (r: Fx)
        ensures
            r.val() == spec_pdf_value(*self.obj, self.origin, *direction),
    {
        self.obj.pdf_value(&self.origin, direction)
    }

    pub fn generate(&self, rng: &mut Rng) -> (r: Vec3)
        ensures
            (r, final(rng).state) == spec_hittable_random(*self.obj, self.origin, old(rng).state),
    {
        self.obj.random(&self.origin, rng)
    }
}

/// The even blend of a light-sampling density and a material density: the
/// draw picks either side with probability one half, and the density is
/// the plain average — the same split on both sides, which keeps the
/// blended estimator unbiased.
pub struct MixturePdf<'a> {
    pub light: HittablePdf<'a>,
    pub material: Pdf,
}

pub open spec fn spec_mixture_value(obj: Hittable, origin: Point3, material: Pdf, direction: Vec3)
    -> int {
    fx_add(
        fx_mul(32768, spec_pdf_value(obj, origin, direction)),
        fx_mul(32768, spec_pdf_value_of(material, direction)),
    )
}

pub open spec fn spec_mixture_generate(obj: Hittable, origin: Point3, material: Pdf, s0: u64) -> (
    Vec3,
    u64,
) {
    let s1 = spec_next_state(s0);
    let coin = spec_unit_sample(s1);
    if coin.val() < 32768 {
        spec_hittable_random(obj, origin, s1)
    } else {
        spec_pdf_generate(material, s1)
    }
}

impl<'a> MixturePdf<'a> {
    pub fn new(light: HittablePdf<'a>, material: Pdf) -> (r: MixturePdf<'a>)
        ensures
            r.light == light,
            r.material == material,
    {
        MixturePdf { light, material }
    }

    pub fn value(&self, direction: &Vec3) -> (r: Fx)
        ensures
            r.val() == spec_mixture_value(
                *self.light.obj,
                self.light.origin,
                self.material,
                *direction,
            ),
    {
        let half = Fx::from_raw(32768);
        half.mul(self.light.value(direction)).add(half.mul(self.material.value(direction)))
    }

    pub fn generate(&self, rng: &mut Rng) -> (r: Vec3)
        ensures
            (r, final(rng).state) == spec_mixture_generate(
                *self.light.obj,
                self.light.origin,
                self.material,
                old(rng).state,
            ),
    {
        let coin = rng.random();
        if coin.raw < 32768 {
            self.light.generate(rng)
        } else {
            self.material.generate(rng)
        }
    }
}

} // verus!
