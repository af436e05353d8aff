//! Three-component fixed-point vectors.

use vstd::prelude::*;
use crate::fixed::{Fx, FX_ONE, fx_add, fx_sub, fx_neg, fx_mul, fx_div, fx_sqrt, clip, iabs};
use crate::rng::{Rng, spec_next_state, spec_unit_sample, spec_range_sample};
use crate::trig::{FX_TWO_PI, spec_sin, spec_cos};

verus! {

/// A vector (or point, or color) with three fixed-point components.
#[derive(Clone, Copy, Debug, PartialEq, Eq, Structural)]
pub struct Vec3 {
    pub x: Fx,
    pub y: Fx,
    pub z: Fx,
}

pub type Point3 = Vec3;

pub type Color = Vec3;

/// The scalar holding a given raw value; spec-level constructor.
pub open spec fn fxv(x: int) -> Fx {
    Fx { raw: x as i64 }
}

pub open spec fn spec_v3(x: int, y: int, z: int) -> Vec3 {
    Vec3 { x: fxv(x), y: fxv(y), z: fxv(z) }
}

/// Every component is nonnegative.
pub open spec fn nonneg_v3(c: Vec3) -> bool {
    c.x.val() >= 0 && c.y.val() >= 0 && c.z.val() >= 0
}

pub open spec fn v3_add(a: Vec3, b: Vec3) -> Vec3 {
    spec_v3(
        fx_add(a.x.val(), b.x.val()),
        fx_add(a.y.val(), b.y.val()),
        fx_add(a.z.val(), b.z.val()),
    )
}

pub open spec fn v3_sub(a: Vec3, b: Vec3) -> Vec3 {
    spec_v3(
        fx_sub(a.x.val(), b.x.val()),
        fx_sub(a.y.val(), b.y.val()),
        fx_sub(a.z.val(), b.z.val()),
    )
}

pub open spec fn v3_neg(a: Vec3) -> Vec3 {
    spec_v3(fx_neg(a.x.val()), fx_neg(a.y.val()), fx_neg(a.z.val()))
}

/// Component-wise (Hadamard) product.
pub open spec fn v3_mul(a: Vec3, b: Vec3) -> Vec3 {
    spec_v3(
        fx_mul(a.x.val(), b.x.val()),
        fx_mul(a.y.val(), b.y.val()),
        fx_mul(a.z.val(), b.z.val()),
    )
}

pub open spec fn v3_scale(a: Vec3, s: int) -> Vec3 {
    spec_v3(
        fx_mul(a.x.val(), s),
        fx_mul(a.y.val(), s),
        fx_mul(a.z.val(), s),
    )
}

pub open spec fn v3_add_s(a: Vec3, s: int) -> Vec3 {
    spec_v3(
        fx_add(a.x.val(), s),
        fx_add(a.y.val(), s),
        fx_add(a.z.val(), s),
    )
}

pub open spec fn v3_sub_s(a: Vec3, s: int) -> Vec3 {
    spec_v3(
        fx_sub(a.x.val(), s),
        fx_sub(a.y.val(), s),
        fx_sub(a.z.val(), s),
    )
}

pub open spec fn v3_div_s(a: Vec3, s: int) -> Vec3
    recommends
        s != 0,
{
    spec_v3(
        fx_div(a.x.val(), s),
        fx_div(a.y.val(), s),
        fx_div(a.z.val(), s),
    )
}

pub open spec fn v3_dot(a: Vec3, b: Vec3) -> int {
    fx_add(
        fx_add(fx_mul(a.x.val(), b.x.val()), fx_mul(a.y.val(), b.y.val())),
        fx_mul(a.z.val(), b.z.val()),
    )
}

pub open spec fn v3_cross(a: Vec3, b: Vec3) -> Vec3 {
    spec_v3(
        fx_sub(fx_mul(a.y.val(), b.z.val()), fx_mul(a.z.val(), b.y.val())),
        fx_sub(fx_mul(a.z.val(), b.x.val()), fx_mul(a.x.val(), b.z.val())),
        fx_sub(fx_mul(a.x.val(), b.y.val()), fx_mul(a.y.val(), b.x.val())),
    )
}

pub open spec fn v3_length_squared(a: Vec3) -> int {
    v3_dot(a, a)
}

pub open spec fn v3_length(a: Vec3) -> int {
    fx_sqrt(v3_length_squared(a))
}

pub open spec fn v3_unit(a: Vec3) -> Vec3 {
    if v3_length(a) == 0 { a } else { v3_div_s(a, v3_length(a)) }
}

impl Vec3 {
    pub fn new(x: Fx, y: Fx, z: Fx) -> (r: Vec3)
        ensures
            r == (Vec3 { x, y, z }),
    {
        Vec3 { x, y, z }
    }

    pub fn origin() -> (r: Vec3)
        ensures
            r == spec_v3(0, 0, 0),
    {
        Vec3 { x: Fx::zero(), y: Fx::zero(), z: Fx::zero() }
    }

    /// The component along the given axis: 0 is x, 1 is y, any other is z.
    pub fn axis(self, n: usize) -> (r: Fx)
        ensures
            r == if n == 0 { self.x } else if n == 1 { self.y } else { self.z },
    {
        if n == 0 {
            self.x
        } else if n == 1 {
            self.y
        } else {
            self.z
        }
    }

    /// A vector with three fresh unit-interval samples as components.
    pub fn random(rng: &mut Rng) -> (r: Vec3)
        ensures
            (r, final(rng).state) == spec_v3_random(old(rng).state),
    {
        let x = rng.random();
        let y = rng.random();
        let z = rng.random();
        Vec3 { x, y, z }
    }

    /// A vector with three fresh samples from `[min, max)` as components.
    pub fn random_range(min: Fx, max: Fx, rng: &mut Rng) -> (r: Vec3)
        ensures
            (r, final(rng).state) == spec_v3_random_range(min, max, old(rng).state),
    {
        let x = rng.random_range(min, max);
        let y = rng.random_range(min, max);
        let z = rng.random_range(min, max);
        Vec3 { x, y, z }
    }

    pub fn add(self, rhs: Vec3) -> (r: Vec3)
        ensures
            r == v3_add(self, rhs),
    {
        Vec3 { x: self.x.add(rhs.x), y: self.y.add(rhs.y), z: self.z.add(rhs.z) }
    }

    pub fn sub(self, rhs: Vec3) -> (r: Vec3)
        ensures
            r == v3_sub(self, rhs),
    {
        Vec3 { x: self.x.sub(rhs.x), y: self.y.sub(rhs.y), z: self.z.sub(rhs.z) }
    }

    pub fn neg(self) -> (r: Vec3)
        ensures
            r == v3_neg(self),
    {
        Vec3 { x: self.x.neg(), y: self.y.neg(), z: self.z.neg() }
    }

    pub fn mul(self, rhs: Vec3) -> (r: Vec3)
        ensures
            r == v3_mul(self, rhs),
    {
        Vec3 { x: self.x.mul(rhs.x), y: self.y.mul(rhs.y), z: self.z.mul(rhs.z) }
    }

    pub fn scale(self, s: Fx) -> (r: Vec3)
        ensures
            r == v3_scale(self, s.val()),
    {
        Vec3 { x: self.x.mul(s), y: self.y.mul(s), z: self.z.mul(s) }
    }

    pub fn add_fx(self, s: Fx) -> (r: Vec3)
        ensures
            r == v3_add_s(self, s.val()),
    {
        Vec3 { x: self.x.add(s), y: self.y.add(s), z: self.z.add(s) }
    }

    pub fn sub_fx(self, s: Fx) -> (r: Vec3)
        ensures
            r == v3_sub_s(self, s.val()),
    {
        Vec3 { x: self.x.sub(s), y: self.y.sub(s), z: self.z.sub(s) }
    }

    pub fn div_fx(self, s: Fx) -> (r: Vec3)
        requires
            s.val() != 0,
        ensures
            r == v3_div_s(self, s.val()),
    {
        Vec3 { x: self.x.div(s), y: self.y.div(s), z: self.z.div(s) }
    }

    pub fn add_assign(&mut self, rhs: Vec3)
        ensures
            *final(self) == v3_add(*old(self), rhs),
    {
        *self = self.add(rhs);
    }

    pub fn add_assign_fx(&mut self, rhs: Fx)
        ensures
            *final(self) == v3_add_s(*old(self), rhs.val()),
    {
        *self = self.add_fx(rhs);
    }

    pub fn sub_assign(&mut self, rhs: Vec3)
        ensures
            *final(self) == v3_sub(*old(self), rhs),
    {
        *self = self.sub(rhs);
    }

    pub fn sub_assign_fx(&mut self, rhs: Fx)
        ensures
            *final(self) == v3_sub_s(*old(self), rhs.val()),
    {
        *self = self.sub_fx(rhs);
    }

    pub fn mul_assign_fx(&mut self, rhs: Fx)
        ensures
            *final(self) == v3_scale(*old(self), rhs.val()),
    {
        *self = self.scale(rhs);
    }

    pub fn div_assign_fx(&mut self, rhs: Fx)
        requires
            rhs.val() != 0,
        ensures
            *final(self) == v3_div_s(*old(self), rhs.val()),
    {
        *self = self.div_fx(rhs);
    }

    pub fn dot(self, other: Vec3) -> (r: Fx)
        ensures
            r.val() == v3_dot(self, other),
    {
        self.x.mul(other.x).add(self.y.mul(other.y)).add(self.z.mul(other.z))
    }

    pub fn cross(self, other: Vec3) -> (r: Vec3)
        ensures
            r == v3_cross(self, other),
    {
        Vec3 {
            x: self.y.mul(other.z).sub(self.z.mul(other.y)),
            y: self.z.mul(other.x).sub(self.x.mul(other.z)),
            z: self.x.mul(other.y).sub(self.y.mul(other.x)),
        }
    }

    pub fn length_squared(self) -> (r: Fx)
        ensures
            r.val() == v3_length_squared(self),
    {
        self.dot(self)
    }

    pub fn length(self) -> (r: Fx)
        ensures
            r.val() == v3_length(self),
    {
        self.length_squared().sqrt()
    }

    /// The vector scaled to unit length; the zero vector is left unchanged.
    pub fn unit(self) -> (r: Vec3)
        ensures
            r == v3_unit(self),
    {
        let len = self.length();
        if len.raw == 0 {
            self
        } else {
            self.div_fx(len)
        }
    }
}

impl PartialOrd for Vec3 {
    /// Component-wise partial order: comparable only when every component
    /// agrees on the direction.
    fn partial_cmp(&self, other: &Self) -> (r: Option<core::cmp::Ordering>) {
        if self.x.raw < other.x.raw && self.y.raw < other.y.raw && self.z.raw < other.z.raw {
            Some(core::cmp::Ordering::Less)
        } else if self.x.raw > other.x.raw && self.y.raw > other.y.raw && self.z.raw
            > other.z.raw {
            Some(core::cmp::Ordering::Greater)
        } else if self.x.raw == other.x.raw && self.y.raw == other.y.raw && self.z.raw
            == other.z.raw {
            Some(core::cmp::Ordering::Equal)
        } else {
            None
        }
    }
}

impl vstd::std_specs::cmp::PartialOrdSpecImpl for Vec3 {
    open spec fn obeys_partial_cmp_spec() -> bool {
        true
    }

    open spec fn partial_cmp_spec(&self, other: &Vec3) -> Option<core::cmp::Ordering> {
        if self.x.val() < other.x.val() && self.y.val() < other.y.val() && self.z.val()
            < other.z.val() {
            Some(core::cmp::Ordering::Less)
        } else if self.x.val() > other.x.val() && self.y.val() > other.y.val() && self.z.val()
            > other.z.val() {
            Some(core::cmp::Ordering::Greater)
        } else if self.x.val() == other.x.val() && self.y.val() == other.y.val() && self.z.val()
            == other.z.val() {
            Some(core::cmp::Ordering::Equal)
        } else {
            None
        }
    }
}

/// Mirror reflection of `v` about the unit normal `n`.
pub open spec fn spec_reflect(v: Vec3, n: Vec3) -> Vec3 {
    v3_sub(v, v3_scale(n, fx_mul(2 * crate::fixed::FX_ONE as int, v3_dot(v, n))))
}

pub fn reflect(v: &Vec3, n: &Vec3) -> (r: Vec3)
    ensures
        r == spec_reflect(*v, *n),
{
    let two = Fx::from_raw(2 * crate::fixed::FX_ONE);
    v.sub(n.scale(two.mul(v.dot(*n))))
}

/// Three draws turned into a vector with unit-interval components.
pub open spec fn spec_v3_random(s0: u64) -> (Vec3, u64) {
    let s1 = spec_next_state(s0);
    let s2 = spec_next_state(s1);
    let s3 = spec_next_state(s2);
    (
        Vec3 {
            x: spec_unit_sample(s1),
            y: spec_unit_sample(s2),
            z: spec_unit_sample(s3),
        },
        s3,
    )
}

/// Three draws turned into a vector with components in `[min, max)`.
pub open spec fn spec_v3_random_range(min: Fx, max: Fx, s0: u64) -> (Vec3, u64) {
    let s1 = spec_next_state(s0);
    let s2 = spec_next_state(s1);
    let s3 = spec_next_state(s2);
    (
        Vec3 {
            x: spec_range_sample(min, max, s1),
            y: spec_range_sample(min, max, s2),
            z: spec_range_sample(min, max, s3),
        },
        s3,
    )
}

/// A point on the unit sphere from two draws: a uniform azimuth and a
/// uniform height.
pub open spec fn spec_random_unit_vector(s0: u64) -> (Vec3, u64) {
    let s1 = spec_next_state(s0);
    let s2 = spec_next_state(s1);
    let a = spec_range_sample(fxv(0), Fx { raw: FX_TWO_PI }, s1).val();
    let z = spec_range_sample(Fx { raw: (-FX_ONE) as i64 }, Fx { raw: FX_ONE }, s2).val();
    let r = fx_sqrt(fx_sub(FX_ONE as int, fx_mul(z, z)));
    (spec_v3(fx_mul(r, spec_cos(a)), fx_mul(r, spec_sin(a)), z), s2)
}

/// A cosine-weighted direction about the z axis from two draws.
pub open spec fn spec_random_cosine_direction(s0: u64) -> (Vec3, u64) {
    let s1 = spec_next_state(s0);
    let s2 = spec_next_state(s1);
    let r1 = spec_unit_sample(s1).val();
    let r2 = spec_unit_sample(s2).val();
    let phi = fx_mul(FX_TWO_PI as int, r1);
    let sq2 = fx_sqrt(r2);
    (
        spec_v3(
            fx_mul(spec_cos(phi), sq2),
            fx_mul(spec_sin(phi), sq2),
            fx_sqrt(fx_sub(FX_ONE as int, r2)),
        ),
        s2,
    )
}

/// Bounded rejection sampling inside the unit ball; when every attempt in
/// the budget falls outside, the center is returned.
pub open spec fn spec_random_in_unit_sphere(s0: u64, fuel: nat) -> (Vec3, u64)
    decreases fuel,
{
    if fuel == 0 {
        (spec_v3(0, 0, 0), s0)
    } else {
        let pr = spec_v3_random_range(Fx { raw: (-FX_ONE) as i64 }, Fx { raw: FX_ONE }, s0);
        if v3_length_squared(pr.0) < FX_ONE as int {
            pr
        } else {
            spec_random_in_unit_sphere(pr.1, (fuel - 1) as nat)
        }
    }
}

/// Bounded rejection sampling inside the unit disk in the xy plane; when
/// every attempt in the budget falls outside, the center is returned.
pub open spec fn spec_random_in_unit_disk(s0: u64, fuel: nat) -> (Vec3, u64)
    decreases fuel,
{
    if fuel == 0 {
        (spec_v3(0, 0, 0), s0)
    } else {
        let s1 = spec_next_state(s0);
        let s2 = spec_next_state(s1);
        let p = Vec3 {
            x: spec_range_sample(Fx { raw: (-FX_ONE) as i64 }, Fx { raw: FX_ONE }, s1),
            y: spec_range_sample(Fx { raw: (-FX_ONE) as i64 }, Fx { raw: FX_ONE }, s2),
            z: fxv(0),
        };
        if v3_length_squared(p) < FX_ONE as int {
            (p, s2)
        } else {
            spec_random_in_unit_disk(s2, (fuel - 1) as nat)
        }
    }
}

/// A direction toward a sphere of the given radius at the given squared
/// distance, sampled uniformly over the subtended solid angle; a
/// degenerate distance gives the axis direction.
pub open spec fn spec_random_to_sphere(radius: Fx, distance_squared: Fx, s0: u64) -> (Vec3, u64) {
    if distance_squared.val() <= 0 {
        (spec_v3(0, 0, FX_ONE as int), s0)
    } else {
        let s1 = spec_next_state(s0);
        let s2 = spec_next_state(s1);
        let r1 = spec_unit_sample(s1).val();
        let r2 = spec_unit_sample(s2).val();
        let cos_max = fx_sqrt(
            fx_sub(
                FX_ONE as int,
                fx_div(fx_mul(radius.val(), radius.val()), distance_squared.val()),
            ),
        );
        let z = fx_add(FX_ONE as int, fx_mul(r2, fx_sub(cos_max, FX_ONE as int)));
        let phi = fx_mul(FX_TWO_PI as int, r1);
        let sz = fx_sqrt(fx_sub(FX_ONE as int, fx_mul(z, z)));
        (spec_v3(fx_mul(spec_cos(phi), sz), fx_mul(spec_sin(phi), sz), z), s2)
    }
}

pub fn random_unit_vector(rng: &mut Rng) -> (r: Vec3)
    ensures
        (r, final(rng).state) == spec_random_unit_vector(old(rng).state),
{
    let a = rng.random_range(Fx::zero(), Fx::from_raw(FX_TWO_PI));
    let z = rng.random_range(Fx::from_raw(-FX_ONE), Fx::one());
    let r = Fx::one().sub(z.mul(z)).sqrt();
    Vec3 {
        x: r.mul(crate::trig::cos(a)),
        y: r.mul(crate::trig::sin(a)),
        z,
    }
}

pub fn random_cosine_direction(rng: &mut Rng) -> (r: Vec3)
    ensures
        (r, final(rng).state) == spec_random_cosine_direction(old(rng).state),
{
    let r1 = rng.random();
    let r2 = rng.random();
    let phi = Fx::from_raw(FX_TWO_PI).mul(r1);
    let sq2 = r2.sqrt();
    Vec3 {
        x: crate::trig::cos(phi).mul(sq2),
        y: crate::trig::sin(phi).mul(sq2),
        z: Fx::one().sub(r2).sqrt(),
    }
}

fn random_in_unit_sphere_fueled(rng: &mut Rng, fuel: u32) -> (r: Vec3)
    ensures
        (r, final(rng).state) == spec_random_in_unit_sphere(old(rng).state, fuel as nat),
    decreases fuel,
{
    if fuel == 0 {
        Vec3::origin()
    } else {
        let p = Vec3::random_range(Fx::from_raw(-FX_ONE), Fx::one(), rng);
        if p.length_squared().raw < FX_ONE {
            p
        } else {
            random_in_unit_sphere_fueled(rng, fuel - 1)
        }
    }
}

pub fn random_in_unit_sphere(rng: &mut Rng) -> (r: Vec3)
    ensures
        (r, final(rng).state) == spec_random_in_unit_sphere(old(rng).state, 32),
{
    random_in_unit_sphere_fueled(rng, 32)
}

fn random_in_unit_disk_fueled(rng: &mut Rng, fuel: u32) -> (r: Vec3)
    ensures
        (r, final(rng).state) == spec_random_in_unit_disk(old(rng).state, fuel as nat),
    decreases fuel,
{
    if fuel == 0 {
        Vec3::origin()
    } else {
        let x = rng.random_range(Fx::from_raw(-FX_ONE), Fx::one());
        let y = rng.random_range(Fx::from_raw(-FX_ONE), Fx::one());
        let p = Vec3 { x, y, z: Fx::zero() };
        if p.length_squared().raw < FX_ONE {
            p
        } else {
            random_in_unit_disk_fueled(rng, fuel - 1)
        }
    }
}

pub fn random_in_unit_disk(rng: &mut Rng) -> (r: Vec3)
    ensures
        (r, final(rng).state) == spec_random_in_unit_disk(old(rng).state, 32),
{
    random_in_unit_disk_fueled(rng, 32)
}

pub fn random_to_sphere(radius: Fx, distance_squared: Fx, rng: &mut Rng) -> (r: Vec3)
    ensures
        (r, final(rng).state) == spec_random_to_sphere(radius, distance_squared, old(rng).state),
{
    if distance_squared.raw <= 0 {
        Vec3 { x: Fx::zero(), y: Fx::zero(), z: Fx::one() }
    } else {
        let r1 = rng.random();
        let r2 = rng.random();
        let cos_max = Fx::one().sub(radius.mul(radius).div(distance_squared)).sqrt();
        let z = Fx::one().add(r2.mul(cos_max.sub(Fx::one())));
        let phi = Fx::from_raw(FX_TWO_PI).mul(r1);
        let sz = Fx::one().sub(z.mul(z)).sqrt();
        Vec3 {
            x: crate::trig::cos(phi).mul(sz),
            y: crate::trig::sin(phi).mul(sz),
            z,
        }
    }
}

/// Snell refraction of the unit vector `uv` at unit normal `n`.
pub open spec fn spec_refract(uv: Vec3, n: Vec3, etai_over_etat: int) -> Vec3 {
    let cos_theta = fx_neg(v3_dot(uv, n));
    let r_out_perp = v3_scale(v3_add(uv, v3_scale(n, cos_theta)), etai_over_etat);
    let k = fx_sub(crate::fixed::FX_ONE as int, v3_length_squared(r_out_perp));
    let r_out_parallel = v3_scale(n, fx_neg(fx_sqrt(k)));
    v3_add(r_out_perp, r_out_parallel)
}

pub fn refract(uv: &Vec3, n: &Vec3, etai_over_etat: Fx) -> (r: Vec3)
    ensures
        r == spec_refract(*uv, *n, etai_over_etat.val()),
{
    let cos_theta = uv.dot(*n).neg();
    let r_out_perp = uv.add(n.scale(cos_theta)).scale(etai_over_etat);
    let k = Fx::one().sub(r_out_perp.length_squared());
    let r_out_parallel = n.scale(k.sqrt().neg());
    r_out_perp.add(r_out_parallel)
}

} // verus!
