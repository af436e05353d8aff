//! Spheres, stationary or moving linearly over the shutter interval.
//!
//! The query ends with the box guard described in the intersectable
//! module: a root whose exact ray point falls outside the sphere's stored
//! box — possible only within a grid unit of a box face, from truncation —
//! resolves to "no intersection".

use vstd::prelude::*;
use crate::aabb::{Aabb, spec_point_in_box, spec_pad, spec_box_from_points, spec_box_union};
use crate::fixed::{Fx, fx_add, fx_sub, fx_mul, fx_div, fx_sqrt, fx_neg};
use crate::hittable::{HitRecord, spec_face_normal};
use crate::interval::Interval;
use crate::ray::Ray;
use crate::vec3::{Point3, Vec3, v3_add, v3_sub, v3_scale, v3_dot, v3_div_s, v3_length_squared, spec_v3};

verus! {

pub struct Sphere {
    pub center1: Point3,
    pub radius: Fx,
    /// Index of the material in the scene's material table.
    pub mat: usize,
    pub is_moving: bool,
    pub center_vec: Vec3,
    pub bbox: Aabb,
}

/// The sphere's center at a ray time: stationary spheres ignore the time,
/// moving spheres interpolate linearly.
pub open spec fn spec_sphere_center(s: Sphere, time: int) -> Point3 {
    if s.is_moving {
        v3_add(s.center1, v3_scale(s.center_vec, time))
    } else {
        s.center1
    }
}

/// The surface parameterization of a point on the unit sphere, from the
/// outward normal: `u` from the azimuth, `v` from the polar angle, both
/// in `[0, 1]`.
pub open spec fn spec_sphere_uv(p: Vec3) -> (int, int) {
    let theta = crate::trig::spec_acos(fx_neg(p.y.val()));
    let phi = fx_add(
        crate::trig::spec_atan2(fx_neg(p.z.val()), p.x.val()),
        crate::trig::FX_PI as int,
    );
    (
        fx_div(phi, crate::trig::FX_TWO_PI as int),
        fx_div(theta, crate::trig::FX_PI as int),
    )
}

/// The closed-form quadratic intersection, on fixed-point
/// arithmetic, followed by the box guard: a reported hit's exact rational
/// point always lies inside the sphere's stored box.
pub open spec fn spec_sphere_hit(s: Sphere, r: Ray, lo: int, hi: int) -> Option<HitRecord> {
    let center = spec_sphere_center(s, r.time.val());
    let oc = v3_sub(center, r.orig);
    let a = v3_length_squared(r.dir);
    let h = v3_dot(r.dir, oc);
    let c = fx_sub(v3_length_squared(oc), fx_mul(s.radius.val(), s.radius.val()));
    let disc = fx_sub(fx_mul(h, h), fx_mul(a, c));
    if a == 0 || s.radius.val() == 0 || disc < 0 {
        None
    } else {
        let sqrtd = fx_sqrt(disc);
        let root1 = fx_div(fx_sub(h, sqrtd), a);
        let root2 = fx_div(fx_add(h, sqrtd), a);
        let root = if lo < root1 < hi {
            Option::Some(root1)
        } else if lo < root2 < hi {
            Option::Some(root2)
        } else {
            Option::<int>::None
        };
        match root {
            Option::None => None,
            Option::Some(t) => {
                let p = crate::ray::spec_ray_at(r, t);
                let outward = v3_div_s(v3_sub(p, center), s.radius.val());
                let fn_pair = spec_face_normal(r, outward);
                let uv = spec_sphere_uv(outward);
                let rec = HitRecord {
                    p,
                    normal: fn_pair.1,
                    t: crate::vec3::fxv(t),
                    u: crate::vec3::fxv(uv.0),
                    v: crate::vec3::fxv(uv.1),
                    front_face: fn_pair.0,
                    mat: s.mat,
                };
                if spec_point_in_box(s.bbox, r, t) {
                    Option::Some(rec)
                } else {
                    None
                }
            }
        }
    }
}

/// The law behind the quadratic test, on exact integers: the discriminant
/// `h^2 - a c` of `|o + t d - center|^2 = r^2` equals `a r^2 - |d x oc|^2`
/// (Lagrange's identity). Since `|d x oc|^2` is `a` times the squared
/// closest distance of the ray's line to the center, a line passing
/// closer than the radius makes the discriminant positive (two real
/// roots) and one passing farther makes it negative (no roots).
#[verifier::rlimit(100)]
pub proof fn lemma_sphere_two_roots(
    dx: int,
    dy: int,
    dz: int,
    ox: int,
    oy: int,
    oz: int,
    rr: int,
)
    ensures
        ({
            let a = dx * dx + dy * dy + dz * dz;
            let h = dx * ox + dy * oy + dz * oz;
            let c = ox * ox + oy * oy + oz * oz - rr * rr;
            let cross_sq = (dy * oz - dz * oy) * (dy * oz - dz * oy) + (dz * ox - dx * oz) * (dz
                * ox - dx * oz) + (dx * oy - dy * ox) * (dx * oy - dy * ox);
            h * h - a * c == a * (rr * rr) - cross_sq
        }),
{
    let a = dx * dx + dy * dy + dz * dz;
    let h = dx * ox + dy * oy + dz * oz;
    let osq = ox * ox + oy * oy + oz * oz;
    let cross_sq = (dy * oz - dz * oy) * (dy * oz - dz * oy) + (dz * ox - dx * oz) * (dz * ox - dx
        * oz) + (dx * oy - dy * ox) * (dx * oy - dy * ox);
    lemma_sq_sub(dy * oz, dz * oy);
    lemma_sq_sub(dz * ox, dx * oz);
    lemma_sq_sub(dx * oy, dy * ox);
    lemma_tri_sq(dx * ox, dy * oy, dz * oz);
    lemma_pair_swap(dy, oz, dy, oz);
    lemma_pair_swap(dz, oy, dz, oy);
    lemma_pair_swap(dz, ox, dz, ox);
    lemma_pair_swap(dx, oz, dx, oz);
    lemma_pair_swap(dx, oy, dx, oy);
    lemma_pair_swap(dy, ox, dy, ox);
    lemma_pair_swap(dy, oz, dz, oy);
    lemma_pair_swap(dz, ox, dx, oz);
    lemma_pair_swap(dx, oy, dy, ox);
    lemma_pair_swap(dx, ox, dy, oy);
    lemma_pair_swap(dx, ox, dz, oz);
    lemma_pair_swap(dy, oy, dz, oz);
    lemma_pair_swap(dx, ox, dx, ox);
    lemma_pair_swap(dy, oy, dy, oy);
    lemma_pair_swap(dz, oz, dz, oz);
    lemma_mul_comm(oz, oy);
    lemma_mul_comm(ox, oz);
    lemma_mul_comm(oy, ox);
    lemma_mul_comm(dz, dx);
    lemma_mul_pairs(dx, dy, dz, ox, oy, oz);
    assert(h * h + cross_sq == a * osq);
    assert(a * (osq - rr * rr) == a * osq - a * (rr * rr)) by (nonlinear_arith);
}

/// A squared difference expands into monomials.
proof fn lemma_sq_sub(u: int, v: int)
    ensures
        (u - v) * (u - v) == u * u - 2 * (u * v) + v * v,
{
    assert((u - v) * (u - v) == u * u - 2 * (u * v) + v * v) by (nonlinear_arith);
}

/// A squared three-term sum expands into monomials.
proof fn lemma_tri_sq(p: int, q: int, s: int)
    ensures
        (p + q + s) * (p + q + s) == p * p + q * q + s * s + 2 * (p * q) + 2 * (p * s) + 2 * (q
            * s),
{
    assert((p + q + s) * (p + q + s) == p * p + q * q + s * s + 2 * (p * q) + 2 * (p * s) + 2 * (q
        * s)) by (nonlinear_arith);
}

/// Multiplication commutes.
proof fn lemma_mul_comm(p: int, q: int)
    ensures
        p * q == q * p,
{
}

/// Products of pairs regroup by factor.
proof fn lemma_pair_swap(p: int, q: int, s: int, t: int)
    ensures
        (p * q) * (s * t) == (p * s) * (q * t),
{
    assert((p * q) * (s * t) == (p * s) * (q * t)) by (nonlinear_arith);
}

/// A product of three-term sums expands into the nine pair products.
proof fn lemma_mul_pairs(dx: int, dy: int, dz: int, ox: int, oy: int, oz: int)
    ensures
        (dx * dx + dy * dy + dz * dz) * (ox * ox + oy * oy + oz * oz) == (dx * dx) * (ox * ox) + (
        dx * dx) * (oy * oy) + (dx * dx) * (oz * oz) + (dy * dy) * (ox * ox) + (dy * dy) * (oy
            * oy) + (dy * dy) * (oz * oz) + (dz * dz) * (ox * ox) + (dz * dz) * (oy * oy) + (dz
            * dz) * (oz * oz),
{
    let p = dx * dx;
    let q = dy * dy;
    let s = dz * dz;
    let b = ox * ox + oy * oy + oz * oz;
    assert((p + q + s) * b == p * b + q * b + s * b) by (nonlinear_arith);
    assert(p * b == p * (ox * ox) + p * (oy * oy) + p * (oz * oz)) by (nonlinear_arith)
        requires
            b == ox * ox + oy * oy + oz * oz,
    {}
    assert(q * b == q * (ox * ox) + q * (oy * oy) + q * (oz * oz)) by (nonlinear_arith)
        requires
            b == ox * ox + oy * oy + oz * oz,
    {}
    assert(s * b == s * (ox * ox) + s * (oy * oy) + s * (oz * oz)) by (nonlinear_arith)
        requires
            b == ox * ox + oy * oy + oz * oz,
    {}
}

impl Sphere {
    /// The texture coordinates at an outward unit normal.
    pub fn get_sphere_uv(p: &Point3) -> (uv: (Fx, Fx))
        ensures
            uv.0.val() == spec_sphere_uv(*p).0,
            uv.1.val() == spec_sphere_uv(*p).1,
    {
        let theta = crate::trig::acos(p.y.neg());
        let phi = crate::trig::atan2(p.z.neg(), p.x).add(Fx::from_raw(crate::trig::FX_PI));
        (
            phi.div(Fx::from_raw(crate::trig::FX_TWO_PI)),
            theta.div(Fx::from_raw(crate::trig::FX_PI)),
        )
    }

    /// A stationary sphere.
    pub fn new(center1: Point3, radius: Fx, mat: usize) -> (s: Sphere)
        ensures
            s.center1 == center1,
            s.radius == radius,
            s.mat == mat,
            !s.is_moving,
            s.bbox == spec_pad(
                spec_box_from_points(
                    v3_sub(center1, spec_v3(radius.val(), radius.val(), radius.val())),
                    v3_add(center1, spec_v3(radius.val(), radius.val(), radius.val())),
                ),
            ),
    {
        let rvec = Vec3::new(radius, radius, radius);
        let bbox = Aabb::new_with_points(center1.sub(rvec), center1.add(rvec));
        Sphere { center1, radius, mat, is_moving: false, center_vec: center1, bbox }
    }

    /// A sphere moving linearly from `center1` to `center2` over the
    /// shutter interval; its box covers both end positions.
    pub fn new_with_moving_sphere(center1: Point3, center2: Point3, radius: Fx, mat: usize) -> (s:
        Sphere)
        ensures
            s.center1 == center1,
            s.radius == radius,
            s.mat == mat,
            s.is_moving,
            s.center_vec == v3_sub(center2, center1),
    {
        let rvec = Vec3::new(radius, radius, radius);
        let box1 = Aabb::new_with_points(center1.sub(rvec), center1.add(rvec));
        let box2 = Aabb::new_with_points(center2.sub(rvec), center2.add(rvec));
        Sphere {
            center1,
            radius,
            mat,
            is_moving: true,
            center_vec: center2.sub(center1),
            bbox: Aabb::from_boxes(box1, box2),
        }
    }

    pub fn sphere_center(&self, time: Fx) -> (c: Point3)
        ensures
            c == spec_sphere_center(*self, time.val()),
    {
        if self.is_moving {
            self.center1.add(self.center_vec.scale(time))
        } else {
            self.center1
        }
    }

    pub fn hit(&self, r: &Ray, ray_t: Interval) -> (res: Option<HitRecord>)
        ensures
            res == spec_sphere_hit(*self, *r, ray_t.min.val(), ray_t.max.val()),
    {
        let center = self.sphere_center(r.time);
        let oc = center.sub(r.orig);
        let a = r.dir.length_squared();
        let h = r.dir.dot(oc);
        let c = oc.length_squared().sub(self.radius.mul(self.radius));
        let disc = h.mul(h).sub(a.mul(c));
        if a.raw == 0 || self.radius.raw == 0 || disc.raw < 0 {
            return None;
        }
        let sqrtd = disc.sqrt();
        let root1 = h.sub(sqrtd).div(a);
        let root2 = h.add(sqrtd).div(a);
        let root: Fx;
        if ray_t.surrounds(root1) {
            root = root1;
        } else if ray_t.surrounds(root2) {
            root = root2;
        } else {
            return None;
        }
        let p = r.at(root);
        let outward = p.sub(center).div_fx(self.radius);
        let uv = Sphere::get_sphere_uv(&outward);
        let mut rec = HitRecord::new_default();
        rec.t = root;
        rec.p = p;
        rec.u = uv.0;
        rec.v = uv.1;
        rec.mat = self.mat;
        rec.set_face_normal(r, &outward);
        if self.bbox.contains_at(r, root) {
            Some(rec)
        } else {
            None
        }
    }

    /// The density of sampling a given direction toward this sphere from
    /// an origin: the reciprocal of the subtended solid angle when the
    /// probe ray hits, zero otherwise or in degenerate positions.
    pub fn pdf_value(&self, origin: &Point3, v: &Vec3) -> (res: Fx)
        ensures
            res.val() == crate::hittable::spec_sphere_pdf_value(*self, *origin, *v),
    {
        let probe = Ray::new(*origin, *v);
        let window = Interval::new(
            Fx::from_raw(crate::hittable::FX_T_MIN),
            Fx::infinity(),
        );
        match self.hit(&probe, window) {
            None => Fx::zero(),
            Some(_) => {
                let dsq = self.center1.sub(*origin).length_squared();
                if dsq.raw == 0 {
                    return Fx::zero();
                }
                let cos_theta_max = Fx::one().sub(self.radius.mul(self.radius).div(dsq)).sqrt();
                let solid_angle = Fx::from_raw(crate::trig::FX_TWO_PI).mul(
                    Fx::one().sub(cos_theta_max),
                );
                if solid_angle.raw == 0 {
                    Fx::zero()
                } else {
                    Fx::one().div(solid_angle)
                }
            }
        }
    }

    /// A direction from the origin toward a point sampled uniformly over
    /// the sphere's subtended solid angle.
    pub fn random(&self, origin: &Vec3, rng: &mut crate::rng::Rng) -> (res: Vec3)
        ensures
            (res, final(rng).state) == crate::hittable::spec_hittable_random(
                crate::hittable::Hittable::Sphere(*self),
                *origin,
                old(rng).state,
            ),
    {
        let direction = self.center1.sub(*origin);
        let dsq = direction.length_squared();
        let uvw = crate::onb::Onb::build_from_w(direction);
        let sampled = crate::vec3::random_to_sphere(self.radius, dsq, rng);
        uvw.transform_vec3(sampled)
    }
}

} // verus!
