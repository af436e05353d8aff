//! Planar parallelograms.
//!
//! The query ends with the box guard described in the intersectable
//! module: a plane crossing whose exact ray point falls outside the quad's
//! stored box — possible only within a grid unit of a box face, from
//! truncation — resolves to "no intersection".

use vstd::prelude::*;
use crate::aabb::{Aabb, spec_point_in_box, spec_pad, spec_box_from_points, spec_box_union};
use crate::fixed::{Fx, FX_ONE, fx_sub, fx_div, fx_mul, iabs};
use crate::hittable::{HitRecord, spec_face_normal};
use crate::interval::Interval;
use crate::ray::Ray;
use crate::vec3::{
    Point3, Vec3, v3_add, v3_sub, v3_dot, v3_cross, v3_div_s, v3_unit, v3_length,
    v3_length_squared,
};

verus! {

pub struct Quad {
    pub q: Point3,
    pub u: Vec3,
    pub v: Vec3,
    pub w: Vec3,
    /// Index of the material in the scene's material table.
    pub mat: usize,
    pub bbox: Aabb,
    pub normal: Vec3,
    pub d: Fx,
    pub area: Fx,
}

/// The plane basis vector `w = n / (n . n)` used to express a hit point in
/// the quad's own coordinates; a degenerate quad gets the zero vector.
pub open spec fn spec_quad_w(n: Vec3) -> Vec3 {
    if v3_length_squared(n) == 0 {
        crate::vec3::spec_v3(0, 0, 0)
    } else {
        v3_div_s(n, v3_length_squared(n))
    }
}

/// Ray/plane intersection, the interior test on the planar coordinates,
/// then the box guard.
pub open spec fn spec_quad_hit(q: Quad, r: Ray, lo: int, hi: int) -> Option<HitRecord> {
    let denom = v3_dot(q.normal, r.dir);
    if denom == 0 {
        None
    } else {
        let t = fx_div(fx_sub(q.d.val(), v3_dot(q.normal, r.orig)), denom);
        if !(lo <= t <= hi) {
            None
        } else {
            let intersection = crate::ray::spec_ray_at(r, t);
            let planar = v3_sub(intersection, q.q);
            let alpha = v3_dot(q.w, v3_cross(planar, q.v));
            let beta = v3_dot(q.w, v3_cross(q.u, planar));
            if !(0 <= alpha <= FX_ONE as int) || !(0 <= beta <= FX_ONE as int) {
                None
            } else {
                let fn_pair = spec_face_normal(r, q.normal);
                let rec = HitRecord {
                    p: intersection,
                    normal: fn_pair.1,
                    t: crate::vec3::fxv(t),
                    u: crate::vec3::fxv(alpha),
                    v: crate::vec3::fxv(beta),
                    front_face: fn_pair.0,
                    mat: q.mat,
                };
                if spec_point_in_box(q.bbox, r, t) {
                    Option::Some(rec)
                } else {
                    None
                }
            }
        }
    }
}

/// The fields a parallelogram is built with: plane basis, normal, offset,
/// area and bounding box, all derived from corner and edges.
pub open spec fn spec_quad_new(q: Point3, u: Vec3, v: Vec3, mat: usize) -> Quad {
    let n = v3_cross(u, v);
    Quad {
        q,
        u,
        v,
        w: spec_quad_w(n),
        mat,
        bbox: spec_pad(
            spec_box_union(
                spec_pad(spec_box_from_points(q, v3_add(v3_add(q, u), v))),
                spec_pad(spec_box_from_points(v3_add(q, u), v3_add(q, v))),
            ),
        ),
        normal: v3_unit(n),
        d: crate::vec3::fxv(v3_dot(v3_unit(n), q)),
        area: crate::vec3::fxv(v3_length(n)),
    }
}

impl Quad {
    /// A parallelogram with corner `q` and edge vectors `u`, `v`.
    pub fn new(q: Point3, u: Vec3, v: Vec3, mat: usize) -> (res: Quad)
        ensures
            res == spec_quad_new(q, u, v, mat),
    {
        let n = u.cross(v);
        let normal = n.unit();
        let d = normal.dot(q);
        let lsq = n.length_squared();
        let w = if lsq.raw == 0 {
            Vec3::origin()
        } else {
            n.div_fx(lsq)
        };
        let area = n.length();
        let bbox_diagonal1 = Aabb::new_with_points(q, q.add(u).add(v));
        let bbox_diagonal2 = Aabb::new_with_points(q.add(u), q.add(v));
        let mut bbox = Aabb::from_boxes(bbox_diagonal1, bbox_diagonal2);
        bbox.pad_to_minimums();
        Quad { q, u, v, w, mat, bbox, normal, d, area }
    }

    pub fn hit(&self, r: &Ray, ray_t: Interval) -> (res: Option<HitRecord>)
        ensures
            res == spec_quad_hit(*self, *r, ray_t.min.val(), ray_t.max.val()),
    {
        let denom = self.normal.dot(r.dir);
        if denom.raw == 0 {
            return None;
        }
        let t = self.d.sub(self.normal.dot(r.orig)).div(denom);
        if !ray_t.contains(t) {
            return None;
        }
        let intersection = r.at(t);
        let planar = intersection.sub(self.q);
        let alpha = self.w.dot(planar.cross(self.v));
        let beta = self.w.dot(self.u.cross(planar));
        let unit = Interval::new(Fx::zero(), Fx::one());
        if !unit.contains(alpha) || !unit.contains(beta) {
            return None;
        }
        let mut rec = HitRecord::new_default();
        rec.t = t;
        rec.p = intersection;
        rec.u = alpha;
        rec.v = beta;
        rec.mat = self.mat;
        rec.set_face_normal(r, &self.normal);
        if self.bbox.contains_at(r, t) {
            Some(rec)
        } else {
            None
        }
    }

    /// The density of sampling a given direction toward this quad from an
    /// origin: squared distance over the projected area when the probe ray
    /// hits, zero otherwise or in degenerate positions.
    pub fn pdf_value(&self, origin: &Point3, direction: &Vec3) -> (res: Fx)
        ensures
            res.val() == crate::hittable::spec_quad_pdf_value(*self, *origin, *direction),
    {
        let probe = Ray::new(*origin, *direction);
        let window = Interval::new(
            Fx::from_raw(crate::hittable::FX_T_MIN),
            Fx::infinity(),
        );
        match self.hit(&probe, window) {
            None => Fx::zero(),
            Some(rec) => {
                let lsq = direction.length_squared();
                let len = direction.length();
                if len.raw == 0 {
                    return Fx::zero();
                }
                let distance_squared = rec.t.mul(rec.t).mul(lsq);
                let cosine = direction.dot(rec.normal).abs().div(len);
                let denom = cosine.mul(self.area);
                if denom.raw == 0 {
                    Fx::zero()
                } else {
                    distance_squared.div(denom)
                }
            }
        }
    }

    /// Interior acceptance, exactly: a reported hit's planar coordinates
    /// lie in the unit square, and a plane crossing whose planar
    /// coordinates leave the unit square is rejected.
    pub proof fn lemma_interior(q: Quad, r: Ray, lo: int, hi: int)
        ensures
            (spec_quad_hit(q, r, lo, hi) matches Some(rec) ==> 0 <= rec.u.val() <= FX_ONE as int
                && 0 <= rec.v.val() <= FX_ONE as int),
            ({
                let denom = v3_dot(q.normal, r.dir);
                denom != 0 ==> {
                    let t = fx_div(fx_sub(q.d.val(), v3_dot(q.normal, r.orig)), denom);
                    let planar = v3_sub(crate::ray::spec_ray_at(r, t), q.q);
                    let alpha = v3_dot(q.w, v3_cross(planar, q.v));
                    let beta = v3_dot(q.w, v3_cross(q.u, planar));
                    (!(0 <= alpha <= FX_ONE as int) || !(0 <= beta <= FX_ONE as int))
                        ==> spec_quad_hit(q, r, lo, hi) is None
                }
            }),
    {
    }

    /// A direction from the origin toward a uniformly sampled point on
    /// the quad.
    pub fn random(&self, origin: &Vec3, rng: &mut crate::rng::Rng) -> (res: Vec3)
        ensures
            (res, final(rng).state) == crate::hittable::spec_hittable_random(
                crate::hittable::Hittable::Quad(*self),
                *origin,
                old(rng).state,
            ),
    {
        let r1 = rng.random();
        let r2 = rng.random();
        let p = self.q.add(self.u.scale(r1)).add(self.v.scale(r2));
        p.sub(*origin)
    }
}

/// The six faces of the axis-aligned box with the given opposite corners.
pub open spec fn spec_create_box(a: Point3, b: Point3, mat: usize) -> Seq<crate::hittable::Hittable> {
    let mnx = crate::hittable::imin(a.x.val(), b.x.val());
    let mny = crate::hittable::imin(a.y.val(), b.y.val());
    let mnz = crate::hittable::imin(a.z.val(), b.z.val());
    let mxx = crate::hittable::imax(a.x.val(), b.x.val());
    let mxy = crate::hittable::imax(a.y.val(), b.y.val());
    let mxz = crate::hittable::imax(a.z.val(), b.z.val());
    let dx = crate::vec3::spec_v3(fx_sub(mxx, mnx), 0, 0);
    let dy = crate::vec3::spec_v3(0, fx_sub(mxy, mny), 0);
    let dz = crate::vec3::spec_v3(0, 0, fx_sub(mxz, mnz));
    seq![
        crate::hittable::Hittable::Quad(
            spec_quad_new(crate::vec3::spec_v3(mnx, mny, mxz), dx, dy, mat),
        ),
        crate::hittable::Hittable::Quad(
            spec_quad_new(crate::vec3::spec_v3(mxx, mny, mxz), crate::vec3::v3_neg(dz), dy, mat),
        ),
        crate::hittable::Hittable::Quad(
            spec_quad_new(crate::vec3::spec_v3(mxx, mny, mnz), crate::vec3::v3_neg(dx), dy, mat),
        ),
        crate::hittable::Hittable::Quad(
            spec_quad_new(crate::vec3::spec_v3(mnx, mny, mnz), dz, dy, mat),
        ),
        crate::hittable::Hittable::Quad(
            spec_quad_new(crate::vec3::spec_v3(mnx, mxy, mxz), dx, crate::vec3::v3_neg(dz), mat),
        ),
        crate::hittable::Hittable::Quad(
            spec_quad_new(crate::vec3::spec_v3(mnx, mny, mnz), dx, dz, mat),
        ),
    ]
}

/// Builds the six sides of an axis-aligned box between two opposite
/// corner points, all with one material.
#[verifier::rlimit(100)]
pub fn create_box(a: Point3, b: Point3, mat: usize) -> (sides: crate::hittable_list::HittableList)
    ensures
        sides.objects@ =~= spec_create_box(a, b, mat),
{
    let mnx = if a.x.raw <= b.x.raw { a.x } else { b.x };
    let mny = if a.y.raw <= b.y.raw { a.y } else { b.y };
    let mnz = if a.z.raw <= b.z.raw { a.z } else { b.z };
    let mxx = if a.x.raw >= b.x.raw { a.x } else { b.x };
    let mxy = if a.y.raw >= b.y.raw { a.y } else { b.y };
    let mxz = if a.z.raw >= b.z.raw { a.z } else { b.z };
    let dx = Vec3 { x: mxx.sub(mnx), y: Fx::zero(), z: Fx::zero() };
    let dy = Vec3 { x: Fx::zero(), y: mxy.sub(mny), z: Fx::zero() };
    let dz = Vec3 { x: Fx::zero(), y: Fx::zero(), z: mxz.sub(mnz) };
    let mut sides = crate::hittable_list::HittableList::new();
    sides.add(
        crate::hittable::Hittable::Quad(Quad::new(Vec3 { x: mnx, y: mny, z: mxz }, dx, dy, mat)),
    );
    sides.add(
        crate::hittable::Hittable::Quad(
            Quad::new(Vec3 { x: mxx, y: mny, z: mxz }, dz.neg(), dy, mat),
        ),
    );
    sides.add(
        crate::hittable::Hittable::Quad(
            Quad::new(Vec3 { x: mxx, y: mny, z: mnz }, dx.neg(), dy, mat),
        ),
    );
    sides.add(
        crate::hittable::Hittable::Quad(Quad::new(Vec3 { x: mnx, y: mny, z: mnz }, dz, dy, mat)),
    );
    sides.add(
        crate::hittable::Hittable::Quad(
            Quad::new(Vec3 { x: mnx, y: mxy, z: mxz }, dx, dz.neg(), mat),
        ),
    );
    sides.add(
        crate::hittable::Hittable::Quad(Quad::new(Vec3 { x: mnx, y: mny, z: mnz }, dx, dz, mat)),
    );
    sides
}

} // verus!
