//! The intersectable scene-object abstraction.
//!
//! The polymorphic intersectable interface is a closed enum here:
//! every primitive and composite answers a ray-intersection query over a
//! parameter window and exposes a bounding box. Materials live in a table
//! owned by the scene; a hit carries the table index.
//!
//! One deliberate strengthening over the plain child-query description:
//! primitives and the transform wrappers end their query with a box guard,
//! keeping a hit only when the ray's exact rational point at the reported
//! parameter lies inside the reporting object's stored box. On the
//! fixed-point grid a truncated root, or a rotated corner box, can land a
//! genuine hit within a grid unit outside the stored box; the guard
//! resolves such marginal hits to "no intersection" (the same rule this
//! design applies to all degenerate numerics). The trade is soundness for
//! the accelerator: every reported hit is provably inside its object's
//! box, which is what makes the tree-versus-scan equivalence theorem hold
//! with no numeric side conditions for untransformed scenes.

use vstd::prelude::*;
use crate::aabb::{Aabb, spec_point_in_box, spec_box_shift, spec_aabb_hit};
use crate::fixed::{Fx, fx_add, fx_neg, fx_sub, fx_mul, fx_div};
use crate::interval::Interval;
use crate::ray::Ray;
use crate::sphere::{Sphere, spec_sphere_hit};
use crate::quad::{Quad, spec_quad_hit};
use crate::hittable_list::HittableList;
use crate::bvh::BvhNode;
use crate::vec3::{Point3, Vec3, v3_add, v3_dot, v3_neg, v3_sub, spec_v3, fxv};

verus! {

/// The record of one successful intersection.
#[derive(Clone, Copy, Debug, PartialEq, Eq, Structural)]
pub struct HitRecord {
    pub p: Point3,
    pub normal: Vec3,
    pub t: Fx,
    pub u: Fx,
    pub v: Fx,
    pub front_face: bool,
    /// Index of the material in the scene's material table.
    pub mat: usize,
}

/// Orients an outward surface normal against the incoming ray: the returned
/// flag says whether the ray arrived from the outward side, and the returned
/// normal always faces the ray.
pub open spec fn spec_face_normal(r: Ray, outward: Vec3) -> (bool, Vec3) {
    let front = v3_dot(r.dir, outward) < 0;
    (front, if front { outward } else { v3_neg(outward) })
}

impl HitRecord {
    pub open spec fn spec_default() -> HitRecord {
        HitRecord {
            p: spec_v3(0, 0, 0),
            normal: spec_v3(0, 0, 0),
            t: fxv(0),
            u: fxv(0),
            v: fxv(0),
            front_face: false,
            mat: 0,
        }
    }

    pub fn new_default() -> (r: HitRecord)
        ensures
            r == HitRecord::spec_default(),
    {
        HitRecord {
            p: Vec3::origin(),
            normal: Vec3::origin(),
            t: Fx::zero(),
            u: Fx::zero(),
            v: Fx::zero(),
            front_face: false,
            mat: 0,
        }
    }

    /// Stores the oriented normal for an outward normal and incoming ray.
    pub fn set_face_normal(&mut self, r: &Ray, outward_normal: &Vec3)
        ensures
            final(self).front_face == spec_face_normal(*r, *outward_normal).0,
            final(self).normal == spec_face_normal(*r, *outward_normal).1,
            final(self).p == old(self).p,
            final(self).t == old(self).t,
            final(self).u == old(self).u,
            final(self).v == old(self).v,
            final(self).mat == old(self).mat,
    {
        let front = r.dir.dot(*outward_normal).lt(Fx::zero());
        self.front_face = front;
        self.normal = if front {
            *outward_normal
        } else {
            outward_normal.neg()
        };
    }
}

/// A scene object: a primitive, a composite, or a transformed child.
pub enum Hittable {
    Sphere(Sphere),
    Quad(Quad),
    List(HittableList),
    Bvh(BvhNode),
    Translate(Translate),
    RotateY(RotateY),
}

/// A child object shifted by a constant offset.
pub struct Translate {
    pub obj: Box<Hittable>,
    pub offset: Vec3,
    pub bbox: Aabb,
}

/// A child object rotated about the y axis; the sine and cosine of the
/// rotation angle are stored at construction.
pub struct RotateY {
    pub obj: Box<Hittable>,
    pub sin_theta: Fx,
    pub cos_theta: Fx,
    pub bbox: Aabb,
}

/// Structural well-formedness of a scene object: composites own well-formed
/// children, and a tree node's stored box bounds both children's boxes.
pub open spec fn spec_wf(obj: Hittable) -> bool
    decreases obj,
{
    match obj {
        Hittable::Sphere(_) => true,
        Hittable::Quad(_) => true,
        Hittable::List(l) => forall|i: int|
            0 <= i < l.objects@.len() ==> spec_wf(#[trigger] l.objects@[i]),
        Hittable::Bvh(n) => spec_wf(*n.left) && spec_wf(*n.right) && crate::aabb::box_contains_box(
            n.bbox,
            spec_bounding_box(*n.left),
        ) && crate::aabb::box_contains_box(n.bbox, spec_bounding_box(*n.right)),
        Hittable::Translate(t) => spec_wf(*t.obj),
        Hittable::RotateY(ry) => spec_wf(*ry.obj),
    }
}

/// The bounding box an object reports.
pub open spec fn spec_bounding_box(obj: Hittable) -> Aabb
    decreases obj, 0int,
{
    match obj {
        Hittable::Sphere(s) => s.bbox,
        Hittable::Quad(q) => q.bbox,
        Hittable::List(l) => spec_list_box(l, 0),
        Hittable::Bvh(n) => n.bbox,
        Hittable::Translate(t) => t.bbox,
        Hittable::RotateY(ry) => ry.bbox,
    }
}

/// The union of the boxes of a list's members from index `i` on.
pub open spec fn spec_list_box(l: HittableList, i: int) -> Aabb
    decreases l, (l.objects@.len() - i),
{
    if i < 0 || i >= l.objects@.len() {
        crate::aabb::spec_empty_box()
    } else {
        crate::aabb::spec_box_union(
            spec_bounding_box(l.objects@[i]),
            spec_list_box(l, i + 1),
        )
    }
}

/// The intersection an object reports for a ray over the closed parameter
/// window `[lo, hi]` (each primitive applies its own open or closed bounds
/// within the window).
pub open spec fn spec_hit(obj: Hittable, r: Ray, lo: int, hi: int) -> Option<HitRecord>
    decreases obj, 0int,
{
    match obj {
        Hittable::Sphere(s) => spec_sphere_hit(s, r, lo, hi),
        Hittable::Quad(q) => spec_quad_hit(q, r, lo, hi),
        Hittable::List(l) => spec_list_hit_from(l, 0, r, lo, hi, None),
        Hittable::Bvh(n) => spec_bvh_hit(n, r, lo, hi),
        Hittable::Translate(t) => spec_translate_hit(t, r, lo, hi),
        Hittable::RotateY(ry) => spec_rotate_y_hit(ry, r, lo, hi),
    }
}

/// The linear scan of a list from index `i`, carrying the best hit so far;
/// the acceptance window's upper bound narrows to the best parameter.
pub open spec fn spec_list_hit_from(
    l: HittableList,
    i: int,
    r: Ray,
    lo: int,
    hi: int,
    best: Option<HitRecord>,
) -> Option<HitRecord>
    decreases l, (l.objects@.len() - i + 1),
{
    if i < 0 || i >= l.objects@.len() {
        best
    } else {
        let cur_hi = match best {
            Option::Some(b) => b.t.val(),
            Option::None => hi,
        };
        let child = spec_hit(l.objects@[i], r, lo, cur_hi);
        let next = match child {
            Option::Some(c) => Option::Some(c),
            Option::None => best,
        };
        spec_list_hit_from(l, i + 1, r, lo, hi, next)
    }
}

/// Tree traversal: reject through the node's box, query the left child,
/// then the right child over a window narrowed to the left hit.
pub open spec fn spec_bvh_hit(n: BvhNode, r: Ray, lo: int, hi: int) -> Option<HitRecord>
    decreases n, 1int,
{
    if !spec_aabb_hit(n.bbox, r, lo, hi) {
        None
    } else {
        let left = spec_hit(*n.left, r, lo, hi);
        let right_hi = match left {
            Option::Some(lr) => lr.t.val(),
            Option::None => hi,
        };
        let right = spec_hit(*n.right, r, lo, right_hi);
        match right {
            Option::Some(rr) => Option::Some(rr),
            Option::None => left,
        }
    }
}

/// A translated child: query in the shifted frame, shift the hit point back,
/// and keep only hits whose world-space point lies in the stored box.
pub open spec fn spec_translate_hit(t: Translate, r: Ray, lo: int, hi: int) -> Option<HitRecord>
    decreases t, 1int,
{
    let moved = Ray { orig: v3_sub(r.orig, t.offset), dir: r.dir, time: r.time };
    match spec_hit(*t.obj, moved, lo, hi) {
        Option::None => None,
        Option::Some(rec0) => {
            let p = v3_add(rec0.p, t.offset);
            let fn_pair = spec_face_normal(moved, rec0.normal);
            let rec = HitRecord {
                p,
                normal: fn_pair.1,
                front_face: fn_pair.0,
                ..rec0
            };
            if spec_point_in_box(t.bbox, r, rec.t.val()) {
                Option::Some(rec)
            } else {
                None
            }
        }
    }
}

/// Rotation of a vector about the y axis in the stored angle's frame,
/// with the world-to-object sign convention the wrappers share.
pub open spec fn spec_rot_to_object(sin_t: int, cos_t: int, v: Vec3) -> Vec3 {
    spec_v3(
        fx_sub(fx_mul(cos_t, v.x.val()), fx_mul(sin_t, v.z.val())),
        v.y.val(),
        fx_add(fx_mul(sin_t, v.x.val()), fx_mul(cos_t, v.z.val())),
    )
}

pub open spec fn spec_rot_to_world(sin_t: int, cos_t: int, v: Vec3) -> Vec3 {
    spec_v3(
        fx_add(fx_mul(cos_t, v.x.val()), fx_mul(sin_t, v.z.val())),
        v.y.val(),
        fx_sub(fx_mul(cos_t, v.z.val()), fx_mul(sin_t, v.x.val())),
    )
}

/// A rotated child: query in the rotated frame, rotate the hit point and
/// normal back, and keep only hits whose world-space point lies in the
/// stored box.
pub open spec fn spec_rotate_y_hit(ry: RotateY, r: Ray, lo: int, hi: int) -> Option<HitRecord>
    decreases ry, 1int,
{
    let s = ry.sin_theta.val();
    let c = ry.cos_theta.val();
    let rotated = Ray {
        orig: spec_rot_to_object(s, c, r.orig),
        dir: spec_rot_to_object(s, c, r.dir),
        time: r.time,
    };
    match spec_hit(*ry.obj, rotated, lo, hi) {
        Option::None => None,
        Option::Some(rec0) => {
            let p = spec_rot_to_world(s, c, rec0.p);
            let normal = spec_rot_to_world(s, c, rec0.normal);
            let fn_pair = spec_face_normal(rotated, normal);
            let rec = HitRecord {
                p,
                normal: fn_pair.1,
                front_face: fn_pair.0,
                ..rec0
            };
            if spec_point_in_box(ry.bbox, r, rec.t.val()) {
                Option::Some(rec)
            } else {
                None
            }
        }
    }
}

/// The lower end of the acceptance window used when probing toward a
/// light: keeps a sample from hitting its own surface.
pub const FX_T_MIN: i64 = 64;

/// The density, per unit solid angle, of sampling a direction from an
/// origin toward this object; objects unusable as lights answer zero.
pub open spec fn spec_pdf_value(obj: Hittable, origin: Point3, dir: Vec3) -> int
    decreases obj, 1int,
{
    match obj {
        Hittable::Sphere(s) => spec_sphere_pdf_value(s, origin, dir),
        Hittable::Quad(q) => spec_quad_pdf_value(q, origin, dir),
        Hittable::List(l) => {
            if l.objects@.len() == 0 {
                0
            } else {
                spec_list_pdf_from(
                    l,
                    0,
                    origin,
                    dir,
                    fx_div(crate::fixed::FX_ONE as int, crate::fixed::clip(
                        l.objects@.len() as int * crate::fixed::FX_ONE as int,
                    )),
                    0,
                )
            }
        }
        _ => 0,
    }
}

pub open spec fn spec_list_pdf_from(
    l: HittableList,
    i: int,
    origin: Point3,
    dir: Vec3,
    weight: int,
    acc: int,
) -> int
    decreases l, (l.objects@.len() - i + 1),
{
    if i < 0 || i >= l.objects@.len() {
        acc
    } else {
        spec_list_pdf_from(
            l,
            i + 1,
            origin,
            dir,
            weight,
            fx_add(acc, fx_mul(weight, spec_pdf_value(l.objects@[i], origin, dir))),
        )
    }
}

pub open spec fn spec_sphere_pdf_value(s: crate::sphere::Sphere, origin: Point3, dir: Vec3) -> int {
    let probe = Ray { orig: origin, dir, time: crate::vec3::fxv(0) };
    match crate::sphere::spec_sphere_hit(s, probe, FX_T_MIN as int, crate::fixed::FX_INF as int) {
        Option::None => 0,
        Option::Some(_) => {
            let dsq = crate::vec3::v3_length_squared(v3_sub(s.center1, origin));
            if dsq == 0 {
                0
            } else {
                let cos_theta_max = crate::fixed::fx_sqrt(
                    fx_sub(
                        crate::fixed::FX_ONE as int,
                        fx_div(fx_mul(s.radius.val(), s.radius.val()), dsq),
                    ),
                );
                let solid_angle = fx_mul(
                    crate::trig::FX_TWO_PI as int,
                    fx_sub(crate::fixed::FX_ONE as int, cos_theta_max),
                );
                if solid_angle == 0 {
                    0
                } else {
                    fx_div(crate::fixed::FX_ONE as int, solid_angle)
                }
            }
        }
    }
}

pub open spec fn spec_quad_pdf_value(q: crate::quad::Quad, origin: Point3, dir: Vec3) -> int {
    let probe = Ray { orig: origin, dir, time: crate::vec3::fxv(0) };
    match crate::quad::spec_quad_hit(q, probe, FX_T_MIN as int, crate::fixed::FX_INF as int) {
        Option::None => 0,
        Option::Some(rec) => {
            let lsq = crate::vec3::v3_length_squared(dir);
            let len = crate::vec3::v3_length(dir);
            if len == 0 {
                0
            } else {
                let distance_squared = fx_mul(fx_mul(rec.t.val(), rec.t.val()), lsq);
                let cosine = fx_div(
                    crate::fixed::clip(crate::fixed::iabs(v3_dot(dir, rec.normal))),
                    len,
                );
                let denom = fx_mul(cosine, q.area.val());
                if denom == 0 {
                    0
                } else {
                    fx_div(distance_squared, denom)
                }
            }
        }
    }
}

/// Every quad held by an object has a nonnegative stored area, as every
/// constructed quad does (its area is a square root).
pub open spec fn nonneg_areas(obj: Hittable) -> bool
    decreases obj,
{
    match obj {
        Hittable::Quad(q) => q.area.val() >= 0,
        Hittable::List(l) => forall|i: int|
            0 <= i < l.objects@.len() ==> nonneg_areas(#[trigger] l.objects@[i]),
        Hittable::Bvh(n) => nonneg_areas(*n.left) && nonneg_areas(*n.right),
        Hittable::Translate(t) => nonneg_areas(*t.obj),
        Hittable::RotateY(ry) => nonneg_areas(*ry.obj),
        Hittable::Sphere(_) => true,
    }
}

/// The sampling density an object reports toward a light is never
/// negative, for objects whose stored areas are nonnegative.
pub proof fn lemma_pdf_value_nonneg(obj: Hittable, origin: Point3, dir: Vec3)
    requires
        nonneg_areas(obj),
    ensures
        spec_pdf_value(obj, origin, dir) >= 0,
    decreases obj, 1int,
{
    match obj {
        Hittable::Sphere(s) => {
            lemma_sphere_pdf_nonneg(s, origin, dir);
        }
        Hittable::Quad(q) => {
            lemma_quad_pdf_nonneg(q, origin, dir);
        }
        Hittable::List(l) => {
            if l.objects@.len() > 0 {
                let weight = fx_div(
                    crate::fixed::FX_ONE as int,
                    crate::fixed::clip(l.objects@.len() as int * crate::fixed::FX_ONE as int),
                );
                crate::fixed::lemma_fx_div_nonneg(
                    crate::fixed::FX_ONE as int,
                    crate::fixed::clip(l.objects@.len() as int * crate::fixed::FX_ONE as int),
                );
                lemma_list_pdf_nonneg(l, 0, origin, dir, weight, 0);
            }
        }
        _ => {}
    }
}

/// The running average in the list's density scan stays nonnegative.
proof fn lemma_list_pdf_nonneg(
    l: HittableList,
    i: int,
    origin: Point3,
    dir: Vec3,
    weight: int,
    acc: int,
)
    requires
        forall|j: int| 0 <= j < l.objects@.len() ==> nonneg_areas(#[trigger] l.objects@[j]),
        weight >= 0,
        acc >= 0,
    ensures
        spec_list_pdf_from(l, i, origin, dir, weight, acc) >= 0,
    decreases l, (l.objects@.len() - i + 1),
{
    if 0 <= i < l.objects@.len() {
        lemma_pdf_value_nonneg(l.objects@[i], origin, dir);
        crate::fixed::lemma_fx_mul_nonneg(weight, spec_pdf_value(l.objects@[i], origin, dir));
        lemma_list_pdf_nonneg(
            l,
            i + 1,
            origin,
            dir,
            weight,
            fx_add(acc, fx_mul(weight, spec_pdf_value(l.objects@[i], origin, dir))),
        );
    }
}

/// A sphere's solid-angle density is never negative.
proof fn lemma_sphere_pdf_nonneg(s: crate::sphere::Sphere, origin: Point3, dir: Vec3)
    ensures
        spec_sphere_pdf_value(s, origin, dir) >= 0,
{
    let probe = Ray { orig: origin, dir, time: crate::vec3::fxv(0) };
    if crate::sphere::spec_sphere_hit(
        s,
        probe,
        FX_T_MIN as int,
        crate::fixed::FX_INF as int,
    ) is Some {
        let oc = v3_sub(s.center1, origin);
        crate::fixed::lemma_fx_square_nonneg(oc.x.val());
        crate::fixed::lemma_fx_square_nonneg(oc.y.val());
        crate::fixed::lemma_fx_square_nonneg(oc.z.val());
        let dsq = crate::vec3::v3_length_squared(oc);
        if dsq != 0 {
            crate::fixed::lemma_fx_square_nonneg(s.radius.val());
            crate::fixed::lemma_fx_div_nonneg(
                fx_mul(s.radius.val(), s.radius.val()),
                dsq,
            );
            let arg = fx_sub(
                crate::fixed::FX_ONE as int,
                fx_div(fx_mul(s.radius.val(), s.radius.val()), dsq),
            );
            let cos_theta_max = crate::fixed::fx_sqrt(arg);
            crate::fixed::lemma_fx_sqrt_nonneg(arg);
            assert(cos_theta_max <= crate::fixed::FX_ONE as int) by {
                if arg > 0 {
                    crate::fixed::lemma_sqrt_exists(arg * crate::fixed::FX_ONE as int);
                    let zv = crate::fixed::sqrt_floor(arg * crate::fixed::FX_ONE as int);
                    assert(arg * crate::fixed::FX_ONE as int <= 0x100000000) by (nonlinear_arith)
                        requires
                            0 < arg <= 0x10000,
                            crate::fixed::FX_ONE as int == 0x10000,
                    {}
                    assert(zv <= 0x10000) by (nonlinear_arith)
                        requires
                            zv * zv <= 0x100000000,
                            zv >= 0,
                    {}
                }
            }
            let one_minus = fx_sub(crate::fixed::FX_ONE as int, cos_theta_max);
            crate::fixed::lemma_fx_mul_nonneg(crate::trig::FX_TWO_PI as int, one_minus);
            let solid_angle = fx_mul(crate::trig::FX_TWO_PI as int, one_minus);
            if solid_angle != 0 {
                crate::fixed::lemma_fx_div_nonneg(crate::fixed::FX_ONE as int, solid_angle);
            }
        }
    }
}

/// A quad's projected-area density is never negative when its stored area
/// is not.
proof fn lemma_quad_pdf_nonneg(q: crate::quad::Quad, origin: Point3, dir: Vec3)
    requires
        q.area.val() >= 0,
    ensures
        spec_quad_pdf_value(q, origin, dir) >= 0,
{
    let probe = Ray { orig: origin, dir, time: crate::vec3::fxv(0) };
    match crate::quad::spec_quad_hit(q, probe, FX_T_MIN as int, crate::fixed::FX_INF as int) {
        Option::None => {}
        Option::Some(rec) => {
            crate::fixed::lemma_fx_square_nonneg(dir.x.val());
            crate::fixed::lemma_fx_square_nonneg(dir.y.val());
            crate::fixed::lemma_fx_square_nonneg(dir.z.val());
            let lsq = crate::vec3::v3_length_squared(dir);
            let len = crate::vec3::v3_length(dir);
            crate::fixed::lemma_fx_sqrt_nonneg(lsq);
            if len != 0 {
                crate::fixed::lemma_fx_square_nonneg(rec.t.val());
                crate::fixed::lemma_fx_mul_nonneg(fx_mul(rec.t.val(), rec.t.val()), lsq);
                let cosine = fx_div(
                    crate::fixed::clip(crate::fixed::iabs(v3_dot(dir, rec.normal))),
                    len,
                );
                crate::fixed::lemma_fx_div_nonneg(
                    crate::fixed::clip(crate::fixed::iabs(v3_dot(dir, rec.normal))),
                    len,
                );
                crate::fixed::lemma_fx_mul_nonneg(cosine, q.area.val());
                let denom = fx_mul(cosine, q.area.val());
                if denom != 0 {
                    crate::fixed::lemma_fx_div_nonneg(
                        fx_mul(fx_mul(rec.t.val(), rec.t.val()), lsq),
                        denom,
                    );
                }
            }
        }
    }
}

/// A randomly sampled direction from an origin toward this object, with
/// the generator state it leaves behind; objects unusable as lights answer
/// a fixed axis direction.
pub open spec fn spec_hittable_random(obj: Hittable, origin: Point3, s0: u64) -> (Vec3, u64)
    decreases obj, 1int,
{
    match obj {
        Hittable::Sphere(s) => {
            let direction = v3_sub(s.center1, origin);
            let dsq = crate::vec3::v3_length_squared(direction);
            let uvw = crate::onb::spec_onb_from_w(direction);
            let sampled = crate::vec3::spec_random_to_sphere(
                s.radius,
                crate::vec3::fxv(dsq),
                s0,
            );
            (crate::onb::spec_onb_transform(uvw, sampled.0), sampled.1)
        }
        Hittable::Quad(q) => {
            let s1 = crate::rng::spec_next_state(s0);
            let s2 = crate::rng::spec_next_state(s1);
            let r1 = crate::rng::spec_unit_sample(s1);
            let r2 = crate::rng::spec_unit_sample(s2);
            let p = v3_add(
                v3_add(q.q, crate::vec3::v3_scale(q.u, r1.val())),
                crate::vec3::v3_scale(q.v, r2.val()),
            );
            (v3_sub(p, origin), s2)
        }
        Hittable::List(l) => {
            if l.objects@.len() == 0 || l.objects@.len() > 0x7fffffff {
                (spec_v3(crate::fixed::FX_ONE as int, 0, 0), s0)
            } else {
                let s1 = crate::rng::spec_next_state(s0);
                let idx = crate::rng::spec_int_sample(0, (l.objects@.len() - 1) as i32, s1);
                spec_hittable_random(l.objects@[idx], origin, s1)
            }
        }
        _ => (spec_v3(crate::fixed::FX_ONE as int, 0, 0), s0),
    }
}

impl Translate {
    pub fn new(obj: Box<Hittable>, offset: Vec3) -> (r: Translate)
        ensures
            r.obj == obj,
            r.offset == offset,
            r.bbox == spec_box_shift(spec_bounding_box(*obj), offset),
    {
        let bbox = obj.bounding_box().shift(offset);
        Translate { obj, offset, bbox }
    }

    pub fn hit(&self, r: &Ray, ray_t: Interval) -> (res: Option<HitRecord>)
        ensures
            res == spec_translate_hit(*self, *r, ray_t.min.val(), ray_t.max.val()),
        decreases *self, 1int,
    {
        let moved = Ray::new_with_time(r.orig.sub(self.offset), r.dir, r.time);
        match self.obj.hit(&moved, ray_t) {
            None => None,
            Some(rec0) => {
                let mut rec = rec0;
                rec.p = rec0.p.add(self.offset);
                let normal = rec0.normal;
                rec.set_face_normal(&moved, &normal);
                if self.bbox.contains_at(r, rec.t) {
                    Some(rec)
                } else {
                    None
                }
            }
        }
    }
}

pub open spec fn imin(a: int, b: int) -> int {
    if a <= b { a } else { b }
}

pub open spec fn imax(a: int, b: int) -> int {
    if a >= b { a } else { b }
}

/// The box of a rotated child: the eight corners of the child's box are
/// rotated into world space and their extremes taken, then normalized and
/// padded as any box built from two corner points is.
pub open spec fn spec_rotated_box(s: int, c: int, b: Aabb) -> Aabb {
    let p0 = spec_rot_to_world(s, c, spec_v3(b.x.min.val(), b.y.min.val(), b.z.min.val()));
    let p1 = spec_rot_to_world(s, c, spec_v3(b.x.min.val(), b.y.min.val(), b.z.max.val()));
    let p2 = spec_rot_to_world(s, c, spec_v3(b.x.min.val(), b.y.max.val(), b.z.min.val()));
    let p3 = spec_rot_to_world(s, c, spec_v3(b.x.min.val(), b.y.max.val(), b.z.max.val()));
    let p4 = spec_rot_to_world(s, c, spec_v3(b.x.max.val(), b.y.min.val(), b.z.min.val()));
    let p5 = spec_rot_to_world(s, c, spec_v3(b.x.max.val(), b.y.min.val(), b.z.max.val()));
    let p6 = spec_rot_to_world(s, c, spec_v3(b.x.max.val(), b.y.max.val(), b.z.min.val()));
    let p7 = spec_rot_to_world(s, c, spec_v3(b.x.max.val(), b.y.max.val(), b.z.max.val()));
    let mnx = imin(imin(imin(p0.x.val(), p1.x.val()), imin(p2.x.val(), p3.x.val())),
        imin(imin(p4.x.val(), p5.x.val()), imin(p6.x.val(), p7.x.val())));
    let mny = imin(imin(imin(p0.y.val(), p1.y.val()), imin(p2.y.val(), p3.y.val())),
        imin(imin(p4.y.val(), p5.y.val()), imin(p6.y.val(), p7.y.val())));
    let mnz = imin(imin(imin(p0.z.val(), p1.z.val()), imin(p2.z.val(), p3.z.val())),
        imin(imin(p4.z.val(), p5.z.val()), imin(p6.z.val(), p7.z.val())));
    let mxx = imax(imax(imax(p0.x.val(), p1.x.val()), imax(p2.x.val(), p3.x.val())),
        imax(imax(p4.x.val(), p5.x.val()), imax(p6.x.val(), p7.x.val())));
    let mxy = imax(imax(imax(p0.y.val(), p1.y.val()), imax(p2.y.val(), p3.y.val())),
        imax(imax(p4.y.val(), p5.y.val()), imax(p6.y.val(), p7.y.val())));
    let mxz = imax(imax(imax(p0.z.val(), p1.z.val()), imax(p2.z.val(), p3.z.val())),
        imax(imax(p4.z.val(), p5.z.val()), imax(p6.z.val(), p7.z.val())));
    crate::aabb::spec_pad(
        crate::aabb::spec_box_from_points(spec_v3(mnx, mny, mnz), spec_v3(mxx, mxy, mxz)),
    )
}

/// Rotates a vector from the object frame into the world frame, given the
/// angle's sine and cosine.
fn rot_world(sin_t: Fx, cos_t: Fx, v: Vec3) -> (r: Vec3)
    ensures
        r == spec_rot_to_world(sin_t.val(), cos_t.val(), v),
{
    Vec3 {
        x: cos_t.mul(v.x).add(sin_t.mul(v.z)),
        y: v.y,
        z: cos_t.mul(v.z).sub(sin_t.mul(v.x)),
    }
}

fn fx_min(a: Fx, b: Fx) -> (r: Fx)
    ensures
        r.val() == imin(a.val(), b.val()),
{
    if a.raw <= b.raw { a } else { b }
}

fn fx_max(a: Fx, b: Fx) -> (r: Fx)
    ensures
        r.val() == imax(a.val(), b.val()),
{
    if a.raw >= b.raw { a } else { b }
}

impl RotateY {
    /// Wraps a child rotated about the y axis by an angle in degrees.
    pub fn new(obj: Box<Hittable>, angle: Fx) -> (r: RotateY)
        ensures
            r.obj == obj,
            r.sin_theta.val() == crate::trig::spec_sin(
                crate::trig::spec_degrees_to_radians(angle.val()),
            ),
            r.cos_theta.val() == crate::trig::spec_cos(
                crate::trig::spec_degrees_to_radians(angle.val()),
            ),
            r.bbox == spec_rotated_box(
                r.sin_theta.val(),
                r.cos_theta.val(),
                spec_bounding_box(*obj),
            ),
    {
        let radians = crate::trig::degrees_to_radians(angle);
        let sin_theta = crate::trig::sin(radians);
        let cos_theta = crate::trig::cos(radians);
        let b = obj.bounding_box();
        let p0 = rot_world(sin_theta, cos_theta, Vec3 { x: b.x.min, y: b.y.min, z: b.z.min });
        let p1 = rot_world(sin_theta, cos_theta, Vec3 { x: b.x.min, y: b.y.min, z: b.z.max });
        let p2 = rot_world(sin_theta, cos_theta, Vec3 { x: b.x.min, y: b.y.max, z: b.z.min });
        let p3 = rot_world(sin_theta, cos_theta, Vec3 { x: b.x.min, y: b.y.max, z: b.z.max });
        let p4 = rot_world(sin_theta, cos_theta, Vec3 { x: b.x.max, y: b.y.min, z: b.z.min });
        let p5 = rot_world(sin_theta, cos_theta, Vec3 { x: b.x.max, y: b.y.min, z: b.z.max });
        let p6 = rot_world(sin_theta, cos_theta, Vec3 { x: b.x.max, y: b.y.max, z: b.z.min });
        let p7 = rot_world(sin_theta, cos_theta, Vec3 { x: b.x.max, y: b.y.max, z: b.z.max });
        let mn = Vec3 {
            x: fx_min(fx_min(fx_min(p0.x, p1.x), fx_min(p2.x, p3.x)),
                fx_min(fx_min(p4.x, p5.x), fx_min(p6.x, p7.x))),
            y: fx_min(fx_min(fx_min(p0.y, p1.y), fx_min(p2.y, p3.y)),
                fx_min(fx_min(p4.y, p5.y), fx_min(p6.y, p7.y))),
            z: fx_min(fx_min(fx_min(p0.z, p1.z), fx_min(p2.z, p3.z)),
                fx_min(fx_min(p4.z, p5.z), fx_min(p6.z, p7.z))),
        };
        let mx = Vec3 {
            x: fx_max(fx_max(fx_max(p0.x, p1.x), fx_max(p2.x, p3.x)),
                fx_max(fx_max(p4.x, p5.x), fx_max(p6.x, p7.x))),
            y: fx_max(fx_max(fx_max(p0.y, p1.y), fx_max(p2.y, p3.y)),
                fx_max(fx_max(p4.y, p5.y), fx_max(p6.y, p7.y))),
            z: fx_max(fx_max(fx_max(p0.z, p1.z), fx_max(p2.z, p3.z)),
                fx_max(fx_max(p4.z, p5.z), fx_max(p6.z, p7.z))),
        };
        let bbox = Aabb::new_with_points(mn, mx);
        RotateY { obj, sin_theta, cos_theta, bbox }
    }

    /// Rotates a vector from the world frame into the object frame.
    pub fn to_object(&self, v: Vec3) -> (r: Vec3)
        ensures
            r == spec_rot_to_object(self.sin_theta.val(), self.cos_theta.val(), v),
    {
        Vec3 {
            x: self.cos_theta.mul(v.x).sub(self.sin_theta.mul(v.z)),
            y: v.y,
            z: self.sin_theta.mul(v.x).add(self.cos_theta.mul(v.z)),
        }
    }

    /// Rotates a vector from the object frame back into the world frame.
    pub fn to_world(&self, v: Vec3) -> (r: Vec3)
        ensures
            r == spec_rot_to_world(self.sin_theta.val(), self.cos_theta.val(), v),
    {
        Vec3 {
            x: self.cos_theta.mul(v.x).add(self.sin_theta.mul(v.z)),
            y: v.y,
            z: self.cos_theta.mul(v.z).sub(self.sin_theta.mul(v.x)),
        }
    }

    pub fn hit(&self, r: &Ray, ray_t: Interval) -> (res: Option<HitRecord>)
        ensures
            res == spec_rotate_y_hit(*self, *r, ray_t.min.val(), ray_t.max.val()),
        decreases *self, 1int,
    {
        let rotated = Ray::new_with_time(self.to_object(r.orig), self.to_object(r.dir), r.time);
        match self.obj.hit(&rotated, ray_t) {
            None => None,
            Some(rec0) => {
                let mut rec = rec0;
                rec.p = self.to_world(rec0.p);
                let normal = self.to_world(rec0.normal);
                rec.set_face_normal(&rotated, &normal);
                if self.bbox.contains_at(r, rec.t) {
                    Some(rec)
                } else {
                    None
                }
            }
        }
    }
}

impl Hittable {
    /// The intersection over the window, as the variant defines it.
    pub fn hit(&self, r: &Ray, ray_t: Interval) -> (res: Option<HitRecord>)
        ensures
            res == spec_hit(*self, *r, ray_t.min.val(), ray_t.max.val()),
        decreases *self, 2int,
    {
        match self {
            Hittable::Sphere(s) => s.hit(r, ray_t),
            Hittable::Quad(q) => q.hit(r, ray_t),
            Hittable::List(l) => l.hit(r, ray_t),
            Hittable::Bvh(n) => n.hit(r, ray_t),
            Hittable::Translate(t) => t.hit(r, ray_t),
            Hittable::RotateY(ry) => ry.hit(r, ray_t),
        }
    }

    /// The density of sampling a direction toward this object; objects
    /// not usable as light sources answer zero.
    pub fn pdf_value(&self, origin: &Point3, v: &Vec3) -> (res: Fx)
        ensures
            res.val() == spec_pdf_value(*self, *origin, *v),
        decreases *self, 2int,
    {
        match self {
            Hittable::Sphere(s) => s.pdf_value(origin, v),
            Hittable::Quad(q) => q.pdf_value(origin, v),
            Hittable::List(l) => l.pdf_value(origin, v),
            _ => Fx::zero(),
        }
    }

    /// A sampled direction toward this object; objects not usable as
    /// light sources answer a fixed axis direction.
    pub fn random(&self, origin: &Vec3, rng: &mut crate::rng::Rng) -> (res: Vec3)
        ensures
            (res, final(rng).state) == spec_hittable_random(*self, *origin, old(rng).state),
        decreases *self, 2int,
    {
        match self {
            Hittable::Sphere(s) => s.random(origin, rng),
            Hittable::Quad(q) => q.random(origin, rng),
            Hittable::List(l) => l.random(origin, rng),
            _ => Vec3 { x: Fx::one(), y: Fx::zero(), z: Fx::zero() },
        }
    }

    /// The object's bounding box.
    pub fn bounding_box(&self) -> (res: Aabb)
        ensures
            res == spec_bounding_box(*self),
        decreases *self, 2int,
    {
        match self {
            Hittable::Sphere(s) => s.bbox,
            Hittable::Quad(q) => q.bbox,
            Hittable::List(l) => l.bounding_box(),
            Hittable::Bvh(n) => n.bbox,
            Hittable::Translate(t) => t.bbox,
            Hittable::RotateY(ry) => ry.bbox,
        }
    }
}

} // verus!
