//! Axis-aligned bounding boxes and the slab ray test.
//!
//! The slab test works on exact integer arithmetic: per-axis ray-parameter
//! bounds are rounded outward (floor for lower, ceiling for upper), so the
//! test can only over-approximate. The completeness lemma below makes that
//! precise: whenever some in-window parameter puts the ray's exact rational
//! point inside the box, the test answers true.

use vstd::prelude::*;
use crate::fixed::{Fx, FX_ONE, clip};
use crate::interval::{Interval, spec_interval_union};
use crate::ray::Ray;
use crate::vec3::{Point3, Vec3};

verus! {

#[derive(Clone, Copy, Debug, PartialEq, Eq, Structural)]
pub struct Aabb {
    pub x: Interval,
    pub y: Interval,
    pub z: Interval,
}

/// Floor division for any nonzero divisor, over mathematical integers.
pub open spec fn spec_fdiv(n: int, d: int) -> int
    recommends
        d != 0,
{
    if d > 0 { n / d } else { (-n) / (-d) }
}

/// Floor division brackets its argument.
pub proof fn lemma_fdiv_range(n: int, d: int)
    requires
        d > 0,
    ensures
        d * spec_fdiv(n, d) <= n < d * (spec_fdiv(n, d) + 1),
{
    assert(n == d * (n / d) + n % d && 0 <= n % d < d) by (nonlinear_arith)
        requires
            d > 0,
    {}
    assert(d * (spec_fdiv(n, d) + 1) == d * spec_fdiv(n, d) + d) by (nonlinear_arith);
}

/// Ceiling division for any nonzero divisor.
pub open spec fn spec_cdiv(n: int, d: int) -> int
    recommends
        d != 0,
{
    -spec_fdiv(-n, d)
}

/// Whether parameter `t` puts the ray's exact rational point inside the slab
/// `[mn, mx]`, all quantities in raw fixed-point units.
pub open spec fn point_in_slab(mn: int, mx: int, o: int, d: int, t: int) -> bool {
    mn * FX_ONE <= o * FX_ONE + t * d && o * FX_ONE + t * d <= mx * FX_ONE
}

/// Whether parameter `t` puts the ray's exact rational point inside the box.
pub open spec fn spec_point_in_box(b: Aabb, r: Ray, t: int) -> bool {
    &&& point_in_slab(b.x.min.val(), b.x.max.val(), r.orig.x.val(), r.dir.x.val(), t)
    &&& point_in_slab(b.y.min.val(), b.y.max.val(), r.orig.y.val(), r.dir.y.val(), t)
    &&& point_in_slab(b.z.min.val(), b.z.max.val(), r.orig.z.val(), r.dir.z.val(), t)
}

/// One axis of the slab test: the parameter window narrowed by this slab,
/// or `None` when the window empties. Bounds are rounded outward and
/// saturated into the raw range.
pub open spec fn spec_slab_axis(mn: int, mx: int, o: int, d: int, lo: int, hi: int) -> Option<
    (int, int),
> {
    if d == 0 {
        if o < mn || o > mx {
            None
        } else {
            Some((lo, hi))
        }
    } else {
        let ta = if d > 0 {
            spec_fdiv((mn - o) * FX_ONE, d)
        } else {
            spec_fdiv((mx - o) * FX_ONE, d)
        };
        let tb = if d > 0 {
            spec_cdiv((mx - o) * FX_ONE, d)
        } else {
            spec_cdiv((mn - o) * FX_ONE, d)
        };
        let nlo = if clip(ta) > lo { clip(ta) } else { lo };
        let nhi = if clip(tb) < hi { clip(tb) } else { hi };
        if nhi < nlo {
            None
        } else {
            Some((nlo, nhi))
        }
    }
}

/// The whole slab test over the three axes.
pub open spec fn spec_aabb_hit(b: Aabb, r: Ray, lo: int, hi: int) -> bool {
    match spec_slab_axis(
        b.x.min.val(), b.x.max.val(), r.orig.x.val(), r.dir.x.val(), lo, hi,
    ) {
        Option::None => false,
        Option::Some((lo1, hi1)) => match spec_slab_axis(
            b.y.min.val(), b.y.max.val(), r.orig.y.val(), r.dir.y.val(), lo1, hi1,
        ) {
            Option::None => false,
            Option::Some((lo2, hi2)) => spec_slab_axis(
                b.z.min.val(), b.z.max.val(), r.orig.z.val(), r.dir.z.val(), lo2, hi2,
            ) is Some,
        },
    }
}

/// Floor division on 128-bit integers.
fn fdiv128(n: i128, d: i128) -> (q: i128)
    requires
        d != 0,
        -0x10000000000000000000000000 < n < 0x10000000000000000000000000,
        -0x10000000000000000000000000 < d < 0x10000000000000000000000000,
    ensures
        q as int == spec_fdiv(n as int, d as int),
        -0x10000000000000000000000001 < q < 0x10000000000000000000000001,
    {
    let mn: u128 = if n >= 0 { n as u128 } else { (-n) as u128 };
    let md: u128 = if d >= 0 { d as u128 } else { (-d) as u128 };
    let q0: u128 = mn / md;
    let exact: bool = mn % md == 0;
    proof {
        assert(q0 as int == mn as int / (md as int));
        assert(mn as int == (mn as int / md as int) * md as int + (mn as int) % (md as int))
            by (nonlinear_arith)
            requires
                md as int > 0,
        {}
        assert(0 <= (mn as int) % (md as int) < md as int) by (nonlinear_arith)
            requires
                md as int > 0,
        {}
        assert(q0 as int <= mn as int) by (nonlinear_arith)
            requires
                q0 as int == mn as int / (md as int),
                md as int >= 1,
                mn as int >= 0,
        {}
        let ni = n as int;
        let di = d as int;
        let qi = q0 as int;
        let ri = (mn as int) % (md as int);
        if di > 0 {
            if ni >= 0 {
                assert(spec_fdiv(ni, di) == qi);
            } else {
                // -n == q0 * d + r, so n == (-q0 - 1) * d + (d - r) when r > 0.
                if ri == 0 {
                    assert(ni == (-qi) * di + 0) by (nonlinear_arith)
                        requires
                            -ni == qi * di + ri,
                            ri == 0,
                    {}
                    assert(ni / di == -qi) by (nonlinear_arith)
                        requires
                            ni == (-qi) * di,
                            di > 0,
                    {}
                } else {
                    assert(ni == (-qi - 1) * di + (di - ri)) by (nonlinear_arith)
                        requires
                            -ni == qi * di + ri,
                    {}
                    assert(ni / di == -qi - 1) by (nonlinear_arith)
                        requires
                            ni == (-qi - 1) * di + (di - ri),
                            0 < di - ri < di,
                            di > 0,
                    {}
                }
            }
        } else {
            // spec_fdiv(n, d) == (-n) / (-d) with -d > 0.
            if ni <= 0 {
                // -n >= 0 and -n == q0 * (-d) + r exactly as computed.
                if ri == 0 {
                    assert((-ni) == qi * (-di)) by (nonlinear_arith)
                        requires
                            -ni == qi * (-di) + ri,
                            ri == 0,
                    {}
                    assert((-ni) / (-di) == qi) by (nonlinear_arith)
                        requires
                            -ni == qi * (-di),
                            -di > 0,
                            qi >= 0,
                    {}
                } else {
                    assert((-ni) / (-di) == qi) by (nonlinear_arith)
                        requires
                            -ni == qi * (-di) + ri,
                            0 <= ri < -di,
                            -di > 0,
                    {}
                }
            } else {
                // -n < 0: floor rounds away from zero unless exact.
                if ri == 0 {
                    assert((-ni) / (-di) == -qi) by (nonlinear_arith)
                        requires
                            ni == qi * (-di),
                            -di > 0,
                    {}
                } else {
                    assert((-ni) == (-qi - 1) * (-di) + ((-di) - ri)) by (nonlinear_arith)
                        requires
                            ni == qi * (-di) + ri,
                    {}
                    assert((-ni) / (-di) == -qi - 1) by (nonlinear_arith)
                        requires
                            -ni == (-qi - 1) * (-di) + ((-di) - ri),
                            0 < (-di) - ri < -di,
                            -di > 0,
                    {}
                }
            }
        }
    }
    if (n < 0) != (d < 0) {
        if exact {
            -(q0 as i128)
        } else {
            -(q0 as i128) - 1
        }
    } else {
        q0 as i128
    }
}

/// Ceiling division on 128-bit integers.
fn cdiv128(n: i128, d: i128) -> (q: i128)
    requires
        d != 0,
        -0x10000000000000000000000000 < n < 0x10000000000000000000000000,
        -0x10000000000000000000000000 < d < 0x10000000000000000000000000,
    ensures
        q as int == spec_cdiv(n as int, d as int),
        -0x10000000000000000000000002 < q < 0x10000000000000000000000002,
{
    let f = fdiv128(-n, d);
    -f
}

/// Saturates a 128-bit value into the raw `i64` range.
fn sat64(x: i128) -> (r: i64)
    ensures
        r as int == clip(x as int),
{
    if x > i64::MAX as i128 {
        i64::MAX
    } else if x < -(i64::MAX as i128) {
        -i64::MAX
    } else {
        x as i64
    }
}

/// Exact slab membership at a fixed-point parameter, on 128-bit integers.
fn in_slab_exec(mn: i64, mx: i64, o: i64, d: i64, t: i64) -> (res: bool)
    ensures
        res == point_in_slab(mn as int, mx as int, o as int, d as int, t as int),
{
    proof {
        assert(-0x40000000000000000000000000000000 <= t as int * (d as int)
            <= 0x40000000000000000000000000000000) by (nonlinear_arith)
            requires
                -0x8000000000000000 <= t as int <= 0x8000000000000000,
                -0x8000000000000000 <= d as int <= 0x8000000000000000,
        {}
    }
    let p: i128 = (o as i128) * 65536i128 + (t as i128) * (d as i128);
    (mn as i128) * 65536i128 <= p && p <= (mx as i128) * 65536i128
}

/// One axis of the slab test.
fn slab_axis(ax: Interval, o: Fx, d: Fx, lo: i64, hi: i64) -> (res: Option<(i64, i64)>)
    ensures
        match spec_slab_axis(ax.min.val(), ax.max.val(), o.val(), d.val(), lo as int, hi as int) {
            Option::None => res is None,
            Option::Some((nlo, nhi)) => res == Option::Some((nlo as i64, nhi as i64)),
        },
{
    if d.raw == 0 {
        if o.raw < ax.min.raw || o.raw > ax.max.raw {
            None
        } else {
            Some((lo, hi))
        }
    } else {
        let na: i128 = if d.raw > 0 {
            (ax.min.raw as i128 - o.raw as i128) * 65536i128
        } else {
            (ax.max.raw as i128 - o.raw as i128) * 65536i128
        };
        let nb: i128 = if d.raw > 0 {
            (ax.max.raw as i128 - o.raw as i128) * 65536i128
        } else {
            (ax.min.raw as i128 - o.raw as i128) * 65536i128
        };
        let ta = sat64(fdiv128(na, d.raw as i128));
        let tb = sat64(cdiv128(nb, d.raw as i128));
        let nlo = if ta > lo { ta } else { lo };
        let nhi = if tb < hi { tb } else { hi };
        if nhi < nlo {
            None
        } else {
            Some((nlo, nhi))
        }
    }
}

impl Aabb {
    pub fn new(x: Interval, y: Interval, z: Interval) -> (r: Aabb)
        ensures
            r == (Aabb { x, y, z }),
    {
        Aabb { x, y, z }
    }

    /// A box from two opposite corner points, each axis normalized so that
    /// `min <= max`, then padded to a minimum thickness.
    pub fn new_with_points(a: Point3, b: Point3) -> (r: Aabb)
        ensures
            r == spec_pad(spec_box_from_points(a, b)),
    {
        let x = if a.x.raw <= b.x.raw {
            Interval::new(a.x, b.x)
        } else {
            Interval::new(b.x, a.x)
        };
        let y = if a.y.raw <= b.y.raw {
            Interval::new(a.y, b.y)
        } else {
            Interval::new(b.y, a.y)
        };
        let z = if a.z.raw <= b.z.raw {
            Interval::new(a.z, b.z)
        } else {
            Interval::new(b.z, a.z)
        };
        let mut bbox = Aabb { x, y, z };
        bbox.pad_to_minimums();
        bbox
    }

    /// The empty box.
    pub fn new_with_empty() -> (r: Aabb)
        ensures
            r == spec_empty_box(),
    {
        Aabb { x: Interval::empty(), y: Interval::empty(), z: Interval::empty() }
    }

    /// The component-wise union of two boxes.
    pub fn from_boxes(box0: Aabb, box1: Aabb) -> (r: Aabb)
        ensures
            r == spec_box_union(box0, box1),
    {
        Aabb {
            x: Interval::from_intervals(box0.x, box1.x),
            y: Interval::from_intervals(box0.y, box1.y),
            z: Interval::from_intervals(box0.z, box1.z),
        }
    }

    pub fn axis_interval(&self, n: usize) -> (r: Interval)
        ensures
            r == spec_axis_interval(*self, n as int),
    {
        if n == 0 {
            self.x
        } else if n == 1 {
            self.y
        } else {
            self.z
        }
    }

    /// The axis with the largest extent; ties prefer x, then y, then z.
    pub fn longest_axis(&self) -> (r: usize)
        ensures
            r as int == spec_longest_axis(*self),
    {
        let sx = self.x.size();
        let sy = self.y.size();
        let sz = self.z.size();
        if sx.raw >= sy.raw && sx.raw >= sz.raw {
            0
        } else if sy.raw >= sz.raw {
            1
        } else {
            2
        }
    }

    /// Widens any axis thinner than a small threshold, so flat primitives
    /// still have a box the slab test can accept.
    pub fn pad_to_minimums(&mut self)
        ensures
            *final(self) == spec_pad(*old(self)),
    {
        let delta = Fx::from_raw(16);
        if self.x.size().raw < 16 {
            self.x = self.x.expand(delta);
        }
        if self.y.size().raw < 16 {
            self.y = self.y.expand(delta);
        }
        if self.z.size().raw < 16 {
            self.z = self.z.expand(delta);
        }
    }

    /// Shifts the box by a displacement vector.
    pub fn shift(&self, offset: Vec3) -> (r: Aabb)
        ensures
            r == spec_box_shift(*self, offset),
    {
        Aabb {
            x: self.x.shift(offset.x),
            y: self.y.shift(offset.y),
            z: self.z.shift(offset.z),
        }
    }

    /// The slab test: true when the outward-rounded per-axis parameter
    /// windows and `ray_t` have a common point.
    pub fn hit(&self, r: &Ray, ray_t: Interval) -> (res: bool)
        ensures
            res == spec_aabb_hit(*self, *r, ray_t.min.val(), ray_t.max.val()),
    {
        let mut lo = ray_t.min.raw;
        let mut hi = ray_t.max.raw;
        match slab_axis(self.x, r.orig.x, r.dir.x, lo, hi) {
            None => return false,
            Some((a, b)) => {
                lo = a;
                hi = b;
            }
        }
        match slab_axis(self.y, r.orig.y, r.dir.y, lo, hi) {
            None => return false,
            Some((a, b)) => {
                lo = a;
                hi = b;
            }
        }
        match slab_axis(self.z, r.orig.z, r.dir.z, lo, hi) {
            None => return false,
            Some((_, _)) => true,
        }
    }

    /// Exact membership of the ray's rational point at parameter `t`;
    /// primitives use this as a final guard so that every reported hit
    /// lies inside the reporting object's box.
    pub fn contains_at(&self, r: &Ray, t: Fx) -> (res: bool)
        ensures
            res == spec_point_in_box(*self, *r, t.val()),
    {
        in_slab_exec(self.x.min.raw, self.x.max.raw, r.orig.x.raw, r.dir.x.raw, t.raw)
            && in_slab_exec(self.y.min.raw, self.y.max.raw, r.orig.y.raw, r.dir.y.raw, t.raw)
            && in_slab_exec(self.z.min.raw, self.z.max.raw, r.orig.z.raw, r.dir.z.raw, t.raw)
    }
}

pub open spec fn spec_axis_interval(b: Aabb, n: int) -> Interval {
    if n == 0 { b.x } else if n == 1 { b.y } else { b.z }
}

/// The axis of largest extent; ties prefer x, then y, then z.
pub open spec fn spec_longest_axis(b: Aabb) -> int {
    let sx = crate::fixed::fx_sub(b.x.max.val(), b.x.min.val());
    let sy = crate::fixed::fx_sub(b.y.max.val(), b.y.min.val());
    let sz = crate::fixed::fx_sub(b.z.max.val(), b.z.min.val());
    if sx >= sy && sx >= sz {
        0
    } else if sy >= sz {
        1
    } else {
        2
    }
}

pub open spec fn spec_box_from_points(a: Point3, b: Point3) -> Aabb {
    Aabb {
        x: if a.x.val() <= b.x.val() {
            Interval { min: a.x, max: b.x }
        } else {
            Interval { min: b.x, max: a.x }
        },
        y: if a.y.val() <= b.y.val() {
            Interval { min: a.y, max: b.y }
        } else {
            Interval { min: b.y, max: a.y }
        },
        z: if a.z.val() <= b.z.val() {
            Interval { min: a.z, max: b.z }
        } else {
            Interval { min: b.z, max: a.z }
        },
    }
}

pub open spec fn spec_pad_interval(i: Interval) -> Interval {
    if crate::fixed::fx_sub(i.max.val(), i.min.val()) < 16 {
        crate::interval::spec_interval(
            crate::fixed::fx_sub(i.min.val(), crate::fixed::fx_div(16, 2 * FX_ONE as int)),
            crate::fixed::fx_add(i.max.val(), crate::fixed::fx_div(16, 2 * FX_ONE as int)),
        )
    } else {
        i
    }
}

pub open spec fn spec_pad(b: Aabb) -> Aabb {
    Aabb { x: spec_pad_interval(b.x), y: spec_pad_interval(b.y), z: spec_pad_interval(b.z) }
}

pub open spec fn spec_empty_box() -> Aabb {
    Aabb {
        x: Interval { min: Fx { raw: i64::MAX }, max: Fx { raw: (-i64::MAX) as i64 } },
        y: Interval { min: Fx { raw: i64::MAX }, max: Fx { raw: (-i64::MAX) as i64 } },
        z: Interval { min: Fx { raw: i64::MAX }, max: Fx { raw: (-i64::MAX) as i64 } },
    }
}

pub open spec fn spec_box_union(a: Aabb, b: Aabb) -> Aabb {
    Aabb {
        x: spec_interval_union(a.x, b.x),
        y: spec_interval_union(a.y, b.y),
        z: spec_interval_union(a.z, b.z),
    }
}

pub open spec fn spec_box_shift(b: Aabb, offset: Vec3) -> Aabb {
    Aabb {
        x: crate::interval::spec_interval(
            crate::fixed::fx_add(b.x.min.val(), offset.x.val()),
            crate::fixed::fx_add(b.x.max.val(), offset.x.val()),
        ),
        y: crate::interval::spec_interval(
            crate::fixed::fx_add(b.y.min.val(), offset.y.val()),
            crate::fixed::fx_add(b.y.max.val(), offset.y.val()),
        ),
        z: crate::interval::spec_interval(
            crate::fixed::fx_add(b.z.min.val(), offset.z.val()),
            crate::fixed::fx_add(b.z.max.val(), offset.z.val()),
        ),
    }
}

/// Containment of boxes, component-wise on the axis intervals.
pub open spec fn box_contains_box(outer: Aabb, inner: Aabb) -> bool {
    &&& outer.x.min.val() <= inner.x.min.val() && inner.x.max.val() <= outer.x.max.val()
    &&& outer.y.min.val() <= inner.y.min.val() && inner.y.max.val() <= outer.y.max.val()
    &&& outer.z.min.val() <= inner.z.min.val() && inner.z.max.val() <= outer.z.max.val()
}

/// The union contains both arguments.
pub proof fn lemma_union_contains(a: Aabb, b: Aabb)
    ensures
        box_contains_box(spec_box_union(a, b), a),
        box_contains_box(spec_box_union(a, b), b),
{
}

/// A point inside an inner box is inside any containing box.
pub proof fn lemma_point_in_larger_box(outer: Aabb, inner: Aabb, r: Ray, t: int)
    requires
        box_contains_box(outer, inner),
        spec_point_in_box(inner, r, t),
    ensures
        spec_point_in_box(outer, r, t),
{
    assert(outer.x.min.val() * FX_ONE <= inner.x.min.val() * FX_ONE) by (nonlinear_arith)
        requires
            outer.x.min.val() <= inner.x.min.val(),
            FX_ONE as int > 0,
    {}
    assert(inner.x.max.val() * FX_ONE <= outer.x.max.val() * FX_ONE) by (nonlinear_arith)
        requires
            inner.x.max.val() <= outer.x.max.val(),
            FX_ONE as int > 0,
    {}
    assert(outer.y.min.val() * FX_ONE <= inner.y.min.val() * FX_ONE) by (nonlinear_arith)
        requires
            outer.y.min.val() <= inner.y.min.val(),
            FX_ONE as int > 0,
    {}
    assert(inner.y.max.val() * FX_ONE <= outer.y.max.val() * FX_ONE) by (nonlinear_arith)
        requires
            inner.y.max.val() <= outer.y.max.val(),
            FX_ONE as int > 0,
    {}
    assert(outer.z.min.val() * FX_ONE <= inner.z.min.val() * FX_ONE) by (nonlinear_arith)
        requires
            outer.z.min.val() <= inner.z.min.val(),
            FX_ONE as int > 0,
    {}
    assert(inner.z.max.val() * FX_ONE <= outer.z.max.val() * FX_ONE) by (nonlinear_arith)
        requires
            inner.z.max.val() <= outer.z.max.val(),
            FX_ONE as int > 0,
    {}
}

/// Lower-bound rounding is sound: a parameter meeting `t * d >= n` is at
/// least the floor of the quotient.
proof fn lemma_div_lower(n: int, d: int, t: int)
    requires
        d > 0,
        t * d >= n,
    ensures
        t >= spec_fdiv(n, d),
{
    let q = spec_fdiv(n, d);
    assert(q == n / d);
    assert(n == d * (n / d) + n % d && 0 <= n % d < d) by (nonlinear_arith)
        requires
            d > 0,
    {}
    assert(t >= q) by (nonlinear_arith)
        requires
            t * d >= n,
            n == d * q + n % d,
            0 <= n % d,
            d > 0,
    {}
}

/// One axis of completeness: a witness parameter inside the slab stays
/// inside the narrowed window.
proof fn lemma_slab_axis_complete(mn: int, mx: int, o: int, d: int, lo: int, hi: int, w: int)
    requires
        point_in_slab(mn, mx, o, d, w),
        lo <= w <= hi,
        -0x8000000000000000 < w < 0x8000000000000000,
    ensures
        (spec_slab_axis(mn, mx, o, d, lo, hi) matches Some((nlo, nhi)) && nlo <= w <= nhi),
{
    if d == 0 {
        assert(mn * FX_ONE <= o * FX_ONE && o * FX_ONE <= mx * FX_ONE);
        assert(mn <= o && o <= mx) by (nonlinear_arith)
            requires
                mn * FX_ONE <= o * FX_ONE,
                o * FX_ONE <= mx * FX_ONE,
                FX_ONE as int > 0,
        {}
    } else {
        let na = if d > 0 { (mn - o) * FX_ONE } else { (mx - o) * FX_ONE };
        let nb = if d > 0 { (mx - o) * FX_ONE } else { (mn - o) * FX_ONE };
        let ta = spec_fdiv(na, d);
        let tb = spec_cdiv(nb, d);
        if d > 0 {
            assert(w * d >= na) by (nonlinear_arith)
                requires
                    mn * FX_ONE <= o * FX_ONE + w * d,
                    na == (mn - o) * FX_ONE,
            {}
            lemma_div_lower(na, d, w);
            assert((-w) * d >= -nb) by (nonlinear_arith)
                requires
                    o * FX_ONE + w * d <= mx * FX_ONE,
                    nb == (mx - o) * FX_ONE,
            {}
            lemma_div_lower(-nb, d, -w);
            assert(w <= tb);
        } else {
            // d < 0: the max face gives the lower bound, the min face the upper.
            assert(w * (-d) >= -na) by (nonlinear_arith)
                requires
                    o * FX_ONE + w * d <= mx * FX_ONE,
                    na == (mx - o) * FX_ONE,
            {}
            lemma_div_lower(-na, -d, w);
            assert(w >= spec_fdiv(-na, -d));
            assert(spec_fdiv(na, d) == (-na) / (-d));
            assert(spec_fdiv(-na, -d) == (-na) / (-d));
            assert(w >= ta);
            assert((-w) * (-d) >= nb) by (nonlinear_arith)
                requires
                    mn * FX_ONE <= o * FX_ONE + w * d,
                    nb == (mn - o) * FX_ONE,
            {}
            lemma_div_lower(nb, -d, -w);
            assert(-w >= spec_fdiv(nb, -d));
            assert(spec_cdiv(nb, d) == -spec_fdiv(-nb, d));
            assert(spec_fdiv(-nb, d) == nb / (-d));
            assert(spec_fdiv(nb, -d) == nb / (-d));
            assert(w <= tb);
        }
        assert(clip(ta) <= w) by {
            assert(ta <= w);
        }
        assert(clip(tb) >= w) by {
            assert(tb >= w);
        }
    }
}

/// Completeness of the slab test: if some parameter in the window puts the
/// ray's exact point inside the box, the test answers true.
pub proof fn lemma_aabb_hit_complete(b: Aabb, r: Ray, lo: int, hi: int, w: int)
    requires
        spec_point_in_box(b, r, w),
        lo <= w <= hi,
        -0x8000000000000000 < w < 0x8000000000000000,
    ensures
        spec_aabb_hit(b, r, lo, hi),
{
    lemma_slab_axis_complete(
        b.x.min.val(), b.x.max.val(), r.orig.x.val(), r.dir.x.val(), lo, hi, w,
    );
    let (lo1, hi1) = spec_slab_axis(
        b.x.min.val(), b.x.max.val(), r.orig.x.val(), r.dir.x.val(), lo, hi,
    )->Some_0;
    lemma_slab_axis_complete(
        b.y.min.val(), b.y.max.val(), r.orig.y.val(), r.dir.y.val(), lo1, hi1, w,
    );
    let (lo2, hi2) = spec_slab_axis(
        b.y.min.val(), b.y.max.val(), r.orig.y.val(), r.dir.y.val(), lo1, hi1,
    )->Some_0;
    lemma_slab_axis_complete(
        b.z.min.val(), b.z.max.val(), r.orig.z.val(), r.dir.z.val(), lo2, hi2, w,
    );
}

/// The ray direction's component along an axis, in raw units.
pub open spec fn spec_axis_dir(r: Ray, axis: int) -> int {
    if axis == 0 { r.dir.x.val() } else if axis == 1 { r.dir.y.val() } else { r.dir.z.val() }
}

/// The ray origin's component along an axis, in raw units.
pub open spec fn spec_axis_orig(r: Ray, axis: int) -> int {
    if axis == 0 { r.orig.x.val() } else if axis == 1 { r.orig.y.val() } else { r.orig.z.val() }
}

/// A ray running parallel to an axis never hits a box that lies entirely
/// outside that axis's slab.
pub proof fn lemma_parallel_axis_miss(b: Aabb, r: Ray, lo: int, hi: int, axis: int)
    requires
        0 <= axis <= 2,
        spec_axis_dir(r, axis) == 0,
        spec_axis_orig(r, axis) < spec_axis_interval(b, axis).min.val() || spec_axis_orig(r, axis)
            > spec_axis_interval(b, axis).max.val(),
    ensures
        !spec_aabb_hit(b, r, lo, hi),
{
}

/// A box holding the ray's origin is hit whenever the window admits zero.
pub proof fn lemma_origin_box_hit(b: Aabb, r: Ray, lo: int, hi: int)
    requires
        b.x.min.val() <= r.orig.x.val() <= b.x.max.val(),
        b.y.min.val() <= r.orig.y.val() <= b.y.max.val(),
        b.z.min.val() <= r.orig.z.val() <= b.z.max.val(),
        lo <= 0 <= hi,
    ensures
        spec_aabb_hit(b, r, lo, hi),
{
    assert(spec_point_in_box(b, r, 0)) by {
        assert(b.x.min.val() * FX_ONE <= r.orig.x.val() * FX_ONE
            && r.orig.x.val() * FX_ONE <= b.x.max.val() * FX_ONE) by (nonlinear_arith)
            requires
                b.x.min.val() <= r.orig.x.val() <= b.x.max.val(),
                FX_ONE as int > 0,
        {}
        assert(b.y.min.val() * FX_ONE <= r.orig.y.val() * FX_ONE
            && r.orig.y.val() * FX_ONE <= b.y.max.val() * FX_ONE) by (nonlinear_arith)
            requires
                b.y.min.val() <= r.orig.y.val() <= b.y.max.val(),
                FX_ONE as int > 0,
        {}
        assert(b.z.min.val() * FX_ONE <= r.orig.z.val() * FX_ONE
            && r.orig.z.val() * FX_ONE <= b.z.max.val() * FX_ONE) by (nonlinear_arith)
            requires
                b.z.min.val() <= r.orig.z.val() <= b.z.max.val(),
                FX_ONE as int > 0,
        {}
    }
    lemma_aabb_hit_complete(b, r, lo, hi, 0);
}

} // verus!
