//! Perlin noise: 256 random unit gradients, three shuffled index tables,
//! and trilinear hermite interpolation of gradient dot products.

use vstd::prelude::*;
use crate::aabb::spec_fdiv;
use crate::fixed::{Fx, FX_ONE, clip, iabs, fx_add, fx_mul, fx_sub};
use crate::rng::{Rng, spec_int_sample, spec_next_state};
use crate::vec3::{
    Point3, Vec3, fxv, spec_v3, spec_v3_random_range, v3_dot, v3_scale, v3_unit,
};

verus! {

pub struct Perlin {
    pub ranvec: Vec<Vec3>,
    pub perm_x: Vec<u8>,
    pub perm_y: Vec<u8>,
    pub perm_z: Vec<u8>,
}

/// The tables have their full size; every constructed generator does.
pub open spec fn perlin_wf(p: Perlin) -> bool {
    &&& p.ranvec@.len() == 256
    &&& p.perm_x@.len() == 256
    &&& p.perm_y@.len() == 256
    &&& p.perm_z@.len() == 256
}

/// One fresh unit gradient: a cube sample, normalized.
pub open spec fn spec_unit_gradient(s0: u64) -> (Vec3, u64) {
    let rv = spec_v3_random_range(
        Fx { raw: (-FX_ONE) as i64 },
        Fx { raw: FX_ONE },
        s0,
    );
    (v3_unit(rv.0), rv.1)
}

/// The gradient table built by drawing from index `k` on.
pub open spec fn spec_ranvec_from(s0: u64, k: int, acc: Seq<Vec3>) -> (Seq<Vec3>, u64)
    decreases 256 - k,
{
    if k < 0 || k >= 256 {
        (acc, s0)
    } else {
        let e = spec_unit_gradient(s0);
        spec_ranvec_from(e.1, k + 1, acc.push(e.0))
    }
}

/// The identity index table.
pub open spec fn spec_perm_init() -> Seq<u8> {
    Seq::new(256, |i: int| i as u8)
}

/// The shuffle: from index `i` down to 1, swap with a fresh draw below.
pub open spec fn spec_permute_from(s: Seq<u8>, st: u64, i: int) -> (Seq<u8>, u64)
    recommends
        s.len() == 256,
    decreases i,
{
    if i < 1 || i >= 256 {
        (s, st)
    } else {
        let st1 = spec_next_state(st);
        let target = spec_int_sample(0, i as i32, st1);
        let swapped = s.update(target, s[i]).update(i, s[target]);
        spec_permute_from(swapped, st1, i - 1)
    }
}

/// The wrapped lattice coordinate: the index modulo the table size.
pub open spec fn spec_wrap256(x: int) -> int {
    x % 256
}

fn wrap256(x: i64) -> (r: usize)
    requires
        -0x1000000000000 < x < 0x1000000000000,
    ensures
        r as int == spec_wrap256(x as int),
        r < 256,
{
    proof {
        if x as int >= 0 {
        } else {
            let m = -(x as int);
            assert(m == 256 * (m / 256) + m % 256 && 0 <= m % 256 < 256) by (nonlinear_arith);
            if m % 256 == 0 {
                assert(x as int == (-(m / 256)) * 256) by (nonlinear_arith)
                    requires
                        m == 256 * (m / 256),
                        x as int == -m,
                {}
                assert((x as int) % 256 == 0) by (nonlinear_arith)
                    requires
                        x as int == (-(m / 256)) * 256,
                {}
            } else {
                assert(x as int == (-(m / 256) - 1) * 256 + (256 - m % 256)) by (nonlinear_arith)
                    requires
                        m == 256 * (m / 256) + m % 256,
                        x as int == -m,
                {}
                assert((x as int) % 256 == 256 - m % 256) by (nonlinear_arith)
                    requires
                        x as int == (-(m / 256) - 1) * 256 + (256 - m % 256),
                        0 < 256 - m % 256 < 256,
                {}
            }
        }
    }
    if x >= 0 {
        ((x as u64) % 256u64) as usize
    } else {
        let m: usize = (((-(x as i128)) as u128) % 256u128) as usize;
        if m == 0 {
            0
        } else {
            256 - m
        }
    }
}

/// The gradient at one lattice corner, through the three index tables.
pub open spec fn spec_corner(p: Perlin, i: int, j: int, k: int) -> Vec3
    recommends
        perlin_wf(p),
{
    let idx = p.perm_x@[spec_wrap256(i)] ^ p.perm_y@[spec_wrap256(j)] ^ p.perm_z@[spec_wrap256(k)];
    p.ranvec@[idx as int]
}

/// The hermite smoothing curve `u * u * (3 - 2 u)`.
pub open spec fn spec_hermite(u: int) -> int {
    fx_mul(fx_mul(u, u), fx_sub(3 * FX_ONE as int, fx_mul(2 * FX_ONE as int, u)))
}

/// One trilinear term: the blend weights for a corner times the gradient's
/// dot product with the offset from that corner.
pub open spec fn spec_interp_term(
    c: Vec3,
    si: int,
    sj: int,
    sk: int,
    u: int,
    v: int,
    w: int,
    uu: int,
    vv: int,
    ww: int,
) -> int {
    let fi = if si == 1 { uu } else { fx_sub(FX_ONE as int, uu) };
    let fj = if sj == 1 { vv } else { fx_sub(FX_ONE as int, vv) };
    let fk = if sk == 1 { ww } else { fx_sub(FX_ONE as int, ww) };
    let weight = spec_v3(
        fx_sub(u, si * FX_ONE as int),
        fx_sub(v, sj * FX_ONE as int),
        fx_sub(w, sk * FX_ONE as int),
    );
    fx_mul(fx_mul(fx_mul(fi, fj), fk), v3_dot(c, weight))
}

/// The noise value at a point: fractional lattice coordinates, hermite
/// blending, and the eight corner terms summed in scan order. A generator
/// whose tables are not full size answers zero.
pub open spec fn spec_noise(p: Perlin, pt: Point3) -> int {
    if !perlin_wf(p) {
        0
    } else {
        let i = spec_fdiv(pt.x.val(), FX_ONE as int);
        let j = spec_fdiv(pt.y.val(), FX_ONE as int);
        let k = spec_fdiv(pt.z.val(), FX_ONE as int);
        let u = fx_sub(pt.x.val(), i * FX_ONE as int);
        let v = fx_sub(pt.y.val(), j * FX_ONE as int);
        let w = fx_sub(pt.z.val(), k * FX_ONE as int);
        let uu = spec_hermite(u);
        let vv = spec_hermite(v);
        let ww = spec_hermite(w);
        let t0 = spec_interp_term(spec_corner(p, i, j, k), 0, 0, 0, u, v, w, uu, vv, ww);
        let t1 = spec_interp_term(spec_corner(p, i, j, k + 1), 0, 0, 1, u, v, w, uu, vv, ww);
        let t2 = spec_interp_term(spec_corner(p, i, j + 1, k), 0, 1, 0, u, v, w, uu, vv, ww);
        let t3 = spec_interp_term(spec_corner(p, i, j + 1, k + 1), 0, 1, 1, u, v, w, uu, vv, ww);
        let t4 = spec_interp_term(spec_corner(p, i + 1, j, k), 1, 0, 0, u, v, w, uu, vv, ww);
        let t5 = spec_interp_term(spec_corner(p, i + 1, j, k + 1), 1, 0, 1, u, v, w, uu, vv, ww);
        let t6 = spec_interp_term(spec_corner(p, i + 1, j + 1, k), 1, 1, 0, u, v, w, uu, vv, ww);
        let t7 = spec_interp_term(
            spec_corner(p, i + 1, j + 1, k + 1),
            1,
            1,
            1,
            u,
            v,
            w,
            uu,
            vv,
            ww,
        );
        fx_add(
            fx_add(fx_add(fx_add(fx_add(fx_add(fx_add(fx_add(0, t0), t1), t2), t3), t4), t5), t6),
            t7,
        )
    }
}

/// The turbulence sum from a running point, weight and accumulator: each
/// octave adds the weighted noise, halves the weight and doubles the
/// point; the result is the absolute value of the sum.
pub open spec fn spec_turb_from(p: Perlin, pt: Point3, depth: int, weight: int, acc: int) -> int
    decreases depth,
{
    if depth <= 0 {
        clip(iabs(acc))
    } else {
        spec_turb_from(
            p,
            v3_scale(pt, 2 * FX_ONE as int),
            depth - 1,
            fx_mul(weight, 32768),
            fx_add(acc, fx_mul(weight, spec_noise(p, pt))),
        )
    }
}

impl Perlin {
    /// Fresh tables: 256 unit gradients and three independent shuffles of
    /// the identity table, all drawn from the given generator.
    pub fn new(rng: &mut Rng) -> (r: Perlin)
        ensures
            perlin_wf(r),
            ({
                let rv = spec_ranvec_from(old(rng).state, 0, Seq::empty());
                let px = spec_permute_from(spec_perm_init(), rv.1, 255);
                let py = spec_permute_from(spec_perm_init(), px.1, 255);
                let pz = spec_permute_from(spec_perm_init(), py.1, 255);
                r.ranvec@ == rv.0 && r.perm_x@ == px.0 && r.perm_y@ == py.0 && r.perm_z@ == pz.0
                    && final(rng).state == pz.1
            }),
    {
        let ghost s_start = rng.state;
        let mut ranvec: Vec<Vec3> = Vec::new();
        let mut k: usize = 0;
        while k < 256
            invariant
                0 <= k <= 256,
                ranvec@.len() == k,
                spec_ranvec_from(s_start, 0, Seq::empty()) == spec_ranvec_from(
                    rng.state,
                    k as int,
                    ranvec@,
                ),
            decreases 256 - k,
        {
            let rv = Vec3::random_range(Fx::from_raw(-FX_ONE), Fx::one(), rng);
            ranvec.push(rv.unit());
            k = k + 1;
        }
        let perm_x = Perlin::generate_perm(rng);
        let perm_y = Perlin::generate_perm(rng);
        let perm_z = Perlin::generate_perm(rng);
        Perlin { ranvec, perm_x, perm_y, perm_z }
    }

    /// One shuffled index table.
    fn generate_perm(rng: &mut Rng) -> (r: Vec<u8>)
        ensures
            ({
                let p = spec_permute_from(spec_perm_init(), old(rng).state, 255);
                r@ == p.0 && final(rng).state == p.1 && r@.len() == 256
            }),
    {
        let mut p: Vec<u8> = Vec::new();
        let mut k: usize = 0;
        while k < 256
            invariant
                0 <= k <= 256,
                p@.len() == k,
                forall|m: int| 0 <= m < k ==> p@[m] == m as u8,
            decreases 256 - k,
        {
            p.push(k as u8);
            k = k + 1;
        }
        proof {
            assert(p@ =~= spec_perm_init());
        }
        let ghost s_start = rng.state;
        let mut i: usize = 255;
        while i >= 1
            invariant
                0 <= i <= 255,
                p@.len() == 256,
                spec_permute_from(spec_perm_init(), s_start, 255) == spec_permute_from(
                    p@,
                    rng.state,
                    i as int,
                ),
            decreases i,
        {
            let target = rng.random_int(0, i as i32) as usize;
            let a = p[i];
            let b = p[target];
            p[target] = a;
            p[i] = b;
            i = i - 1;
        }
        p
    }

    /// The noise value at a point; tables of the wrong size answer zero.
    pub fn noise(&self, pt: &Point3) -> (r: Fx)
        ensures
            r.val() == spec_noise(*self, *pt),
    {
        if self.ranvec.len() != 256 || self.perm_x.len() != 256 || self.perm_y.len() != 256
            || self.perm_z.len() != 256 {
            return Fx::zero();
        }
        let iv = pt.x.floor();
        let jv = pt.y.floor();
        let kv = pt.z.floor();
        proof {
            crate::aabb::lemma_fdiv_range(pt.x.val(), FX_ONE as int);
            crate::aabb::lemma_fdiv_range(pt.y.val(), FX_ONE as int);
            crate::aabb::lemma_fdiv_range(pt.z.val(), FX_ONE as int);
        }
        let u = pt.x.sub(Fx::from_raw(iv * FX_ONE));
        let v = pt.y.sub(Fx::from_raw(jv * FX_ONE));
        let w = pt.z.sub(Fx::from_raw(kv * FX_ONE));
        let uu = hermite(u);
        let vv = hermite(v);
        let ww = hermite(w);
        let c000 = self.corner(iv, jv, kv);
        let c001 = self.corner(iv, jv, kv + 1);
        let c010 = self.corner(iv, jv + 1, kv);
        let c011 = self.corner(iv, jv + 1, kv + 1);
        let c100 = self.corner(iv + 1, jv, kv);
        let c101 = self.corner(iv + 1, jv, kv + 1);
        let c110 = self.corner(iv + 1, jv + 1, kv);
        let c111 = self.corner(iv + 1, jv + 1, kv + 1);
        let mut acc = Fx::zero();
        acc = acc.add(interp_term(c000, false, false, false, u, v, w, uu, vv, ww));
        acc = acc.add(interp_term(c001, false, false, true, u, v, w, uu, vv, ww));
        acc = acc.add(interp_term(c010, false, true, false, u, v, w, uu, vv, ww));
        acc = acc.add(interp_term(c011, false, true, true, u, v, w, uu, vv, ww));
        acc = acc.add(interp_term(c100, true, false, false, u, v, w, uu, vv, ww));
        acc = acc.add(interp_term(c101, true, false, true, u, v, w, uu, vv, ww));
        acc = acc.add(interp_term(c110, true, true, false, u, v, w, uu, vv, ww));
        acc = acc.add(interp_term(c111, true, true, true, u, v, w, uu, vv, ww));
        acc
    }

    /// The gradient at one lattice corner.
    fn corner(&self, i: i64, j: i64, k: i64) -> (r: Vec3)
        requires
            perlin_wf(*self),
            -0x1000000000000 < i < 0x1000000000000,
            -0x1000000000000 < j < 0x1000000000000,
            -0x1000000000000 < k < 0x1000000000000,
        ensures
            r == spec_corner(*self, i as int, j as int, k as int),
    {
        let idx = self.perm_x[wrap256(i)] ^ self.perm_y[wrap256(j)] ^ self.perm_z[wrap256(k)];
        self.ranvec[idx as usize]
    }

    /// Octave turbulence: the absolute value of a geometric sum of noise
    /// at doubling frequencies.
    pub fn turb(&self, pt: &Point3, depth: u32) -> (r: Fx)
        ensures
            r.val() == spec_turb_from(*self, *pt, depth as int, FX_ONE as int, 0),
    {
        let mut acc = Fx::zero();
        let mut temp_p = *pt;
        let mut weight = Fx::one();
        let mut remaining = depth;
        while remaining > 0
            invariant
                spec_turb_from(*self, *pt, depth as int, FX_ONE as int, 0) == spec_turb_from(
                    *self,
                    temp_p,
                    remaining as int,
                    weight.val(),
                    acc.val(),
                ),
            decreases remaining,
        {
            acc = acc.add(weight.mul(self.noise(&temp_p)));
            weight = weight.mul(Fx::from_raw(32768));
            temp_p = temp_p.scale(Fx::from_raw(2 * FX_ONE));
            remaining = remaining - 1;
        }
        acc.abs()
    }
}

/// The hermite smoothing curve.
fn hermite(u: Fx) -> (r: Fx)
    ensures
        r.val() == spec_hermite(u.val()),
{
    u.mul(u).mul(Fx::from_raw(3 * FX_ONE).sub(Fx::from_raw(2 * FX_ONE).mul(u)))
}

/// One trilinear term.
fn interp_term(
    c: Vec3,
    si: bool,
    sj: bool,
    sk: bool,
    u: Fx,
    v: Fx,
    w: Fx,
    uu: Fx,
    vv: Fx,
    ww: Fx,
) -> (r: Fx)
    ensures
        r.val() == spec_interp_term(
            c,
            if si { 1int } else { 0int },
            if sj { 1int } else { 0int },
            if sk { 1int } else { 0int },
            u.val(),
            v.val(),
            w.val(),
            uu.val(),
            vv.val(),
            ww.val(),
        ),
{
    let fi = if si { uu } else { Fx::one().sub(uu) };
    let fj = if sj { vv } else { Fx::one().sub(vv) };
    let fk = if sk { ww } else { Fx::one().sub(ww) };
    let weight = Vec3 {
        x: if si { u.sub(Fx::one()) } else { u.sub(Fx::zero()) },
        y: if sj { v.sub(Fx::one()) } else { v.sub(Fx::zero()) },
        z: if sk { w.sub(Fx::one()) } else { w.sub(Fx::zero()) },
    };
    fi.mul(fj).mul(fk).mul(c.dot(weight))
}

} // verus!
