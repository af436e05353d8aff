//! Saturating fixed-point scalars.
//!
//! A scalar is an `i64` holding `value * FX_ONE`. Every operation clips its
//! mathematical result into `[-i64::MAX, i64::MAX]`, so the two extreme raw
//! values behave like the infinities that ray-parameter intervals need, and
//! no operation can panic.

use vstd::prelude::*;

verus! {

/// Number of raw units per 1.0.
pub const FX_ONE: i64 = 65536;

/// Largest raw value; stands in for positive infinity.
pub const FX_INF: i64 = i64::MAX;

/// Smallest raw value; stands in for negative infinity.
pub const FX_NEG_INF: i64 = -i64::MAX;

/// Absolute value of a mathematical integer.
pub open spec fn iabs(x: int) -> int {
    if x < 0 { -x } else { x }
}

/// Clips a mathematical result into the representable raw range.
pub open spec fn clip(x: int) -> int {
    if x > FX_INF as int {
        FX_INF as int
    } else if x < FX_NEG_INF as int {
        FX_NEG_INF as int
    } else {
        x
    }
}

/// Division truncating toward zero, for a positive divisor.
pub open spec fn tdiv(n: int, d: int) -> int
    recommends
        d > 0,
{
    if n >= 0 { n / d } else { -((-n) / d) }
}

/// Division truncating toward zero, for any nonzero divisor.
pub open spec fn sdiv(n: int, d: int) -> int
    recommends
        d != 0,
{
    if d > 0 { tdiv(n, d) } else { tdiv(-n, -d) }
}

pub open spec fn fx_add(a: int, b: int) -> int {
    clip(a + b)
}

pub open spec fn fx_sub(a: int, b: int) -> int {
    clip(a - b)
}

pub open spec fn fx_neg(a: int) -> int {
    clip(-a)
}

/// Fixed-point product: the scaled mathematical product, truncated and clipped.
pub open spec fn fx_mul(a: int, b: int) -> int {
    clip(tdiv(a * b, FX_ONE as int))
}

/// Fixed-point quotient: the scaled mathematical quotient, truncated and clipped.
pub open spec fn fx_div(a: int, b: int) -> int
    recommends
        b != 0,
{
    clip(sdiv(a * FX_ONE, b))
}

/// The floor square root of a nonnegative integer.
pub open spec fn sqrt_floor(n: int) -> int
    recommends
        n >= 0,
{
    choose|r: int| 0 <= r && #[trigger] (r * r) <= n && n < (r + 1) * (r + 1)
}

/// Fixed-point square root; nonpositive inputs map to zero.
pub open spec fn fx_sqrt(a: int) -> int {
    if a <= 0 { 0 } else { sqrt_floor(a * FX_ONE) }
}

/// A fixed-point scalar.
#[derive(Clone, Copy, Debug, PartialEq, Eq, Structural)]
pub struct Fx {
    pub raw: i64,
}

/// The floor square root exists for every nonnegative integer.
pub proof fn lemma_sqrt_exists(n: int)
    requires
        n >= 0,
    ensures
        exists|r: int| 0 <= r && #[trigger] (r * r) <= n && n < (r + 1) * (r + 1),
    decreases n,
{
    if n == 0 {
        assert(0 <= 0 && 0 * 0 <= n && n < (0 + 1) * (0 + 1)) by (nonlinear_arith)
            requires
                n == 0,
        {}
    } else {
        lemma_sqrt_exists(n - 1);
        let r = choose|r: int| 0 <= r && #[trigger] (r * r) <= n - 1 && n - 1 < (r + 1) * (r + 1);
        if (r + 1) * (r + 1) <= n {
            assert(n < (r + 2) * (r + 2)) by (nonlinear_arith)
                requires
                    n - 1 < (r + 1) * (r + 1),
                    r >= 0,
            {}
            assert(0 <= r + 1 && (r + 1) * (r + 1) <= n && n < (r + 1 + 1) * (r + 1 + 1));
        } else {
            assert(0 <= r && r * r <= n && n < (r + 1) * (r + 1));
        }
    }
}

/// The floor square root is unique.
pub proof fn lemma_sqrt_unique(n: int, r: int)
    requires
        n >= 0,
        0 <= r,
        r * r <= n,
        n < (r + 1) * (r + 1),
    ensures
        sqrt_floor(n) == r,
{
    assert(exists|q: int| 0 <= q && #[trigger] (q * q) <= n && n < (q + 1) * (q + 1)) by {
        assert(0 <= r && r * r <= n && n < (r + 1) * (r + 1));
    }
    let rc = sqrt_floor(n);
    assert(0 <= rc && rc * rc <= n && n < (rc + 1) * (rc + 1));
    assert(rc == r) by (nonlinear_arith)
        requires
            0 <= r,
            r * r <= n,
            n < (r + 1) * (r + 1),
            0 <= rc,
            rc * rc <= n,
            n < (rc + 1) * (rc + 1),
    {}
}

/// A square is never negative, before and after scaling down.
pub proof fn lemma_fx_square_nonneg(x: int)
    ensures
        fx_mul(x, x) >= 0,
{
    assert(x * x >= 0) by (nonlinear_arith);
    assert(tdiv(x * x, FX_ONE as int) >= 0) by (nonlinear_arith)
        requires
            x * x >= 0,
            FX_ONE as int > 0,
    {}
}

/// The fixed-point square root is never negative.
pub proof fn lemma_fx_sqrt_nonneg(a: int)
    ensures
        fx_sqrt(a) >= 0,
{
    if a > 0 {
        lemma_sqrt_exists(a * FX_ONE as int);
    }
}

/// A product of nonnegative scalars is nonnegative.
pub proof fn lemma_fx_mul_nonneg(a: int, b: int)
    requires
        a >= 0,
        b >= 0,
    ensures
        fx_mul(a, b) >= 0,
{
    assert(a * b >= 0) by (nonlinear_arith)
        requires
            a >= 0,
            b >= 0,
    {}
    assert(tdiv(a * b, FX_ONE as int) >= 0) by (nonlinear_arith)
        requires
            a * b >= 0,
            FX_ONE as int > 0,
    {}
}

/// A quotient of a nonnegative scalar by a positive one is nonnegative.
pub proof fn lemma_fx_div_nonneg(a: int, b: int)
    requires
        a >= 0,
        b > 0,
    ensures
        fx_div(a, b) >= 0,
{
    assert(a * FX_ONE as int >= 0);
    assert(tdiv(a * FX_ONE as int, b) >= 0) by (nonlinear_arith)
        requires
            a * FX_ONE as int >= 0,
            b > 0,
    {}
}

/// Truncating division by a positive divisor is monotone in the dividend.
pub proof fn lemma_tdiv_monotone(n1: int, n2: int, d: int)
    requires
        d > 0,
        n1 <= n2,
    ensures
        tdiv(n1, d) <= tdiv(n2, d),
{
    assert(n1 == d * (n1 / d) + n1 % d && 0 <= n1 % d < d) by (nonlinear_arith)
        requires
            d > 0,
    {}
    assert(n2 == d * (n2 / d) + n2 % d && 0 <= n2 % d < d) by (nonlinear_arith)
        requires
            d > 0,
    {}
    if n1 >= 0 {
        assert(n1 / d <= n2 / d) by (nonlinear_arith)
            requires
                d > 0,
                n1 <= n2,
                n1 == d * (n1 / d) + n1 % d,
                0 <= n1 % d < d,
                n2 == d * (n2 / d) + n2 % d,
                0 <= n2 % d < d,
        {}
    } else if n2 < 0 {
        assert(-n1 == d * ((-n1) / d) + (-n1) % d && 0 <= (-n1) % d < d) by (nonlinear_arith)
            requires
                d > 0,
        {}
        assert(-n2 == d * ((-n2) / d) + (-n2) % d && 0 <= (-n2) % d < d) by (nonlinear_arith)
            requires
                d > 0,
        {}
        assert((-n2) / d <= (-n1) / d) by (nonlinear_arith)
            requires
                d > 0,
                n1 <= n2 < 0,
                -n1 == d * ((-n1) / d) + (-n1) % d,
                0 <= (-n1) % d < d,
                -n2 == d * ((-n2) / d) + (-n2) % d,
                0 <= (-n2) % d < d,
        {}
    } else {
        // n1 < 0 <= n2: a nonpositive quotient against a nonnegative one.
        assert(-n1 == d * ((-n1) / d) + (-n1) % d && 0 <= (-n1) % d < d) by (nonlinear_arith)
            requires
                d > 0,
        {}
        assert((-n1) / d >= 0 && n2 / d >= 0) by (nonlinear_arith)
            requires
                d > 0,
                -n1 >= 0,
                n2 >= 0,
                -n1 == d * ((-n1) / d) + (-n1) % d,
                0 <= (-n1) % d < d,
                n2 == d * (n2 / d) + n2 % d,
                0 <= n2 % d < d,
        {}
    }
}

/// Clips an `i128` intermediate into the raw range.
fn clip_exec(x: i128) -> (r: i64)
    ensures
        r as int == clip(x as int),
{
    if x > i64::MAX as i128 {
        i64::MAX
    } else if x < -(i64::MAX as i128) {
        -i64::MAX
    } else {
        x as i64
    }
}

/// Magnitude of an `i64` as an unsigned 128-bit value.
fn mag(x: i64) -> (m: u128)
    ensures
        m as int == iabs(x as int),
{
    if x >= 0 {
        x as u128
    } else {
        (-(x as i128)) as u128
    }
}

/// Floor square root by bisection.
fn isqrt(n: u128) -> (r: u128)
    requires
        (n as int) < 0x100000000000000000000,  // 2^80
    ensures
        r * r <= n,
        (n as int) < (r as int + 1) * (r as int + 1),
        r as int == sqrt_floor(n as int),
{
    let mut lo: u128 = 0;
    let mut hi: u128 = 0x10000000000;  // 2^40
    assert((hi as int) * (hi as int) == 0x100000000000000000000) by (nonlinear_arith)
        requires
            hi == 0x10000000000,
    {}
    while hi - lo > 1
        invariant
            (lo as int) * (lo as int) <= n as int,
            (n as int) < (hi as int) * (hi as int),
            lo < hi,
            hi <= 0x10000000000,
        decreases hi - lo,
    {
        let mid: u128 = lo + (hi - lo) / 2;
        assert((mid as int) * (mid as int) < 0x200000000000000000000) by (nonlinear_arith)
            requires
                mid < 0x10000000000,
        {}
        if mid * mid <= n {
            lo = mid;
        } else {
            hi = mid;
        }
    }
    proof {
        lemma_sqrt_unique(n as int, lo as int);
    }
    lo
}

/// Floor square root of a 64-bit count.
pub fn isqrt_u64(n: u64) -> (r: u64)
    ensures
        r as int == sqrt_floor(n as int),
        (r as int) * (r as int) <= n as int,
        (n as int) < (r as int + 1) * (r as int + 1),
{
    let r = isqrt(n as u128);
    proof {
        assert(r as int <= 0x100000000) by (nonlinear_arith)
            requires
                (r as int) * (r as int) <= n as int,
                (n as int) < 0x10000000000000000,
                r as int >= 0,
        {}
    }
    r as u64
}

impl Fx {
    /// The represented value, in raw units.
    pub open spec fn val(self) -> int {
        self.raw as int
    }

    pub fn from_raw(raw: i64) -> (r: Fx)
        ensures
            r.val() == raw as int,
    {
        Fx { raw }
    }

    /// The scalar for a whole number, clipped into range.
    pub fn from_int(x: i64) -> (r: Fx)
        ensures
            r.val() == clip(x as int * FX_ONE as int),
    {
        proof {
            assert(-0x80000000000000000000 <= x as int * (FX_ONE as int)
                <= 0x80000000000000000000) by (nonlinear_arith)
                requires
                    -0x8000000000000000 <= x as int <= 0x8000000000000000,
            {}
        }
        Fx { raw: clip_exec((x as i128) * 65536i128) }
    }

    /// The scalar for a whole count, clipped into range.
    pub fn from_usize(n: usize) -> (r: Fx)
        ensures
            r.val() == clip(n as int * FX_ONE as int),
    {
        let w: u128 = (n as u128) * 65536u128;
        if w > i64::MAX as u128 {
            Fx { raw: i64::MAX }
        } else {
            Fx { raw: w as i64 }
        }
    }

    pub fn zero() -> (r: Fx)
        ensures
            r.val() == 0,
    {
        Fx { raw: 0 }
    }

    pub fn one() -> (r: Fx)
        ensures
            r.val() == FX_ONE as int,
    {
        Fx { raw: FX_ONE }
    }

    pub fn infinity() -> (r: Fx)
        ensures
            r.val() == FX_INF as int,
    {
        Fx { raw: FX_INF }
    }

    pub fn neg_infinity() -> (r: Fx)
        ensures
            r.val() == FX_NEG_INF as int,
    {
        Fx { raw: FX_NEG_INF }
    }

    pub fn add(self, o: Fx) -> (r: Fx)
        ensures
            r.val() == fx_add(self.val(), o.val()),
    {
        Fx { raw: clip_exec(self.raw as i128 + o.raw as i128) }
    }

    pub fn sub(self, o: Fx) -> (r: Fx)
        ensures
            r.val() == fx_sub(self.val(), o.val()),
    {
        Fx { raw: clip_exec(self.raw as i128 - o.raw as i128) }
    }

    pub fn neg(self) -> (r: Fx)
        ensures
            r.val() == fx_neg(self.val()),
    {
        Fx { raw: clip_exec(-(self.raw as i128)) }
    }

    pub fn mul(self, o: Fx) -> (r: Fx)
        ensures
            r.val() == fx_mul(self.val(), o.val()),
    {
        let a = self.raw;
        let b = o.raw;
        let ma = mag(a);
        let mb = mag(b);
        assert(ma * mb <= 0x8000000000000000u128 * 0x8000000000000000u128) by (nonlinear_arith)
            requires
                ma <= 0x8000000000000000u128,
                mb <= 0x8000000000000000u128,
        {}
        let q: u128 = (ma * mb) / 65536u128;
        let neg: bool = (a < 0) != (b < 0);
        proof {
            let ai = a as int;
            let bi = b as int;
            let mai = ma as int;
            let mbi = mb as int;
            assert(mai * mbi >= 0) by (nonlinear_arith)
                requires
                    mai >= 0,
                    mbi >= 0,
            {}
            if ai < 0 {
                if bi < 0 {
                    assert(ai * bi == mai * mbi) by (nonlinear_arith)
                        requires
                            mai == -ai,
                            mbi == -bi,
                    {}
                } else {
                    assert(ai * bi == -(mai * mbi)) by (nonlinear_arith)
                        requires
                            mai == -ai,
                            mbi == bi,
                    {}
                }
            } else {
                if bi < 0 {
                    assert(ai * bi == -(mai * mbi)) by (nonlinear_arith)
                        requires
                            mai == ai,
                            mbi == -bi,
                    {}
                }
            }
        }
        if neg {
            Fx { raw: clip_exec(-(q as i128)) }
        } else {
            Fx { raw: clip_exec(q as i128) }
        }
    }

    pub fn div(self, o: Fx) -> (r: Fx)
        requires
            o.val() != 0,
        ensures
            r.val() == fx_div(self.val(), o.val()),
    {
        let a = self.raw;
        let b = o.raw;
        let ma = mag(a);
        let mb = mag(b);
        let num: u128 = ma * 65536u128;
        let q: u128 = num / mb;
        proof {
            assert(num as int <= 0x80000000000000000000);
            assert(q as int <= num as int) by (nonlinear_arith)
                requires
                    q as int == num as int / (mb as int),
                    mb as int >= 1,
                    num as int >= 0,
            {}
            assert(q as int <= 0x80000000000000000000);
        }
        let neg: bool = (a < 0) != (b < 0);
        if neg {
            Fx { raw: clip_exec(-(q as i128)) }
        } else {
            Fx { raw: clip_exec(q as i128) }
        }
    }

    /// Floor square root in fixed point; nonpositive inputs give zero.
    pub fn sqrt(self) -> (r: Fx)
        ensures
            r.val() == fx_sqrt(self.val()),
    {
        if self.raw <= 0 {
            Fx { raw: 0 }
        } else {
            let n: u128 = (self.raw as u128) * 65536u128;
            assert((n as int) < 0x100000000000000000000) by (nonlinear_arith)
                requires
                    n as int == self.raw as int * (FX_ONE as int),
                    self.raw as int <= 0x8000000000000000,
            {}
            let r = isqrt(n);
            proof {
                assert((r as int) * (r as int) <= n as int);
                assert(r as int <= 0x10000000000) by (nonlinear_arith)
                    requires
                        (r as int) * (r as int) <= n as int,
                        (n as int) < 0x100000000000000000000,
                        r as int >= 0,
                {}
            }
            Fx { raw: r as i64 }
        }
    }

    /// Absolute value, clipped.
    pub fn abs(self) -> (r: Fx)
        ensures
            r.val() == clip(iabs(self.val())),
    {
        if self.raw < 0 { self.neg() } else { self }
    }

    /// The largest whole number not above the value.
    pub fn floor(self) -> (r: i64)
        ensures
            r as int == crate::aabb::spec_fdiv(self.val(), FX_ONE as int),
    {
        if self.raw >= 0 {
            ((self.raw as u64) / 65536u64) as i64
        } else {
            let m = (-(self.raw as i128)) as u128;
            let q = m / 65536u128;
            let rem = m % 65536u128;
            proof {
                let mi = m as int;
                let s = FX_ONE as int;
                assert(mi == s * (mi / s) + mi % s && 0 <= mi % s < s) by (nonlinear_arith)
                    requires
                        s > 0,
                        mi >= 0,
                {}
                if rem as int == 0 {
                    assert(self.val() == (-(q as int)) * s) by (nonlinear_arith)
                        requires
                            mi == s * (q as int),
                            self.val() == -mi,
                    {}
                    assert(self.val() / s == -(q as int)) by (nonlinear_arith)
                        requires
                            self.val() == (-(q as int)) * s,
                            s > 0,
                    {}
                } else {
                    assert(self.val() == (-(q as int) - 1) * s + (s - mi % s)) by (nonlinear_arith)
                        requires
                            mi == s * (q as int) + mi % s,
                            self.val() == -mi,
                    {}
                    assert(self.val() / s == -(q as int) - 1) by (nonlinear_arith)
                        requires
                            self.val() == (-(q as int) - 1) * s + (s - mi % s),
                            0 < s - mi % s < s,
                            s > 0,
                    {}
                }
            }
            if rem == 0 {
                (-(q as i128)) as i64
            } else {
                (-(q as i128) - 1) as i64
            }
        }
    }

    pub fn lt(self, o: Fx) -> (r: bool)
        ensures
            r == (self.val() < o.val()),
    {
        self.raw < o.raw
    }

    pub fn le(self, o: Fx) -> (r: bool)
        ensures
            r == (self.val() <= o.val()),
    {
        self.raw <= o.raw
    }

    pub fn min(self, o: Fx) -> (r: Fx)
        ensures
            r.val() == if self.val() <= o.val() { self.val() } else { o.val() },
    {
        if self.raw <= o.raw { self } else { o }
    }

    pub fn max(self, o: Fx) -> (r: Fx)
        ensures
            r.val() == if self.val() >= o.val() { self.val() } else { o.val() },
    {
        if self.raw >= o.raw { self } else { o }
    }
}

} // verus!
