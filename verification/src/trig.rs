//! Fixed-point trigonometry.
//!
//! These are the library's own polynomial approximations; each contract
//! states the computed polynomial exactly, plus the range bounds callers
//! rely on. The circle constant is rounded so that the quarter-, half- and
//! full-turn values divide exactly.

use vstd::prelude::*;
use crate::aabb::spec_fdiv;
use crate::fixed::{Fx, FX_ONE, FX_INF, FX_NEG_INF, fx_add, fx_sub, fx_mul, fx_div, fx_neg, fx_sqrt, clip, iabs};

verus! {

/// Pi in raw units (`pi * 65536`, rounded up so halves divide exactly).
pub const FX_PI: i64 = 205888;

pub const FX_TWO_PI: i64 = 411776;

pub const FX_HALF_PI: i64 = 102944;

/// Degrees to radians: `d * pi / 180`.
pub open spec fn spec_degrees_to_radians(d: int) -> int {
    fx_div(fx_mul(d, FX_PI as int), 180 * FX_ONE as int)
}

pub fn degrees_to_radians(degrees: Fx) -> (r: Fx)
    ensures
        r.val() == spec_degrees_to_radians(degrees.val()),
{
    degrees.mul(Fx::from_raw(FX_PI)).div(Fx::from_raw(180 * FX_ONE))
}

/// The argument reduced into `[-pi, pi)` by whole turns.
pub open spec fn spec_reduce_angle(x: int) -> int {
    x - spec_fdiv(x + FX_PI as int, FX_TWO_PI as int) * (FX_TWO_PI as int)
}

/// Clamps a raw value into `[-1, 1]`.
pub open spec fn spec_clamp_unit(x: int) -> int {
    if x > FX_ONE as int {
        FX_ONE as int
    } else if x < -(FX_ONE as int) {
        -(FX_ONE as int)
    } else {
        x
    }
}

/// The sine polynomial on the reduced argument: the truncated Taylor
/// series in Horner form, clamped into `[-1, 1]`.
pub open spec fn spec_sin(x: int) -> int {
    let xr = spec_reduce_angle(x);
    let x2 = fx_mul(xr, xr);
    let c5 = fx_sub(FX_ONE as int, fx_div(x2, 156 * FX_ONE as int));
    let c4 = fx_sub(FX_ONE as int, fx_mul(fx_div(x2, 110 * FX_ONE as int), c5));
    let c3 = fx_sub(FX_ONE as int, fx_mul(fx_div(x2, 72 * FX_ONE as int), c4));
    let c2 = fx_sub(FX_ONE as int, fx_mul(fx_div(x2, 42 * FX_ONE as int), c3));
    let c1 = fx_sub(FX_ONE as int, fx_mul(fx_div(x2, 20 * FX_ONE as int), c2));
    let c0 = fx_sub(FX_ONE as int, fx_mul(fx_div(x2, 6 * FX_ONE as int), c1));
    spec_clamp_unit(fx_mul(xr, c0))
}

/// The cosine polynomial on the reduced argument, clamped into `[-1, 1]`.
pub open spec fn spec_cos(x: int) -> int {
    let xr = spec_reduce_angle(x);
    let x2 = fx_mul(xr, xr);
    let c5 = fx_sub(FX_ONE as int, fx_div(x2, 132 * FX_ONE as int));
    let c4 = fx_sub(FX_ONE as int, fx_mul(fx_div(x2, 90 * FX_ONE as int), c5));
    let c3 = fx_sub(FX_ONE as int, fx_mul(fx_div(x2, 56 * FX_ONE as int), c4));
    let c2 = fx_sub(FX_ONE as int, fx_mul(fx_div(x2, 30 * FX_ONE as int), c3));
    let c1 = fx_sub(FX_ONE as int, fx_mul(fx_div(x2, 12 * FX_ONE as int), c2));
    spec_clamp_unit(fx_sub(FX_ONE as int, fx_mul(fx_div(x2, 2 * FX_ONE as int), c1)))
}

fn clamp_unit(x: Fx) -> (r: Fx)
    ensures
        r.val() == spec_clamp_unit(x.val()),
{
    if x.raw > FX_ONE {
        Fx::one()
    } else if x.raw < -FX_ONE {
        Fx::from_raw(-FX_ONE)
    } else {
        x
    }
}

/// Reduces an angle into `[-pi, pi)` by whole turns.
fn reduce_angle(x: Fx) -> (r: Fx)
    ensures
        r.val() == spec_reduce_angle(x.val()),
        -(FX_PI as int) <= r.val() < FX_PI as int,
{
    let shifted: i128 = x.raw as i128 + FX_PI as i128;
    let k: i128 = if shifted >= 0 {
        shifted / (FX_TWO_PI as i128)
    } else {
        -((-shifted) / (FX_TWO_PI as i128)) - (if (-shifted) % (FX_TWO_PI as i128) == 0 {
            0
        } else {
            1
        })
    };
    proof {
        let s = shifted as int;
        let tp = FX_TWO_PI as int;
        if s >= 0 {
            assert(k as int == spec_fdiv(s, tp));
        } else {
            let m = -s;
            assert(m == tp * (m / tp) + m % tp && 0 <= m % tp < tp) by (nonlinear_arith)
                requires
                    tp > 0,
                    m >= 0,
            {}
            if m % tp == 0 {
                assert(s == (-(m / tp)) * tp) by (nonlinear_arith)
                    requires
                        m == tp * (m / tp),
                        s == -m,
                {}
                assert(s / tp == -(m / tp)) by (nonlinear_arith)
                    requires
                        s == (-(m / tp)) * tp,
                        tp > 0,
                {}
            } else {
                assert(s == (-(m / tp) - 1) * tp + (tp - m % tp)) by (nonlinear_arith)
                    requires
                        m == tp * (m / tp) + m % tp,
                        s == -m,
                {}
                assert(s / tp == -(m / tp) - 1) by (nonlinear_arith)
                    requires
                        s == (-(m / tp) - 1) * tp + (tp - m % tp),
                        0 < tp - m % tp < tp,
                        tp > 0,
                {}
            }
            assert(k as int == spec_fdiv(s, tp));
        }
        assert(s == tp * spec_fdiv(s, tp) + (s - tp * spec_fdiv(s, tp)));
        assert(0 <= s - tp * spec_fdiv(s, tp) < tp) by (nonlinear_arith)
            requires
                tp > 0,
                spec_fdiv(s, tp) == s / tp,
        {}
    }
    let r: i128 = x.raw as i128 - k * (FX_TWO_PI as i128);
    Fx { raw: r as i64 }
}

/// Sine of an angle in radians; the result is in `[-1, 1]`.
pub fn sin(x: Fx) -> (r: Fx)
    ensures
        r.val() == spec_sin(x.val()),
        -(FX_ONE as int) <= r.val() <= FX_ONE as int,
{
    let xr = reduce_angle(x);
    let x2 = xr.mul(xr);
    let c5 = Fx::one().sub(x2.div(Fx::from_raw(156 * FX_ONE)));
    let c4 = Fx::one().sub(x2.div(Fx::from_raw(110 * FX_ONE)).mul(c5));
    let c3 = Fx::one().sub(x2.div(Fx::from_raw(72 * FX_ONE)).mul(c4));
    let c2 = Fx::one().sub(x2.div(Fx::from_raw(42 * FX_ONE)).mul(c3));
    let c1 = Fx::one().sub(x2.div(Fx::from_raw(20 * FX_ONE)).mul(c2));
    let c0 = Fx::one().sub(x2.div(Fx::from_raw(6 * FX_ONE)).mul(c1));
    clamp_unit(xr.mul(c0))
}

/// Cosine of an angle in radians; the result is in `[-1, 1]`.
pub fn cos(x: Fx) -> (r: Fx)
    ensures
        r.val() == spec_cos(x.val()),
        -(FX_ONE as int) <= r.val() <= FX_ONE as int,
{
    let xr = reduce_angle(x);
    let x2 = xr.mul(xr);
    let c5 = Fx::one().sub(x2.div(Fx::from_raw(132 * FX_ONE)));
    let c4 = Fx::one().sub(x2.div(Fx::from_raw(90 * FX_ONE)).mul(c5));
    let c3 = Fx::one().sub(x2.div(Fx::from_raw(56 * FX_ONE)).mul(c4));
    let c2 = Fx::one().sub(x2.div(Fx::from_raw(30 * FX_ONE)).mul(c3));
    let c1 = Fx::one().sub(x2.div(Fx::from_raw(12 * FX_ONE)).mul(c2));
    clamp_unit(Fx::one().sub(x2.div(Fx::from_raw(2 * FX_ONE)).mul(c1)))
}

pub open spec fn spec_tan(x: int) -> int {
    let s = spec_sin(x);
    let c = spec_cos(x);
    if c == 0 {
        if s < 0 { FX_NEG_INF as int } else { FX_INF as int }
    } else {
        fx_div(s, c)
    }
}

/// Tangent; where the cosine underflows to zero the result saturates.
pub fn tan(x: Fx) -> (r: Fx)
    ensures
        r.val() == spec_tan(x.val()),
{
    let s = sin(x);
    let c = cos(x);
    if c.raw == 0 {
        if s.raw < 0 {
            Fx::neg_infinity()
        } else {
            Fx::infinity()
        }
    } else {
        s.div(c)
    }
}

/// The arctangent polynomial on `[-1, 1]`: an odd quadratic blend that is
/// exact at 0 and at the interval ends.
pub open spec fn spec_atan_poly(t: int) -> int {
    fx_add(
        fx_mul(51472, t),
        fx_mul(17892, fx_mul(t, fx_sub(FX_ONE as int, clip(iabs(t))))),
    )
}

fn atan_poly(t: Fx) -> (r: Fx)
    ensures
        r.val() == spec_atan_poly(t.val()),
{
    let a = Fx::from_raw(51472).mul(t);
    let b = Fx::from_raw(17892).mul(t.mul(Fx::one().sub(t.abs())));
    a.add(b)
}

/// The quadrant-corrected arctangent of `y / x`.
pub open spec fn spec_atan2(y: int, x: int) -> int {
    if x == 0 {
        if y > 0 {
            FX_HALF_PI as int
        } else if y < 0 {
            -(FX_HALF_PI as int)
        } else {
            0
        }
    } else if clip(iabs(y)) <= clip(iabs(x)) {
        let a = spec_atan_poly(fx_div(y, x));
        if x > 0 {
            a
        } else if y >= 0 {
            fx_add(a, FX_PI as int)
        } else {
            fx_sub(a, FX_PI as int)
        }
    } else {
        let a = spec_atan_poly(fx_div(x, y));
        if y > 0 {
            fx_sub(FX_HALF_PI as int, a)
        } else {
            fx_sub(-(FX_HALF_PI as int), a)
        }
    }
}

pub fn atan2(y: Fx, x: Fx) -> (r: Fx)
    ensures
        r.val() == spec_atan2(y.val(), x.val()),
{
    if x.raw == 0 {
        if y.raw > 0 {
            Fx::from_raw(FX_HALF_PI)
        } else if y.raw < 0 {
            Fx::from_raw(-FX_HALF_PI)
        } else {
            Fx::zero()
        }
    } else if y.abs().raw <= x.abs().raw {
        let a = atan_poly(y.div(x));
        if x.raw > 0 {
            a
        } else if y.raw >= 0 {
            a.add(Fx::from_raw(FX_PI))
        } else {
            a.sub(Fx::from_raw(FX_PI))
        }
    } else {
        let a = atan_poly(x.div(y));
        if y.raw > 0 {
            Fx::from_raw(FX_HALF_PI).sub(a)
        } else {
            Fx::from_raw(-FX_HALF_PI).sub(a)
        }
    }
}

/// Arccosine via `atan2(sqrt(1 - x^2), x)` on the clamped argument; the
/// result is in `[0, pi]` at the exact anchor points.
pub open spec fn spec_acos(x: int) -> int {
    let xc = spec_clamp_unit(x);
    let s = fx_sqrt(fx_sub(FX_ONE as int, fx_mul(xc, xc)));
    spec_atan2(s, xc)
}

pub fn acos(x: Fx) -> (r: Fx)
    ensures
        r.val() == spec_acos(x.val()),
{
    let xc = clamp_unit(x);
    let s = Fx::one().sub(xc.mul(xc)).sqrt();
    atan2(s, xc)
}

} // verus!
