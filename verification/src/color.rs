//! Converting linear pixel colors to 8-bit gamma-corrected components.

use vstd::prelude::*;
use crate::fixed::{Fx, FX_ONE, fx_sqrt, tdiv};
use crate::vec3::Color;

verus! {

/// The square-root tone curve; nonpositive inputs give zero.
pub open spec fn spec_linear_to_gamma(x: int) -> int {
    fx_sqrt(x)
}

pub fn linear_to_gamma(x: Fx) -> (r: Fx)
    ensures
        r.val() == spec_linear_to_gamma(x.val()),
{
    x.sqrt()
}

/// An 8-bit component: gamma-corrected, clamped into `[0, 0.999]`, then
/// scaled to the byte range.
pub open spec fn spec_component_to_byte(x: int) -> int {
    let g = spec_linear_to_gamma(x);
    let c = if g < 0 { 0 } else if g > 65470 { 65470 } else { g };
    tdiv(c, 256)
}

pub fn component_to_byte(x: Fx) -> (b: u8)
    ensures
        b as int == spec_component_to_byte(x.val()),
{
    let g = linear_to_gamma(x);
    let c: i64 = if g.raw < 0 {
        0
    } else if g.raw > 65470 {
        65470
    } else {
        g.raw
    };
    ((c as u64) / 256u64) as u8
}

/// The three 8-bit components of a linear color, in red, green, blue
/// order, under the square-root tone curve.
pub fn color_to_rgb8(c: &Color) -> (rgb: (u8, u8, u8))
    ensures
        rgb.0 as int == spec_component_to_byte(c.x.val()),
        rgb.1 as int == spec_component_to_byte(c.y.val()),
        rgb.2 as int == spec_component_to_byte(c.z.val()),
{
    (component_to_byte(c.x), component_to_byte(c.y), component_to_byte(c.z))
}

} // verus!
