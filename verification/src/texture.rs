//! Textures: a color for every surface parameterization.

use vstd::prelude::*;
use crate::aabb::spec_fdiv;
use crate::fixed::{Fx, FX_ONE, fx_add, fx_mul, tdiv, iabs};
use crate::vec3::{Color, Point3, Vec3, spec_v3};

verus! {

pub struct SolidColor {
    pub color_value: Color,
}

/// A checkerboard over two sub-textures, chosen by the parity of the
/// floored scaled spatial coordinates.
pub struct CheckerTexture {
    pub inv_scale: Fx,
    pub even: Box<Texture>,
    pub odd: Box<Texture>,
}

/// An image on plain pixel data in row-major order; the loader that reads
/// a file lives outside the library and hands pixels in.
pub struct ImageTexture {
    pub width: usize,
    pub height: usize,
    pub data: Vec<Color>,
}

/// Marble-like noise: a sine of depth plus scaled turbulence, in gray.
pub struct NoiseTexture {
    pub noise: crate::perlin::Perlin,
    pub scale: Fx,
}

pub enum Texture {
    Solid(SolidColor),
    Checker(CheckerTexture),
    Image(ImageTexture),
    Noise(NoiseTexture),
}

/// The gray level a noise texture answers: half of one plus the sine of
/// the scaled depth plus ten times the octave turbulence.
pub open spec fn spec_noise_value(nt: NoiseTexture, p: Point3) -> int {
    let arg = fx_add(
        fx_mul(nt.scale.val(), p.z.val()),
        fx_mul(
            10 * FX_ONE as int,
            crate::perlin::spec_turb_from(nt.noise, p, 7, FX_ONE as int, 0),
        ),
    );
    fx_mul(32768, fx_add(FX_ONE as int, crate::trig::spec_sin(arg)))
}

/// The parity of a sum of floored coordinates: true when even.
pub open spec fn spec_parity_even(s: int) -> bool {
    iabs(s) % 2 == 0
}

pub open spec fn spec_checker_even(inv_scale: int, p: Point3) -> bool {
    let xi = spec_fdiv(fx_mul(inv_scale, p.x.val()), FX_ONE as int);
    let yi = spec_fdiv(fx_mul(inv_scale, p.y.val()), FX_ONE as int);
    let zi = spec_fdiv(fx_mul(inv_scale, p.z.val()), FX_ONE as int);
    spec_parity_even(xi + yi + zi)
}

/// The pixel an image texture answers with: coordinates clamped to the
/// unit square, `v` flipped, scaled to the pixel grid and clamped to the
/// edges; out-of-table indices answer black.
pub open spec fn spec_image_value(t: ImageTexture, u: int, v: int) -> Color {
    if t.width == 0 || t.height == 0 {
        spec_v3(0, 0, 0)
    } else {
        let uc = if u < 0 { 0 } else if u > FX_ONE as int { FX_ONE as int } else { u };
        let vc0 = if v < 0 { 0 } else if v > FX_ONE as int { FX_ONE as int } else { v };
        let vc = FX_ONE as int - vc0;
        let i0 = tdiv(uc * t.width as int, FX_ONE as int);
        let j0 = tdiv(vc * t.height as int, FX_ONE as int);
        let i = if i0 >= t.width as int { t.width as int - 1 } else { i0 };
        let j = if j0 >= t.height as int { t.height as int - 1 } else { j0 };
        let idx = j * t.width as int + i;
        if 0 <= idx < t.data@.len() {
            t.data@[idx]
        } else {
            spec_v3(0, 0, 0)
        }
    }
}

/// The color of a texture at a surface parameterization.
pub open spec fn spec_texture_value(t: Texture, u: int, v: int, p: Point3) -> Color
    decreases t,
{
    match t {
        Texture::Solid(s) => s.color_value,
        Texture::Checker(c) => if spec_checker_even(c.inv_scale.val(), p) {
            spec_texture_value(*c.even, u, v, p)
        } else {
            spec_texture_value(*c.odd, u, v, p)
        },
        Texture::Image(img) => spec_image_value(img, u, v),
        Texture::Noise(nt) => {
            let g = spec_noise_value(nt, p);
            spec_v3(g, g, g)
        },
    }
}

/// Every color a texture stores is nonnegative.
pub open spec fn nonneg_texture(t: Texture) -> bool
    decreases t,
{
    match t {
        Texture::Solid(s) => crate::vec3::nonneg_v3(s.color_value),
        Texture::Checker(c) => nonneg_texture(*c.even) && nonneg_texture(*c.odd),
        Texture::Image(img) => forall|i: int|
            0 <= i < img.data@.len() ==> crate::vec3::nonneg_v3(#[trigger] img.data@[i]),
        Texture::Noise(_) => true,
    }
}

/// A texture of nonnegative stored colors answers a nonnegative color.
pub proof fn lemma_texture_value_nonneg(t: Texture, u: int, v: int, p: Point3)
    requires
        nonneg_texture(t),
    ensures
        crate::vec3::nonneg_v3(spec_texture_value(t, u, v, p)),
    decreases t,
{
    match t {
        Texture::Solid(_) => {}
        Texture::Checker(c) => {
            if spec_checker_even(c.inv_scale.val(), p) {
                lemma_texture_value_nonneg(*c.even, u, v, p);
            } else {
                lemma_texture_value_nonneg(*c.odd, u, v, p);
            }
        }
        Texture::Image(_) => {}
        Texture::Noise(nt) => {
            let arg = fx_add(
                fx_mul(nt.scale.val(), p.z.val()),
                fx_mul(
                    10 * FX_ONE as int,
                    crate::perlin::spec_turb_from(nt.noise, p, 7, FX_ONE as int, 0),
                ),
            );
            assert(crate::trig::spec_sin(arg) >= -(FX_ONE as int));
            crate::fixed::lemma_fx_mul_nonneg(
                32768,
                fx_add(FX_ONE as int, crate::trig::spec_sin(arg)),
            );
        }
    }
}

fn parity_even(s: i64) -> (r: bool)
    ensures
        r == spec_parity_even(s as int),
{
    let m: u64 = if s >= 0 {
        s as u64
    } else {
        (-(s as i128)) as u64
    };
    m % 2u64 == 0
}

impl SolidColor {
    pub fn new(color_value: Color) -> (r: SolidColor)
        ensures
            r.color_value == color_value,
    {
        SolidColor { color_value }
    }
}

impl CheckerTexture {
    /// A checker of the given cell scale over two sub-textures.
    ///
    /// A zero scale has no reciprocal on the fixed-point grid (floating
    /// point would resolve the division to an infinity), so it is excluded
    /// rather than resolved to a sentinel.
    pub fn new(scale: Fx, even: Box<Texture>, odd: Box<Texture>) -> (r: CheckerTexture)
        requires
            scale.val() != 0,
        ensures
            r.inv_scale.val() == crate::fixed::fx_div(FX_ONE as int, scale.val()),
            r.even == even,
            r.odd == odd,
    {
        CheckerTexture { inv_scale: Fx::one().div(scale), even, odd }
    }
}

impl ImageTexture {
    /// An image texture over plain row-major pixels.
    pub fn new(width: usize, height: usize, data: Vec<Color>) -> (r: ImageTexture)
        ensures
            r.width == width,
            r.height == height,
            r.data == data,
    {
        ImageTexture { width, height, data }
    }
}

impl NoiseTexture {
    /// A noise texture of the given scale, with fresh tables drawn from
    /// the given generator.
    pub fn new(scale: Fx, rng: &mut crate::rng::Rng) -> (r: NoiseTexture)
        ensures
            r.scale == scale,
            crate::perlin::perlin_wf(r.noise),
            ({
                let rv = crate::perlin::spec_ranvec_from(old(rng).state, 0, Seq::empty());
                let px = crate::perlin::spec_permute_from(
                    crate::perlin::spec_perm_init(),
                    rv.1,
                    255,
                );
                let py = crate::perlin::spec_permute_from(
                    crate::perlin::spec_perm_init(),
                    px.1,
                    255,
                );
                let pz = crate::perlin::spec_permute_from(
                    crate::perlin::spec_perm_init(),
                    py.1,
                    255,
                );
                r.noise.ranvec@ == rv.0 && r.noise.perm_x@ == px.0 && r.noise.perm_y@ == py.0
                    && r.noise.perm_z@ == pz.0 && final(rng).state == pz.1
            }),
    {
        NoiseTexture { noise: crate::perlin::Perlin::new(rng), scale }
    }
}

impl Texture {
    pub fn value(&self, u: Fx, v: Fx, p: &Point3) -> (r: Color)
        ensures
            r == spec_texture_value(*self, u.val(), v.val(), *p),
        decreases *self,
    {
        match self {
            Texture::Solid(s) => s.color_value,
            Texture::Checker(c) => {
                let fx_x = c.inv_scale.mul(p.x);
                let fx_y = c.inv_scale.mul(p.y);
                let fx_z = c.inv_scale.mul(p.z);
                let xi = fx_x.floor();
                let yi = fx_y.floor();
                let zi = fx_z.floor();
                proof {
                    crate::aabb::lemma_fdiv_range(fx_x.val(), FX_ONE as int);
                    crate::aabb::lemma_fdiv_range(fx_y.val(), FX_ONE as int);
                    crate::aabb::lemma_fdiv_range(fx_z.val(), FX_ONE as int);
                }
                let s: i64 = xi + yi + zi;
                if parity_even(s) {
                    c.even.value(u, v, p)
                } else {
                    c.odd.value(u, v, p)
                }
            }
            Texture::Image(img) => {
                if img.width == 0 || img.height == 0 {
                    return Vec3::origin();
                }
                let uc = if u.raw < 0 {
                    Fx::zero()
                } else if u.raw > FX_ONE {
                    Fx::one()
                } else {
                    u
                };
                let vc0 = if v.raw < 0 {
                    Fx::zero()
                } else if v.raw > FX_ONE {
                    Fx::one()
                } else {
                    v
                };
                let vc = Fx::one().sub(vc0);
                proof {
                    assert((uc.raw as u128) as int * ((img.width as u128) as int)
                        <= 65536 * 0xffffffffffffffff) by (nonlinear_arith)
                        requires
                            0 <= (uc.raw as u128) as int <= 65536,
                            0 <= ((img.width as u128) as int) <= 0xffffffffffffffff,
                    {}
                    assert((vc.raw as u128) as int * ((img.height as u128) as int)
                        <= 65536 * 0xffffffffffffffff) by (nonlinear_arith)
                        requires
                            0 <= (vc.raw as u128) as int <= 65536,
                            0 <= ((img.height as u128) as int) <= 0xffffffffffffffff,
                    {}
                }
                let i0: u128 = (uc.raw as u128) * (img.width as u128) / 65536u128;
                let j0: u128 = (vc.raw as u128) * (img.height as u128) / 65536u128;
                let i: usize = if i0 >= img.width as u128 {
                    img.width - 1
                } else {
                    i0 as usize
                };
                let j: usize = if j0 >= img.height as u128 {
                    img.height - 1
                } else {
                    j0 as usize
                };
                proof {
                    assert(uc.val() * (img.width as int) >= 0) by (nonlinear_arith)
                        requires
                            uc.val() >= 0,
                            img.width as int >= 0,
                    {}
                    assert(vc.val() * (img.height as int) >= 0) by (nonlinear_arith)
                        requires
                            vc.val() >= 0,
                            img.height as int >= 0,
                    {}
                }
                proof {
                    assert((j as u128) as int * ((img.width as u128) as int)
                        <= 0xffffffffffffffff * 0xffffffffffffffff) by (nonlinear_arith)
                        requires
                            (j as u128) as int <= 0xffffffffffffffff,
                            ((img.width as u128) as int) <= 0xffffffffffffffff,
                            (j as u128) as int >= 0,
                            ((img.width as u128) as int) >= 0,
                    {}
                }
                let idx128: u128 = (j as u128) * (img.width as u128) + (i as u128);
                if idx128 < img.data.len() as u128 {
                    img.data[idx128 as usize]
                } else {
                    Vec3::origin()
                }
            }
            Texture::Noise(nt) => {
                let arg = nt.scale.mul(p.z).add(
                    Fx::from_raw(10 * FX_ONE).mul(nt.noise.turb(p, 7)),
                );
                let g = Fx::from_raw(32768).mul(Fx::one().add(crate::trig::sin(arg)));
                Vec3 { x: g, y: g, z: g }
            }
        }
    }
}

} // verus!
