//! The camera: primary-ray generation and the Monte Carlo path integrator.
//!
//! Rendering is a pure function of the scene, the parameters and a seed:
//! every random choice comes from an explicit generator threaded through
//! the sampling, and each image row draws from its own generator seeded
//! from the render seed and the row index. The contracts pin the whole
//! pixel buffer to a specification-level mirror of the computation, so
//! re-rendering with the same seed provably reproduces the same bytes.

use vstd::prelude::*;
use crate::fixed::{Fx, FX_ONE, FX_INF, fx_add, fx_div, fx_mul, fx_sub, sqrt_floor};
use crate::hittable::{HitRecord, Hittable, FX_T_MIN, spec_hit};
use crate::interval::Interval;
use crate::material::{
    Material, ScatterRecord, spec_emitted, spec_scatter, spec_scattering_pdf,
};
use crate::pdf::{
    HittablePdf, MixturePdf, Pdf, spec_mixture_generate, spec_mixture_value, spec_pdf_generate,
    spec_pdf_value_of,
};
use crate::ray::Ray;
use crate::rng::{Rng, spec_next_state, spec_unit_sample};
use crate::trig::{degrees_to_radians, spec_degrees_to_radians, spec_tan, tan};
use crate::vec3::{
    Color, Point3, Vec3, spec_v3, v3_add, v3_cross, v3_div_s, v3_mul, v3_neg, v3_scale, v3_sub,
    v3_unit, spec_random_in_unit_disk, random_in_unit_disk,
};

verus! {

#[derive(Clone, Copy, Debug, PartialEq, Eq, Structural)]
pub struct Camera {
    pub lookfrom: Point3,
    pub lookat: Point3,
    pub image_width: usize,
    pub aspect_ratio: Fx,
    pub samples_per_pixel: u32,
    pub max_depth: u32,
    pub background: Color,
    pub vfov: Fx,
    pub defocus_angle: Fx,
    pub focus_dist: Fx,
    pub vup: Vec3,
    pub image_height: usize,
    pub pixel_samples_scale: Fx,
    pub sqrt_spp: u32,
    pub recip_sqrt_spp: Fx,
    pub center: Point3,
    pub pixel00_loc: Point3,
    pub pixel_delta_u: Vec3,
    pub pixel_delta_v: Vec3,
    pub defocus_disk_u: Vec3,
    pub defocus_disk_v: Vec3,
}

/// The derived viewport geometry, computed once from the user parameters.
pub open spec fn spec_camera(
    lookfrom: Point3,
    lookat: Point3,
    image_width: usize,
    aspect_ratio: Fx,
    samples_per_pixel: u32,
    max_depth: u32,
    background: Color,
    vfov: Fx,
    defocus_angle: Fx,
    focus_dist: Fx,
) -> Camera {
    let ihf = fx_div(crate::fixed::clip(image_width as int * FX_ONE as int), aspect_ratio.val());
    let ih0 = crate::aabb::spec_fdiv(ihf, FX_ONE as int);
    let image_height = if ih0 < 1 { 1int } else { ih0 };
    let sqrt_spp = sqrt_floor(samples_per_pixel as int);
    let pixel_samples_scale = fx_div(
        FX_ONE as int,
        crate::fixed::clip(samples_per_pixel as int * FX_ONE as int),
    );
    let recip_sqrt_spp = fx_div(FX_ONE as int, crate::fixed::clip(sqrt_spp * FX_ONE as int));
    let center = lookfrom;
    let theta = spec_degrees_to_radians(vfov.val());
    let h = spec_tan(fx_div(theta, 2 * FX_ONE as int));
    let viewport_height = fx_mul(fx_mul(2 * FX_ONE as int, h), focus_dist.val());
    let viewport_width = fx_mul(
        viewport_height,
        fx_div(
            crate::fixed::clip(image_width as int * FX_ONE as int),
            crate::fixed::clip(image_height * FX_ONE as int),
        ),
    );
    let vup = spec_v3(0, FX_ONE as int, 0);
    let w = v3_unit(v3_sub(lookfrom, lookat));
    let u = v3_unit(v3_cross(vup, w));
    let v = v3_cross(w, u);
    let viewport_u = v3_scale(u, viewport_width);
    let viewport_v = v3_scale(v3_neg(v), viewport_height);
    let pixel_delta_u = v3_div_s(viewport_u, crate::fixed::clip(image_width as int * FX_ONE as int));
    let pixel_delta_v = v3_div_s(viewport_v, crate::fixed::clip(image_height * FX_ONE as int));
    let viewport_upper_left = v3_sub(
        v3_sub(
            v3_sub(center, v3_scale(w, focus_dist.val())),
            v3_div_s(viewport_u, 2 * FX_ONE as int),
        ),
        v3_div_s(viewport_v, 2 * FX_ONE as int),
    );
    let pixel00_loc = v3_add(
        viewport_upper_left,
        v3_scale(v3_add(pixel_delta_u, pixel_delta_v), 32768),
    );
    let defocus_radius = fx_mul(
        focus_dist.val(),
        spec_tan(fx_div(spec_degrees_to_radians(defocus_angle.val()), 2 * FX_ONE as int)),
    );
    let defocus_disk_u = v3_scale(u, defocus_radius);
    let defocus_disk_v = v3_scale(v, defocus_radius);
    Camera {
        lookfrom,
        lookat,
        image_width,
        aspect_ratio,
        samples_per_pixel,
        max_depth,
        background,
        vfov,
        defocus_angle,
        focus_dist,
        vup,
        image_height: image_height as usize,
        pixel_samples_scale: crate::vec3::fxv(pixel_samples_scale),
        sqrt_spp: sqrt_spp as u32,
        recip_sqrt_spp: crate::vec3::fxv(recip_sqrt_spp),
        center,
        pixel00_loc,
        pixel_delta_u,
        pixel_delta_v,
        defocus_disk_u,
        defocus_disk_v,
    }
}

/// The stratified sub-pixel offset for stratum `(s_i, s_j)`, jittered
/// within the stratum.
pub open spec fn spec_sample_square_stratified(cam: Camera, s_i: u32, s_j: u32, s0: u64) -> (
    Vec3,
    u64,
) {
    let s1 = spec_next_state(s0);
    let s2 = spec_next_state(s1);
    let px = fx_sub(
        fx_mul(
            fx_add(crate::fixed::clip(s_i as int * FX_ONE as int), spec_unit_sample(s1).val()),
            cam.recip_sqrt_spp.val(),
        ),
        32768,
    );
    let py = fx_sub(
        fx_mul(
            fx_add(crate::fixed::clip(s_j as int * FX_ONE as int), spec_unit_sample(s2).val()),
            cam.recip_sqrt_spp.val(),
        ),
        32768,
    );
    (spec_v3(px, py, 0), s2)
}

/// The primary ray for pixel `(i, j)` and stratum `(s_i, s_j)`: a jittered
/// point on the pixel, an origin on the defocus disk (or the pinhole
/// center), and a random shutter time.
pub open spec fn spec_get_ray(cam: Camera, i: usize, j: usize, s_i: u32, s_j: u32, s0: u64) -> (
    Ray,
    u64,
) {
    let off = spec_sample_square_stratified(cam, s_i, s_j, s0);
    let pixel_sample = v3_add(
        v3_add(
            cam.pixel00_loc,
            v3_scale(
                cam.pixel_delta_u,
                fx_add(crate::fixed::clip(i as int * FX_ONE as int), off.0.x.val()),
            ),
        ),
        v3_scale(
            cam.pixel_delta_v,
            fx_add(crate::fixed::clip(j as int * FX_ONE as int), off.0.y.val()),
        ),
    );
    let og = if cam.defocus_angle.val() <= 0 {
        (cam.center, off.1)
    } else {
        let d = spec_random_in_unit_disk(off.1, 32);
        (
            v3_add(
                v3_add(cam.center, v3_scale(cam.defocus_disk_u, d.0.x.val())),
                v3_scale(cam.defocus_disk_v, d.0.y.val()),
            ),
            d.1,
        )
    };
    let st = spec_next_state(og.1);
    let time = spec_unit_sample(st);
    (Ray { orig: og.0, dir: v3_sub(pixel_sample, og.0), time }, st)
}

/// The recursive radiance estimate: emission plus importance-sampled
/// scattering, cut off at the depth bound; a miss answers the background,
/// a zero sampling density contributes emission alone. Opaque: callers
/// treat one estimate as a value; proofs about its shape reveal it.
#[verifier::opaque]
pub open spec fn spec_ray_color(
    cam: Camera,
    r: Ray,
    world: Hittable,
    lights: Hittable,
    direct_light_sampling: bool,
    depth: u32,
    mats: Seq<Material>,
    s0: u64,
) -> (Color, u64)
    decreases depth,
{
    if depth == 0 {
        (spec_v3(0, 0, 0), s0)
    } else {
        match spec_hit(world, r, FX_T_MIN as int, FX_INF as int) {
            Option::None => (cam.background, s0),
            Option::Some(rec) => {
                if rec.mat >= mats.len() {
                    (spec_v3(0, 0, 0), s0)
                } else {
                    let m = mats[rec.mat as int];
                    let emission = spec_emitted(m, rec);
                    let sc = spec_scatter(m, r, rec, s0);
                    match sc.0 {
                        Option::None => (emission, sc.1),
                        Option::Some(srec) => {
                            if srec.skip_pdf {
                                let rc = spec_ray_color(
                                    cam,
                                    srec.skip_pdf_ray,
                                    world,
                                    lights,
                                    direct_light_sampling,
                                    (depth - 1) as u32,
                                    mats,
                                    sc.1,
                                );
                                (v3_mul(srec.attenuation, rc.0), rc.1)
                            } else {
                                match srec.opt_pdf {
                                    Option::None => (emission, sc.1),
                                    Option::Some(mpdf) => {
                                        let gen = if direct_light_sampling {
                                            spec_mixture_generate(lights, rec.p, mpdf, sc.1)
                                        } else {
                                            spec_pdf_generate(mpdf, sc.1)
                                        };
                                        let scattered = Ray {
                                            orig: rec.p,
                                            dir: gen.0,
                                            time: r.time,
                                        };
                                        let pdf_val = if direct_light_sampling {
                                            spec_mixture_value(lights, rec.p, mpdf, gen.0)
                                        } else {
                                            spec_pdf_value_of(mpdf, gen.0)
                                        };
                                        if pdf_val == 0 {
                                            (emission, gen.1)
                                        } else {
                                            let spdf = spec_scattering_pdf(m, rec, scattered);
                                            let rc = spec_ray_color(
                                                cam,
                                                scattered,
                                                world,
                                                lights,
                                                direct_light_sampling,
                                                (depth - 1) as u32,
                                                mats,
                                                gen.1,
                                            );
                                            let scatter_col = v3_div_s(
                                                v3_mul(v3_scale(srec.attenuation, spdf), rc.0),
                                                pdf_val,
                                            );
                                            (v3_add(emission, scatter_col), rc.1)
                                        }
                                    }
                                }
                            }
                        }
                    }
                }
            }
        }
    }
}

/// The inner stratified-sample loop over `s_i` at fixed `s_j`.
pub open spec fn spec_pixel_cols(
    cam: Camera,
    world: Hittable,
    lights: Hittable,
    direct_light_sampling: bool,
    mats: Seq<Material>,
    i: usize,
    j: usize,
    s_j: u32,
    s_i: int,
    acc: Color,
    s0: u64,
) -> (Color, u64)
    decreases cam.sqrt_spp - s_i,
{
    if s_i < 0 || s_i >= cam.sqrt_spp {
        (acc, s0)
    } else {
        let g = spec_get_ray(cam, i, j, s_i as u32, s_j, s0);
        let rc = spec_ray_color(
            cam,
            g.0,
            world,
            lights,
            direct_light_sampling,
            cam.max_depth,
            mats,
            g.1,
        );
        spec_pixel_cols(
            cam,
            world,
            lights,
            direct_light_sampling,
            mats,
            i,
            j,
            s_j,
            s_i + 1,
            v3_add(acc, rc.0),
            rc.1,
        )
    }
}

/// The outer stratified-sample loop over `s_j`.
pub open spec fn spec_pixel_rows(
    cam: Camera,
    world: Hittable,
    lights: Hittable,
    direct_light_sampling: bool,
    mats: Seq<Material>,
    i: usize,
    j: usize,
    s_j: int,
    acc: Color,
    s0: u64,
) -> (Color, u64)
    decreases cam.sqrt_spp - s_j,
{
    if s_j < 0 || s_j >= cam.sqrt_spp {
        (acc, s0)
    } else {
        let inner = spec_pixel_cols(
            cam,
            world,
            lights,
            direct_light_sampling,
            mats,
            i,
            j,
            s_j as u32,
            0,
            acc,
            s0,
        );
        spec_pixel_rows(
            cam,
            world,
            lights,
            direct_light_sampling,
            mats,
            i,
            j,
            s_j + 1,
            inner.0,
            inner.1,
        )
    }
}

/// One pixel: the sample sum scaled by the per-sample weight.
pub open spec fn spec_render_pixel(
    cam: Camera,
    world: Hittable,
    lights: Hittable,
    direct_light_sampling: bool,
    mats: Seq<Material>,
    i: usize,
    j: usize,
    s0: u64,
) -> (Color, u64) {
    let folded = spec_pixel_rows(
        cam,
        world,
        lights,
        direct_light_sampling,
        mats,
        i,
        j,
        0,
        spec_v3(0, 0, 0),
        s0,
    );
    (v3_scale(folded.0, cam.pixel_samples_scale.val()), folded.1)
}

/// The generator seed a row starts from.
pub open spec fn spec_row_seed(seed: u64, j: int) -> u64 {
    seed ^ ((((j + 1) * 0x9e3779b97f4a7c15) % 0x10000000000000000) as u64)
}

/// The pixels of one row from column `i` on, threading the row generator.
pub open spec fn spec_row_from(
    cam: Camera,
    world: Hittable,
    lights: Hittable,
    direct_light_sampling: bool,
    mats: Seq<Material>,
    j: usize,
    i: int,
    s0: u64,
    acc: Seq<Color>,
) -> Seq<Color>
    decreases cam.image_width - i,
{
    if i < 0 || i >= cam.image_width {
        acc
    } else {
        let px = spec_render_pixel(cam, world, lights, direct_light_sampling, mats, i as usize, j, s0);
        spec_row_from(
            cam,
            world,
            lights,
            direct_light_sampling,
            mats,
            j,
            i + 1,
            px.1,
            acc.push(px.0),
        )
    }
}

/// One full row, rendered from its own generator.
pub open spec fn spec_render_row(
    cam: Camera,
    world: Hittable,
    lights: Hittable,
    direct_light_sampling: bool,
    mats: Seq<Material>,
    j: usize,
    seed: u64,
) -> Seq<Color> {
    let s0 = if spec_row_seed(seed, j as int) == 0 {
        0x9e3779b97f4a7c15u64
    } else {
        spec_row_seed(seed, j as int)
    };
    spec_row_from(cam, world, lights, direct_light_sampling, mats, j, 0, s0, Seq::empty())
}

/// The whole image from row `j` on, row-major.
pub open spec fn spec_render_from(
    cam: Camera,
    world: Hittable,
    lights: Hittable,
    direct_light_sampling: bool,
    mats: Seq<Material>,
    seed: u64,
    j: int,
    acc: Seq<Color>,
) -> Seq<Color>
    decreases cam.image_height - j,
{
    if j < 0 || j >= cam.image_height {
        acc
    } else {
        spec_render_from(
            cam,
            world,
            lights,
            direct_light_sampling,
            mats,
            seed,
            j + 1,
            acc + spec_render_row(cam, world, lights, direct_light_sampling, mats, j as usize, seed),
        )
    }
}

/// The full rendered image: a pure function of scene, parameters and seed.
pub open spec fn spec_render(
    cam: Camera,
    world: Hittable,
    lights: Hittable,
    direct_light_sampling: bool,
    mats: Seq<Material>,
    seed: u64,
) -> Seq<Color> {
    spec_render_from(cam, world, lights, direct_light_sampling, mats, seed, 0, Seq::empty())
}

impl Camera {
    /// Precomputes the viewport geometry from the user parameters.
    ///
    /// The width cap is a machine limit, not a design one: it keeps the
    /// per-pixel deltas and pixel coordinates within the fixed-point range
    /// so the viewport arithmetic cannot saturate.
    pub fn new(
        lookfrom: Point3,
        lookat: Point3,
        image_width: usize,
        aspect_ratio: Fx,
        samples_per_pixel: u32,
        max_depth: u32,
        background: Color,
        vfov: Fx,
        defocus_angle: Fx,
        focus_dist: Fx,
    ) -> (cam: Camera)
        requires
            1 <= image_width <= 30000,
            aspect_ratio.val() > 0,
            1 <= samples_per_pixel,
        ensures
            cam == spec_camera(
                lookfrom,
                lookat,
                image_width,
                aspect_ratio,
                samples_per_pixel,
                max_depth,
                background,
                vfov,
                defocus_angle,
                focus_dist,
            ),
    {
        let iw_fx = Fx::from_usize(image_width);
        let ihf = iw_fx.div(aspect_ratio);
        let ih0 = ihf.floor();
        let image_height: usize = if ih0 < 1 {
            1
        } else {
            ih0 as usize
        };
        let sqrt_spp32 = crate::fixed::isqrt_u64(samples_per_pixel as u64);
        proof {
            assert(sqrt_spp32 as int <= 0x10000) by (nonlinear_arith)
                requires
                    (sqrt_spp32 as int) * (sqrt_spp32 as int) <= samples_per_pixel as int,
                    samples_per_pixel as int <= 0xffffffff,
                    sqrt_spp32 as int >= 0,
            {}
            assert(sqrt_spp32 as int >= 1) by (nonlinear_arith)
                requires
                    (samples_per_pixel as int) < (sqrt_spp32 as int + 1) * (sqrt_spp32 as int + 1),
                    samples_per_pixel as int >= 1,
                    sqrt_spp32 as int >= 0,
            {}
        }
        let sqrt_spp: u32 = sqrt_spp32 as u32;
        let pixel_samples_scale = Fx::one().div(Fx::from_usize(samples_per_pixel as usize));
        proof {
            assert(crate::fixed::clip(sqrt_spp as int * FX_ONE as int) > 0) by (nonlinear_arith)
                requires
                    sqrt_spp as int >= 1,
                    FX_ONE as int == 65536,
            {}
        }
        let recip_sqrt_spp = Fx::one().div(Fx::from_usize(sqrt_spp as usize));
        let center = lookfrom;
        let theta = degrees_to_radians(vfov);
        let h = tan(theta.div(Fx::from_raw(2 * FX_ONE)));
        let viewport_height = Fx::from_raw(2 * FX_ONE).mul(h).mul(focus_dist);
        let viewport_width = viewport_height.mul(iw_fx.div(Fx::from_usize(image_height)));
        let vup = Vec3 { x: Fx::zero(), y: Fx::one(), z: Fx::zero() };
        let w = lookfrom.sub(lookat).unit();
        let u = vup.cross(w).unit();
        let v = w.cross(u);
        let viewport_u = u.scale(viewport_width);
        let viewport_v = v.neg().scale(viewport_height);
        let pixel_delta_u = viewport_u.div_fx(iw_fx);
        let pixel_delta_v = viewport_v.div_fx(Fx::from_usize(image_height));
        let viewport_upper_left = center.sub(w.scale(focus_dist)).sub(
            viewport_u.div_fx(Fx::from_raw(2 * FX_ONE)),
        ).sub(viewport_v.div_fx(Fx::from_raw(2 * FX_ONE)));
        let pixel00_loc = viewport_upper_left.add(
            pixel_delta_u.add(pixel_delta_v).scale(Fx::from_raw(32768)),
        );
        let defocus_radius = focus_dist.mul(
            tan(degrees_to_radians(defocus_angle).div(Fx::from_raw(2 * FX_ONE))),
        );
        let defocus_disk_u = u.scale(defocus_radius);
        let defocus_disk_v = v.scale(defocus_radius);
        Camera {
            lookfrom,
            lookat,
            image_width,
            aspect_ratio,
            samples_per_pixel,
            max_depth,
            background,
            vfov,
            defocus_angle,
            focus_dist,
            vup,
            image_height,
            pixel_samples_scale,
            sqrt_spp,
            recip_sqrt_spp,
            center,
            pixel00_loc,
            pixel_delta_u,
            pixel_delta_v,
            defocus_disk_u,
            defocus_disk_v,
        }
    }

    fn sample_square_stratified(&self, s_i: u32, s_j: u32, rng: &mut Rng) -> (r: Vec3)
        ensures
            (r, final(rng).state) == spec_sample_square_stratified(*self, s_i, s_j, old(rng).state),
    {
        let rx = rng.random();
        let ry = rng.random();
        let px = Fx::from_usize(s_i as usize).add(rx).mul(self.recip_sqrt_spp).sub(
            Fx::from_raw(32768),
        );
        let py = Fx::from_usize(s_j as usize).add(ry).mul(self.recip_sqrt_spp).sub(
            Fx::from_raw(32768),
        );
        Vec3 { x: px, y: py, z: Fx::zero() }
    }

    fn defocus_disk_sample(&self, rng: &mut Rng) -> (r: Point3)
        ensures
            ({
                let d = spec_random_in_unit_disk(old(rng).state, 32);
                r == v3_add(
                    v3_add(self.center, v3_scale(self.defocus_disk_u, d.0.x.val())),
                    v3_scale(self.defocus_disk_v, d.0.y.val()),
                ) && final(rng).state == d.1
            }),
    {
        let p = random_in_unit_disk(rng);
        self.center.add(self.defocus_disk_u.scale(p.x)).add(self.defocus_disk_v.scale(p.y))
    }

    /// The primary ray for a pixel and stratum.
    pub fn get_ray(&self, i: usize, j: usize, s_i: u32, s_j: u32, rng: &mut Rng) -> (r: Ray)
        ensures
            (r, final(rng).state) == spec_get_ray(*self, i, j, s_i, s_j, old(rng).state),
    {
        let offset = self.sample_square_stratified(s_i, s_j, rng);
        let pixel_sample = self.pixel00_loc.add(
            self.pixel_delta_u.scale(Fx::from_usize(i).add(offset.x)),
        ).add(self.pixel_delta_v.scale(Fx::from_usize(j).add(offset.y)));
        let ray_origin = if self.defocus_angle.raw <= 0 {
            self.center
        } else {
            self.defocus_disk_sample(rng)
        };
        let ray_time = rng.random();
        Ray::new_with_time(ray_origin, pixel_sample.sub(ray_origin), ray_time)
    }

    /// The path integrator: emission plus importance-sampled scattering,
    /// truncated at the depth bound.
    pub fn ray_color(
        &self,
        r: Ray,
        world: &Hittable,
        lights: &Hittable,
        direct_light_sampling: bool,
        depth: u32,
        materials: &Vec<Material>,
        rng: &mut Rng,
    ) -> (res: Color)
        ensures
            (res, final(rng).state) == spec_ray_color(
                *self,
                r,
                *world,
                *lights,
                direct_light_sampling,
                depth,
                materials@,
                old(rng).state,
            ),
        decreases depth,
    {
        proof {
            reveal(spec_ray_color);
        }
        if depth == 0 {
            return Vec3::origin();
        }
        let window = Interval::new(Fx::from_raw(FX_T_MIN), Fx::infinity());
        let hit = world.hit(&r, window);
        match hit {
            None => self.background,
            Some(rec) => {
                if rec.mat >= materials.len() {
                    return Vec3::origin();
                }
                let m = &materials[rec.mat];
                let emission = m.emitted(&rec);
                let sc = m.scatter(&r, &rec, rng);
                match sc {
                    None => emission,
                    Some(srec) => {
                        if srec.skip_pdf {
                            let rc = self.ray_color(
                                srec.skip_pdf_ray,
                                world,
                                lights,
                                direct_light_sampling,
                                depth - 1,
                                materials,
                                rng,
                            );
                            srec.attenuation.mul(rc)
                        } else {
                            match srec.opt_pdf {
                                None => emission,
                                Some(mpdf) => {
                                    let dir: Vec3;
                                    let pdf_val: Fx;
                                    if direct_light_sampling {
                                        let light_pdf = HittablePdf::new(lights, rec.p);
                                        let mixed = MixturePdf::new(light_pdf, mpdf);
                                        dir = mixed.generate(rng);
                                        pdf_val = mixed.value(&dir);
                                    } else {
                                        dir = mpdf.generate(rng);
                                        pdf_val = mpdf.value(&dir);
                                    }
                                    let scattered = Ray::new_with_time(rec.p, dir, r.time);
                                    if pdf_val.raw == 0 {
                                        emission
                                    } else {
                                        let spdf = m.scattering_pdf(&r, &rec, &scattered);
                                        let rc = self.ray_color(
                                            scattered,
                                            world,
                                            lights,
                                            direct_light_sampling,
                                            depth - 1,
                                            materials,
                                            rng,
                                        );
                                        emission.add(
                                            srec.attenuation.scale(spdf).mul(rc).div_fx(pdf_val),
                                        )
                                    }
                                }
                            }
                        }
                    }
                }
            }
        }
    }

    /// One image row, rendered from the row's own generator; rows are
    /// independent, so callers may compute them in any order.
    pub fn render_row(
        &self,
        world: &Hittable,
        lights: &Hittable,
        direct_light_sampling: bool,
        materials: &Vec<Material>,
        j: usize,
        seed: u64,
    ) -> (row: Vec<Color>)
        ensures
            row@ == spec_render_row(
                *self,
                *world,
                *lights,
                direct_light_sampling,
                materials@,
                j,
                seed,
            ),
    {
        let mut rng = Rng::new(row_seed(seed, j));
        let ghost s_start = rng.state;
        let mut row: Vec<Color> = Vec::new();
        let width = self.image_width;
        let mut i: usize = 0;
        while i < width
            invariant
                width == self.image_width,
                0 <= i <= width,
                spec_row_from(
                    *self,
                    *world,
                    *lights,
                    direct_light_sampling,
                    materials@,
                    j,
                    0,
                    s_start,
                    Seq::empty(),
                ) == spec_row_from(
                    *self,
                    *world,
                    *lights,
                    direct_light_sampling,
                    materials@,
                    j,
                    i as int,
                    rng.state,
                    row@,
                ),
            decreases width - i,
        {
            let px = self.render_pixel(world, lights, direct_light_sampling, materials, i, j, &mut rng);
            row.push(px);
            i = i + 1;
        }
        row
    }

    /// One pixel: the average of the stratified sample estimates.
    fn render_pixel(
        &self,
        world: &Hittable,
        lights: &Hittable,
        direct_light_sampling: bool,
        materials: &Vec<Material>,
        i: usize,
        j: usize,
        rng: &mut Rng,
    ) -> (px: Color)
        ensures
            (px, final(rng).state) == spec_render_pixel(
                *self,
                *world,
                *lights,
                direct_light_sampling,
                materials@,
                i,
                j,
                old(rng).state,
            ),
    {
        let n = self.sqrt_spp;
        let mut acc = Vec3::origin();
        let mut s_j: u32 = 0;
        while s_j < n
            invariant
                n == self.sqrt_spp,
                0 <= s_j <= n,
                spec_pixel_rows(
                    *self,
                    *world,
                    *lights,
                    direct_light_sampling,
                    materials@,
                    i,
                    j,
                    0,
                    spec_v3(0, 0, 0),
                    old(rng).state,
                ) == spec_pixel_rows(
                    *self,
                    *world,
                    *lights,
                    direct_light_sampling,
                    materials@,
                    i,
                    j,
                    s_j as int,
                    acc,
                    rng.state,
                ),
            decreases n - s_j,
        {
            let ghost acc0 = acc;
            let ghost st0 = rng.state;
            let mut s_i: u32 = 0;
            while s_i < n
                invariant
                    n == self.sqrt_spp,
                    0 <= s_i <= n,
                    0 <= s_j < n,
                    spec_pixel_cols(
                        *self,
                        *world,
                        *lights,
                        direct_light_sampling,
                        materials@,
                        i,
                        j,
                        s_j,
                        0,
                        acc0,
                        st0,
                    ) == spec_pixel_cols(
                        *self,
                        *world,
                        *lights,
                        direct_light_sampling,
                        materials@,
                        i,
                        j,
                        s_j,
                        s_i as int,
                        acc,
                        rng.state,
                    ),
                decreases n - s_i,
            {
                let ray = self.get_ray(i, j, s_i, s_j, rng);
                let rc = self.ray_color(
                    ray,
                    world,
                    lights,
                    direct_light_sampling,
                    self.max_depth,
                    materials,
                    rng,
                );
                acc = acc.add(rc);
                s_i = s_i + 1;
            }
            s_j = s_j + 1;
        }
        acc.scale(self.pixel_samples_scale)
    }

    /// The full image, row-major.
    pub fn render(
        &self,
        world: &Hittable,
        lights: &Hittable,
        direct_light_sampling: bool,
        materials: &Vec<Material>,
        seed: u64,
    ) -> (out: Vec<Color>)
        ensures
            out@ == spec_render(
                *self,
                *world,
                *lights,
                direct_light_sampling,
                materials@,
                seed,
            ),
    {
        let mut out: Vec<Color> = Vec::new();
        let height = self.image_height;
        let mut j: usize = 0;
        while j < height
            invariant
                height == self.image_height,
                0 <= j <= height,
                spec_render_from(
                    *self,
                    *world,
                    *lights,
                    direct_light_sampling,
                    materials@,
                    seed,
                    0,
                    Seq::empty(),
                ) == spec_render_from(
                    *self,
                    *world,
                    *lights,
                    direct_light_sampling,
                    materials@,
                    seed,
                    j as int,
                    out@,
                ),
            decreases height - j,
        {
            let mut row = self.render_row(world, lights, direct_light_sampling, materials, j, seed);
            out.append(&mut row);
            j = j + 1;
        }
        out
    }
}

/// A scene whose colors are all nonnegative: background, every material's
/// stored colors, every light's stored area, and the camera's per-sample
/// weight (which every constructed camera has, being a reciprocal).
pub open spec fn nonneg_scene(cam: Camera, lights: Hittable, mats: Seq<Material>) -> bool {
    &&& crate::vec3::nonneg_v3(cam.background)
    &&& cam.pixel_samples_scale.val() >= 0
    &&& crate::hittable::nonneg_areas(lights)
    &&& forall|i: int|
        0 <= i < mats.len() ==> crate::material::nonneg_material(#[trigger] mats[i])
}

/// The radiance estimate is nonnegative, componentwise, whenever the
/// scene's colors are.
#[verifier::rlimit(100)]
#[verifier::spinoff_prover]
pub proof fn lemma_ray_color_nonneg(
    cam: Camera,
    r: Ray,
    world: Hittable,
    lights: Hittable,
    direct_light_sampling: bool,
    depth: u32,
    mats: Seq<Material>,
    s0: u64,
)
    requires
        nonneg_scene(cam, lights, mats),
    ensures
        crate::vec3::nonneg_v3(
            spec_ray_color(cam, r, world, lights, direct_light_sampling, depth, mats, s0).0,
        ),
    decreases depth,
{
    reveal(spec_ray_color);
    if depth == 0 {
        return;
    }
    match spec_hit(world, r, FX_T_MIN as int, FX_INF as int) {
        Option::None => {}
        Option::Some(rec) => {
            if rec.mat < mats.len() {
                let m = mats[rec.mat as int];
                let emission = crate::material::spec_emitted(m, rec);
                crate::material::lemma_emitted_nonneg(m, rec);
                let sc = crate::material::spec_scatter(m, r, rec, s0);
                crate::material::lemma_scatter_attenuation_nonneg(m, r, rec, s0);
                match sc.0 {
                    Option::None => {}
                    Option::Some(srec) => {
                        let att = srec.attenuation;
                        if srec.skip_pdf {
                            let rc = spec_ray_color(
                                cam,
                                srec.skip_pdf_ray,
                                world,
                                lights,
                                direct_light_sampling,
                                (depth - 1) as u32,
                                mats,
                                sc.1,
                            );
                            lemma_ray_color_nonneg(
                                cam,
                                srec.skip_pdf_ray,
                                world,
                                lights,
                                direct_light_sampling,
                                (depth - 1) as u32,
                                mats,
                                sc.1,
                            );
                            crate::fixed::lemma_fx_mul_nonneg(att.x.val(), rc.0.x.val());
                            crate::fixed::lemma_fx_mul_nonneg(att.y.val(), rc.0.y.val());
                            crate::fixed::lemma_fx_mul_nonneg(att.z.val(), rc.0.z.val());
                        } else {
                            match srec.opt_pdf {
                                Option::None => {}
                                Option::Some(mpdf) => {
                                    let gen = if direct_light_sampling {
                                        spec_mixture_generate(lights, rec.p, mpdf, sc.1)
                                    } else {
                                        spec_pdf_generate(mpdf, sc.1)
                                    };
                                    let scattered = Ray { orig: rec.p, dir: gen.0, time: r.time };
                                    let pdf_val = if direct_light_sampling {
                                        spec_mixture_value(lights, rec.p, mpdf, gen.0)
                                    } else {
                                        spec_pdf_value_of(mpdf, gen.0)
                                    };
                                    crate::pdf::lemma_pdf_value_nonneg(mpdf, gen.0);
                                    if direct_light_sampling {
                                        crate::hittable::lemma_pdf_value_nonneg(
                                            lights,
                                            rec.p,
                                            gen.0,
                                        );
                                        crate::fixed::lemma_fx_mul_nonneg(
                                            32768,
                                            crate::hittable::spec_pdf_value(lights, rec.p, gen.0),
                                        );
                                        crate::fixed::lemma_fx_mul_nonneg(
                                            32768,
                                            spec_pdf_value_of(mpdf, gen.0),
                                        );
                                    }
                                    assert(pdf_val >= 0);
                                    if pdf_val != 0 {
                                        let spdf = crate::material::spec_scattering_pdf(
                                            m,
                                            rec,
                                            scattered,
                                        );
                                        crate::material::lemma_scattering_pdf_nonneg(
                                            m,
                                            rec,
                                            scattered,
                                        );
                                        let rc = spec_ray_color(
                                            cam,
                                            scattered,
                                            world,
                                            lights,
                                            direct_light_sampling,
                                            (depth - 1) as u32,
                                            mats,
                                            gen.1,
                                        );
                                        lemma_ray_color_nonneg(
                                            cam,
                                            scattered,
                                            world,
                                            lights,
                                            direct_light_sampling,
                                            (depth - 1) as u32,
                                            mats,
                                            gen.1,
                                        );
                                        crate::fixed::lemma_fx_mul_nonneg(att.x.val(), spdf);
                                        crate::fixed::lemma_fx_mul_nonneg(att.y.val(), spdf);
                                        crate::fixed::lemma_fx_mul_nonneg(att.z.val(), spdf);
                                        crate::fixed::lemma_fx_mul_nonneg(
                                            crate::fixed::fx_mul(att.x.val(), spdf),
                                            rc.0.x.val(),
                                        );
                                        crate::fixed::lemma_fx_mul_nonneg(
                                            crate::fixed::fx_mul(att.y.val(), spdf),
                                            rc.0.y.val(),
                                        );
                                        crate::fixed::lemma_fx_mul_nonneg(
                                            crate::fixed::fx_mul(att.z.val(), spdf),
                                            rc.0.z.val(),
                                        );
                                        crate::fixed::lemma_fx_div_nonneg(
                                            crate::fixed::fx_mul(
                                                crate::fixed::fx_mul(att.x.val(), spdf),
                                                rc.0.x.val(),
                                            ),
                                            pdf_val,
                                        );
                                        crate::fixed::lemma_fx_div_nonneg(
                                            crate::fixed::fx_mul(
                                                crate::fixed::fx_mul(att.y.val(), spdf),
                                                rc.0.y.val(),
                                            ),
                                            pdf_val,
                                        );
                                        crate::fixed::lemma_fx_div_nonneg(
                                            crate::fixed::fx_mul(
                                                crate::fixed::fx_mul(att.z.val(), spdf),
                                                rc.0.z.val(),
                                            ),
                                            pdf_val,
                                        );
                                    }
                                }
                            }
                        }
                    }
                }
            }
        }
    }
}

/// The inner sample fold keeps a nonnegative accumulator nonnegative.
proof fn lemma_pixel_cols_nonneg(
    cam: Camera,
    world: Hittable,
    lights: Hittable,
    direct_light_sampling: bool,
    mats: Seq<Material>,
    i: usize,
    j: usize,
    s_j: u32,
    s_i: int,
    acc: Color,
    s0: u64,
)
    requires
        nonneg_scene(cam, lights, mats),
        crate::vec3::nonneg_v3(acc),
    ensures
        crate::vec3::nonneg_v3(
            spec_pixel_cols(
                cam,
                world,
                lights,
                direct_light_sampling,
                mats,
                i,
                j,
                s_j,
                s_i,
                acc,
                s0,
            ).0,
        ),
    decreases cam.sqrt_spp - s_i,
{
    if 0 <= s_i < cam.sqrt_spp {
        let g = spec_get_ray(cam, i, j, s_i as u32, s_j, s0);
        let rc = spec_ray_color(
            cam,
            g.0,
            world,
            lights,
            direct_light_sampling,
            cam.max_depth,
            mats,
            g.1,
        );
        lemma_ray_color_nonneg(
            cam,
            g.0,
            world,
            lights,
            direct_light_sampling,
            cam.max_depth,
            mats,
            g.1,
        );
        lemma_pixel_cols_nonneg(
            cam,
            world,
            lights,
            direct_light_sampling,
            mats,
            i,
            j,
            s_j,
            s_i + 1,
            v3_add(acc, rc.0),
            rc.1,
        );
    }
}

/// The outer sample fold keeps a nonnegative accumulator nonnegative.
proof fn lemma_pixel_rows_nonneg(
    cam: Camera,
    world: Hittable,
    lights: Hittable,
    direct_light_sampling: bool,
    mats: Seq<Material>,
    i: usize,
    j: usize,
    s_j: int,
    acc: Color,
    s0: u64,
)
    requires
        nonneg_scene(cam, lights, mats),
        crate::vec3::nonneg_v3(acc),
    ensures
        crate::vec3::nonneg_v3(
            spec_pixel_rows(
                cam,
                world,
                lights,
                direct_light_sampling,
                mats,
                i,
                j,
                s_j,
                acc,
                s0,
            ).0,
        ),
    decreases cam.sqrt_spp - s_j,
{
    if 0 <= s_j < cam.sqrt_spp {
        let inner = spec_pixel_cols(
            cam,
            world,
            lights,
            direct_light_sampling,
            mats,
            i,
            j,
            s_j as u32,
            0,
            acc,
            s0,
        );
        lemma_pixel_cols_nonneg(
            cam,
            world,
            lights,
            direct_light_sampling,
            mats,
            i,
            j,
            s_j as u32,
            0,
            acc,
            s0,
        );
        lemma_pixel_rows_nonneg(
            cam,
            world,
            lights,
            direct_light_sampling,
            mats,
            i,
            j,
            s_j + 1,
            inner.0,
            inner.1,
        );
    }
}

/// One pixel of a nonnegative scene is nonnegative.
proof fn lemma_render_pixel_nonneg(
    cam: Camera,
    world: Hittable,
    lights: Hittable,
    direct_light_sampling: bool,
    mats: Seq<Material>,
    i: usize,
    j: usize,
    s0: u64,
)
    requires
        nonneg_scene(cam, lights, mats),
    ensures
        crate::vec3::nonneg_v3(
            spec_render_pixel(cam, world, lights, direct_light_sampling, mats, i, j, s0).0,
        ),
{
    lemma_pixel_rows_nonneg(
        cam,
        world,
        lights,
        direct_light_sampling,
        mats,
        i,
        j,
        0,
        spec_v3(0, 0, 0),
        s0,
    );
    let folded = spec_pixel_rows(
        cam,
        world,
        lights,
        direct_light_sampling,
        mats,
        i,
        j,
        0,
        spec_v3(0, 0, 0),
        s0,
    );
    crate::fixed::lemma_fx_mul_nonneg(folded.0.x.val(), cam.pixel_samples_scale.val());
    crate::fixed::lemma_fx_mul_nonneg(folded.0.y.val(), cam.pixel_samples_scale.val());
    crate::fixed::lemma_fx_mul_nonneg(folded.0.z.val(), cam.pixel_samples_scale.val());
}

/// Every pixel a row accumulates from a nonnegative scene is nonnegative.
#[verifier::rlimit(100)]
#[verifier::spinoff_prover]
proof fn lemma_row_from_nonneg(
    cam: Camera,
    world: Hittable,
    lights: Hittable,
    direct_light_sampling: bool,
    mats: Seq<Material>,
    j: usize,
    i: int,
    s0: u64,
    acc: Seq<Color>,
)
    requires
        nonneg_scene(cam, lights, mats),
        forall|k: int| 0 <= k < acc.len() ==> crate::vec3::nonneg_v3(#[trigger] acc[k]),
    ensures
        ({
            let row = spec_row_from(
                cam,
                world,
                lights,
                direct_light_sampling,
                mats,
                j,
                i,
                s0,
                acc,
            );
            forall|k: int| 0 <= k < row.len() ==> crate::vec3::nonneg_v3(#[trigger] row[k])
        }),
    decreases cam.image_width - i,
{
    let row = spec_row_from(cam, world, lights, direct_light_sampling, mats, j, i, s0, acc);
    if 0 <= i < cam.image_width {
        let px = spec_render_pixel(
            cam,
            world,
            lights,
            direct_light_sampling,
            mats,
            i as usize,
            j,
            s0,
        );
        lemma_render_pixel_nonneg(
            cam,
            world,
            lights,
            direct_light_sampling,
            mats,
            i as usize,
            j,
            s0,
        );
        let acc2 = acc.push(px.0);
        assert forall|k: int| 0 <= k < acc2.len() implies crate::vec3::nonneg_v3(
            #[trigger] acc2[k],
        ) by {
            if k == acc.len() {
                assert(acc2[k] == px.0);
            } else {
                assert(acc2[k] == acc[k]);
            }
        }
        lemma_row_from_nonneg(
            cam,
            world,
            lights,
            direct_light_sampling,
            mats,
            j,
            i + 1,
            px.1,
            acc2,
        );
        assert(row == spec_row_from(
            cam,
            world,
            lights,
            direct_light_sampling,
            mats,
            j,
            i + 1,
            px.1,
            acc2,
        ));
    } else {
        assert(row == acc);
        assert forall|k: int| 0 <= k < row.len() implies crate::vec3::nonneg_v3(
            #[trigger] row[k],
        ) by {
            assert(row[k] == acc[k]);
        }
    }
}

/// The rows fold keeps every accumulated pixel nonnegative.
#[verifier::rlimit(100)]
#[verifier::spinoff_prover]
proof fn lemma_render_from_nonneg(
    cam: Camera,
    world: Hittable,
    lights: Hittable,
    direct_light_sampling: bool,
    mats: Seq<Material>,
    seed: u64,
    j: int,
    acc: Seq<Color>,
)
    requires
        nonneg_scene(cam, lights, mats),
        forall|k: int| 0 <= k < acc.len() ==> crate::vec3::nonneg_v3(#[trigger] acc[k]),
    ensures
        ({
            let out = spec_render_from(
                cam,
                world,
                lights,
                direct_light_sampling,
                mats,
                seed,
                j,
                acc,
            );
            forall|k: int| 0 <= k < out.len() ==> crate::vec3::nonneg_v3(#[trigger] out[k])
        }),
    decreases cam.image_height - j,
{
    let out = spec_render_from(cam, world, lights, direct_light_sampling, mats, seed, j, acc);
    if 0 <= j < cam.image_height {
        let row = spec_render_row(
            cam,
            world,
            lights,
            direct_light_sampling,
            mats,
            j as usize,
            seed,
        );
        let s0 = if spec_row_seed(seed, j) == 0 {
            0x9e3779b97f4a7c15u64
        } else {
            spec_row_seed(seed, j)
        };
        lemma_row_from_nonneg(
            cam,
            world,
            lights,
            direct_light_sampling,
            mats,
            j as usize,
            0,
            s0,
            Seq::empty(),
        );
        let acc2 = acc + row;
        assert forall|k: int| 0 <= k < acc2.len() implies crate::vec3::nonneg_v3(
            #[trigger] acc2[k],
        ) by {
            if k < acc.len() {
                assert(acc2[k] == acc[k]);
            } else {
                assert(acc2[k] == row[k - acc.len()]);
            }
        }
        lemma_render_from_nonneg(
            cam,
            world,
            lights,
            direct_light_sampling,
            mats,
            seed,
            j + 1,
            acc2,
        );
        assert(out == spec_render_from(
            cam,
            world,
            lights,
            direct_light_sampling,
            mats,
            seed,
            j + 1,
            acc2,
        ));
    } else {
        assert(out == acc);
        assert forall|k: int| 0 <= k < out.len() implies crate::vec3::nonneg_v3(
            #[trigger] out[k],
        ) by {
            assert(out[k] == acc[k]);
        }
    }
}

/// The pixel buffer of a nonnegative scene holds only nonnegative linear
/// colors, as the output interface promises.
pub proof fn lemma_render_nonneg(
    cam: Camera,
    world: Hittable,
    lights: Hittable,
    direct_light_sampling: bool,
    mats: Seq<Material>,
    seed: u64,
)
    requires
        nonneg_scene(cam, lights, mats),
    ensures
        ({
            let out = spec_render(cam, world, lights, direct_light_sampling, mats, seed);
            forall|k: int| 0 <= k < out.len() ==> crate::vec3::nonneg_v3(#[trigger] out[k])
        }),
{
    lemma_render_from_nonneg(
        cam,
        world,
        lights,
        direct_light_sampling,
        mats,
        seed,
        0,
        Seq::empty(),
    );
}

/// Rendering is a pure function of the scene, the parameters and the
/// seed: any two renders of the same inputs produce the same pixels,
/// bit for bit.
pub proof fn lemma_render_deterministic(
    cam: Camera,
    world: Hittable,
    lights: Hittable,
    direct_light_sampling: bool,
    mats: Seq<Material>,
    seed: u64,
    out1: Seq<Color>,
    out2: Seq<Color>,
)
    requires
        out1 == spec_render(cam, world, lights, direct_light_sampling, mats, seed),
        out2 == spec_render(cam, world, lights, direct_light_sampling, mats, seed),
    ensures
        out1 == out2,
{
}

/// The seed an image row's generator starts from.
fn row_seed(seed: u64, j: usize) -> (r: u64)
    ensures
        r == spec_row_seed(seed, j as int),
{
    let m: u128 = (j as u128 + 1) * 0x9e3779b97f4a7c15u128;
    let t: u64 = (m % 0x10000000000000000u128) as u64;
    seed ^ t
}

} // verus!
