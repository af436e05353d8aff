//! Materials: emission and scattering models.

use vstd::prelude::*;
use crate::fixed::{Fx, FX_ONE, fx_add, fx_div, fx_mul, fx_neg, fx_sub, fx_sqrt};
use crate::hittable::HitRecord;
use crate::onb::spec_onb_from_w;
use crate::pdf::{CosinePdf, Pdf, SpherePdf};
use crate::ray::Ray;
use crate::rng::{Rng, spec_next_state, spec_unit_sample};
use crate::texture::{SolidColor, Texture, spec_texture_value};
use crate::trig::{FX_PI, FX_TWO_PI};
use crate::vec3::{
    Color, Vec3, spec_v3, v3_add, v3_dot, v3_neg, v3_scale, v3_unit, spec_reflect, spec_refract,
    spec_random_in_unit_sphere, random_in_unit_sphere, reflect, refract,
};

verus! {

/// The outcome of a scatter: an attenuation, and either a fixed specular
/// ray (`skip_pdf`) or a sampling density for the outgoing direction.
pub struct ScatterRecord {
    pub attenuation: Color,
    pub skip_pdf: bool,
    pub skip_pdf_ray: Ray,
    pub opt_pdf: Option<Pdf>,
}

pub struct Lambertian {
    pub albedo: Texture,
}

pub struct Metal {
    pub albedo: Color,
    pub fuzz: Fx,
}

pub struct Dielectric {
    pub ref_idx: Fx,
}

pub struct DiffuseLight {
    pub emit: Texture,
}

pub struct Isotropic {
    pub albedo: Texture,
}

pub enum Material {
    Lambertian(Lambertian),
    Metal(Metal),
    Dielectric(Dielectric),
    DiffuseLight(DiffuseLight),
    Isotropic(Isotropic),
}

/// Schlick's reflectance approximation.
pub open spec fn spec_schlick(cosine: int, ref_idx: int) -> int {
    if fx_add(FX_ONE as int, ref_idx) == 0 {
        FX_ONE as int
    } else {
        let r0s = fx_div(fx_sub(FX_ONE as int, ref_idx), fx_add(FX_ONE as int, ref_idx));
        let r0 = fx_mul(r0s, r0s);
        let omc = fx_sub(FX_ONE as int, cosine);
        let omc2 = fx_mul(omc, omc);
        let omc5 = fx_mul(fx_mul(omc2, omc2), omc);
        fx_add(r0, fx_mul(fx_sub(FX_ONE as int, r0), omc5))
    }
}

fn schlick(cosine: Fx, ref_idx: Fx) -> (r: Fx)
    ensures
        r.val() == spec_schlick(cosine.val(), ref_idx.val()),
{
    let denom = Fx::one().add(ref_idx);
    if denom.raw == 0 {
        Fx::one()
    } else {
        let r0s = Fx::one().sub(ref_idx).div(denom);
        let r0 = r0s.mul(r0s);
        let omc = Fx::one().sub(cosine);
        let omc2 = omc.mul(omc);
        let omc5 = omc2.mul(omc2).mul(omc);
        r0.add(Fx::one().sub(r0).mul(omc5))
    }
}

/// What a material emits at a hit: only a light's front face emits.
pub open spec fn spec_emitted(m: Material, rec: HitRecord) -> Color {
    match m {
        Material::DiffuseLight(d) => if rec.front_face {
            spec_texture_value(d.emit, rec.u.val(), rec.v.val(), rec.p)
        } else {
            spec_v3(0, 0, 0)
        },
        _ => spec_v3(0, 0, 0),
    }
}

/// The density with which a material's own law would have produced the
/// scattered ray; zero for materials without a diffuse law.
pub open spec fn spec_scattering_pdf(m: Material, rec: HitRecord, scattered: Ray) -> int {
    match m {
        Material::Lambertian(_) => {
            let cosine = v3_dot(rec.normal, v3_unit(scattered.dir));
            if cosine < 0 {
                0
            } else {
                fx_div(cosine, FX_PI as int)
            }
        }
        Material::Isotropic(_) => fx_div(FX_ONE as int, 2 * FX_TWO_PI as int),
        _ => 0,
    }
}

/// A scatter decision together with the generator state it leaves behind.
pub open spec fn spec_scatter(m: Material, r_in: Ray, rec: HitRecord, s0: u64) -> (
    Option<ScatterRecord>,
    u64,
) {
    match m {
        Material::Lambertian(l) => (
            Option::Some(
                ScatterRecord {
                    attenuation: spec_texture_value(l.albedo, rec.u.val(), rec.v.val(), rec.p),
                    skip_pdf: false,
                    skip_pdf_ray: Ray { orig: spec_v3(0, 0, 0), dir: spec_v3(0, 0, 0), time: crate::vec3::fxv(0) },
                    opt_pdf: Option::Some(Pdf::Cosine(CosinePdf { uvw: spec_onb_from_w(rec.normal) })),
                },
            ),
            s0,
        ),
        Material::Metal(mt) => {
            let reflected = spec_reflect(v3_unit(r_in.dir), rec.normal);
            let fz = spec_random_in_unit_sphere(s0, 32);
            let dir = v3_add(reflected, v3_scale(fz.0, mt.fuzz.val()));
            let srec = ScatterRecord {
                attenuation: mt.albedo,
                skip_pdf: true,
                skip_pdf_ray: Ray { orig: rec.p, dir, time: r_in.time },
                opt_pdf: Option::None,
            };
            if v3_dot(dir, rec.normal) > 0 {
                (Option::Some(srec), fz.1)
            } else {
                (Option::None, fz.1)
            }
        }
        Material::Dielectric(d) => {
            let etai_over_etat = if rec.front_face {
                if d.ref_idx.val() == 0 {
                    FX_ONE as int
                } else {
                    fx_div(FX_ONE as int, d.ref_idx.val())
                }
            } else {
                d.ref_idx.val()
            };
            let unit_direction = v3_unit(r_in.dir);
            let cos_theta0 = fx_neg(v3_dot(unit_direction, rec.normal));
            let cos_theta = if cos_theta0 <= FX_ONE as int { cos_theta0 } else { FX_ONE as int };
            let sin_theta = fx_sqrt(fx_sub(FX_ONE as int, fx_mul(cos_theta, cos_theta)));
            if fx_mul(etai_over_etat, sin_theta) > FX_ONE as int {
                let dir = spec_reflect(unit_direction, rec.normal);
                (
                    Option::Some(spec_specular(spec_v3(FX_ONE as int, FX_ONE as int, FX_ONE as int), rec.p, dir, r_in.time)),
                    s0,
                )
            } else {
                let s1 = spec_next_state(s0);
                let coin = spec_unit_sample(s1);
                if coin.val() < spec_schlick(cos_theta, etai_over_etat) {
                    let dir = spec_reflect(unit_direction, rec.normal);
                    (
                        Option::Some(spec_specular(spec_v3(FX_ONE as int, FX_ONE as int, FX_ONE as int), rec.p, dir, r_in.time)),
                        s1,
                    )
                } else {
                    let dir = spec_refract(unit_direction, rec.normal, etai_over_etat);
                    (
                        Option::Some(spec_specular(spec_v3(FX_ONE as int, FX_ONE as int, FX_ONE as int), rec.p, dir, r_in.time)),
                        s1,
                    )
                }
            }
        }
        Material::DiffuseLight(_) => (Option::None, s0),
        Material::Isotropic(iso) => (
            Option::Some(
                ScatterRecord {
                    attenuation: spec_texture_value(iso.albedo, rec.u.val(), rec.v.val(), rec.p),
                    skip_pdf: false,
                    skip_pdf_ray: Ray { orig: spec_v3(0, 0, 0), dir: spec_v3(0, 0, 0), time: crate::vec3::fxv(0) },
                    opt_pdf: Option::Some(Pdf::Sphere(SpherePdf {})),
                },
            ),
            s0,
        ),
    }
}

/// A specular scatter record.
pub open spec fn spec_specular(attenuation: Color, p: Vec3, dir: Vec3, time: Fx) -> ScatterRecord {
    ScatterRecord {
        attenuation,
        skip_pdf: true,
        skip_pdf_ray: Ray { orig: p, dir, time },
        opt_pdf: Option::None,
    }
}

/// Every color a material can emit or attenuate with is nonnegative.
pub open spec fn nonneg_material(m: Material) -> bool {
    match m {
        Material::Lambertian(l) => crate::texture::nonneg_texture(l.albedo),
        Material::Metal(mt) => crate::vec3::nonneg_v3(mt.albedo),
        Material::Dielectric(_) => true,
        Material::DiffuseLight(d) => crate::texture::nonneg_texture(d.emit),
        Material::Isotropic(iso) => crate::texture::nonneg_texture(iso.albedo),
    }
}

/// A material of nonnegative colors emits a nonnegative color.
pub proof fn lemma_emitted_nonneg(m: Material, rec: HitRecord)
    requires
        nonneg_material(m),
    ensures
        crate::vec3::nonneg_v3(spec_emitted(m, rec)),
{
    match m {
        Material::DiffuseLight(d) => {
            if rec.front_face {
                crate::texture::lemma_texture_value_nonneg(
                    d.emit,
                    rec.u.val(),
                    rec.v.val(),
                    rec.p,
                );
            }
        }
        _ => {}
    }
}

/// A material of nonnegative colors attenuates with a nonnegative color.
pub proof fn lemma_scatter_attenuation_nonneg(m: Material, r_in: Ray, rec: HitRecord, s0: u64)
    requires
        nonneg_material(m),
    ensures
        (spec_scatter(m, r_in, rec, s0).0 matches Option::Some(srec)
            ==> crate::vec3::nonneg_v3(srec.attenuation)),
{
    match m {
        Material::Lambertian(l) => {
            crate::texture::lemma_texture_value_nonneg(
                l.albedo,
                rec.u.val(),
                rec.v.val(),
                rec.p,
            );
        }
        Material::Isotropic(iso) => {
            crate::texture::lemma_texture_value_nonneg(
                iso.albedo,
                rec.u.val(),
                rec.v.val(),
                rec.p,
            );
        }
        _ => {}
    }
}

/// A material's own sampling density is never negative.
pub proof fn lemma_scattering_pdf_nonneg(m: Material, rec: HitRecord, scattered: Ray)
    ensures
        spec_scattering_pdf(m, rec, scattered) >= 0,
{
    match m {
        Material::Lambertian(_) => {
            let cosine = v3_dot(rec.normal, v3_unit(scattered.dir));
            if cosine >= 0 {
                crate::fixed::lemma_fx_div_nonneg(cosine, FX_PI as int);
            }
        }
        Material::Isotropic(_) => {
            crate::fixed::lemma_fx_div_nonneg(FX_ONE as int, 2 * FX_TWO_PI as int);
        }
        _ => {}
    }
}

impl Lambertian {
    pub fn new(albedo: Texture) -> (r: Lambertian)
        ensures
            r.albedo == albedo,
    {
        Lambertian { albedo }
    }

    pub fn new_with_color(c: Color) -> (r: Lambertian)
        ensures
            r.albedo == Texture::Solid(SolidColor { color_value: c }),
    {
        Lambertian { albedo: Texture::Solid(SolidColor { color_value: c }) }
    }
}

impl Metal {
    /// A reflective metal; the fuzz radius is clamped into `[0, 1]`.
    pub fn new(albedo: &Color, fuzz: Fx) -> (r: Metal)
        ensures
            r.albedo == *albedo,
            r.fuzz.val() == if fuzz.val() < 0 {
                0
            } else if fuzz.val() > FX_ONE as int {
                FX_ONE as int
            } else {
                fuzz.val()
            },
    {
        let f = if fuzz.raw < 0 {
            Fx::zero()
        } else if fuzz.raw > FX_ONE {
            Fx::one()
        } else {
            fuzz
        };
        Metal { albedo: *albedo, fuzz: f }
    }
}

impl Dielectric {
    pub fn new(ref_idx: Fx) -> (r: Dielectric)
        ensures
            r.ref_idx == ref_idx,
    {
        Dielectric { ref_idx }
    }
}

impl DiffuseLight {
    pub fn new(emit: Texture) -> (r: DiffuseLight)
        ensures
            r.emit == emit,
    {
        DiffuseLight { emit }
    }

    pub fn new_with_color(c: Color) -> (r: DiffuseLight)
        ensures
            r.emit == Texture::Solid(SolidColor { color_value: c }),
    {
        DiffuseLight { emit: Texture::Solid(SolidColor { color_value: c }) }
    }
}

impl Isotropic {
    pub fn new(albedo: Texture) -> (r: Isotropic)
        ensures
            r.albedo == albedo,
    {
        Isotropic { albedo }
    }

    pub fn new_with_color(c: Color) -> (r: Isotropic)
        ensures
            r.albedo == Texture::Solid(SolidColor { color_value: c }),
    {
        Isotropic { albedo: Texture::Solid(SolidColor { color_value: c }) }
    }
}

impl Material {
    /// Decides whether and how the material re-scatters an incoming ray.
    pub fn scatter(&self, r_in: &Ray, rec: &HitRecord, rng: &mut Rng) -> (res: Option<
        ScatterRecord,
    >)
        ensures
            (res, final(rng).state) == spec_scatter(*self, *r_in, *rec, old(rng).state),
    {
        match self {
            Material::Lambertian(l) => {
                let attenuation = l.albedo.value(rec.u, rec.v, &rec.p);
                Some(
                    ScatterRecord {
                        attenuation,
                        skip_pdf: false,
                        skip_pdf_ray: Ray::new(Vec3::origin(), Vec3::origin()),
                        opt_pdf: Some(Pdf::Cosine(CosinePdf::new(&rec.normal))),
                    },
                )
            }
            Material::Metal(mt) => {
                let reflected = reflect(&r_in.dir.unit(), &rec.normal);
                let fz = random_in_unit_sphere(rng);
                let dir = reflected.add(fz.scale(mt.fuzz));
                if dir.dot(rec.normal).raw > 0 {
                    Some(
                        ScatterRecord {
                            attenuation: mt.albedo,
                            skip_pdf: true,
                            skip_pdf_ray: Ray::new_with_time(rec.p, dir, r_in.time),
                            opt_pdf: None,
                        },
                    )
                } else {
                    None
                }
            }
            Material::Dielectric(d) => {
                let etai_over_etat = if rec.front_face {
                    if d.ref_idx.raw == 0 {
                        Fx::one()
                    } else {
                        Fx::one().div(d.ref_idx)
                    }
                } else {
                    d.ref_idx
                };
                let unit_direction = r_in.dir.unit();
                let cos_theta0 = unit_direction.dot(rec.normal).neg();
                let cos_theta = if cos_theta0.raw <= FX_ONE {
                    cos_theta0
                } else {
                    Fx::one()
                };
                let sin_theta = Fx::one().sub(cos_theta.mul(cos_theta)).sqrt();
                let white = Vec3 { x: Fx::one(), y: Fx::one(), z: Fx::one() };
                if etai_over_etat.mul(sin_theta).raw > FX_ONE {
                    let dir = reflect(&unit_direction, &rec.normal);
                    Some(
                        ScatterRecord {
                            attenuation: white,
                            skip_pdf: true,
                            skip_pdf_ray: Ray::new_with_time(rec.p, dir, r_in.time),
                            opt_pdf: None,
                        },
                    )
                } else {
                    let prob = schlick(cos_theta, etai_over_etat);
                    let coin = rng.random();
                    if coin.raw < prob.raw {
                        let dir = reflect(&unit_direction, &rec.normal);
                        Some(
                            ScatterRecord {
                                attenuation: white,
                                skip_pdf: true,
                                skip_pdf_ray: Ray::new_with_time(rec.p, dir, r_in.time),
                                opt_pdf: None,
                            },
                        )
                    } else {
                        let dir = refract(&unit_direction, &rec.normal, etai_over_etat);
                        Some(
                            ScatterRecord {
                                attenuation: white,
                                skip_pdf: true,
                                skip_pdf_ray: Ray::new_with_time(rec.p, dir, r_in.time),
                                opt_pdf: None,
                            },
                        )
                    }
                }
            }
            Material::DiffuseLight(_) => None,
            Material::Isotropic(iso) => {
                let attenuation = iso.albedo.value(rec.u, rec.v, &rec.p);
                Some(
                    ScatterRecord {
                        attenuation,
                        skip_pdf: false,
                        skip_pdf_ray: Ray::new(Vec3::origin(), Vec3::origin()),
                        opt_pdf: Some(Pdf::Sphere(SpherePdf {})),
                    },
                )
            }
        }
    }

    /// The density with which the material's own law would have produced
    /// the scattered ray.
    pub fn scattering_pdf(&self, _r_in: &Ray, rec: &HitRecord, scattered: &Ray) -> (res: Fx)
        ensures
            res.val() == spec_scattering_pdf(*self, *rec, *scattered),
    {
        match self {
            Material::Lambertian(_) => {
                let cosine = rec.normal.dot(scattered.dir.unit());
                if cosine.raw < 0 {
                    Fx::zero()
                } else {
                    cosine.div(Fx::from_raw(FX_PI))
                }
            }
            Material::Isotropic(_) => Fx::one().div(Fx::from_raw(2 * FX_TWO_PI)),
            _ => Fx::zero(),
        }
    }

    /// The radiance the material emits at a hit.
    pub fn emitted(&self, rec: &HitRecord) -> (res: Color)
        ensures
            res == spec_emitted(*self, *rec),
    {
        match self {
            Material::DiffuseLight(d) => {
                if rec.front_face {
                    d.emit.value(rec.u, rec.v, &rec.p)
                } else {
                    Vec3::origin()
                }
            }
            _ => Vec3::origin(),
        }
    }
}

} // verus!
