use ray_tracing_in_one_weekend::aabb::Aabb;
use ray_tracing_in_one_weekend::bvh::BvhNode;
use ray_tracing_in_one_weekend::camera::Camera;
use ray_tracing_in_one_weekend::color::color_to_rgb8;
use ray_tracing_in_one_weekend::constant_medium::ConstantMedium;
use ray_tracing_in_one_weekend::fixed::Fx;
use ray_tracing_in_one_weekend::hittable::Hittable;
use ray_tracing_in_one_weekend::hittable_list::HittableList;
use ray_tracing_in_one_weekend::interval::Interval;
use ray_tracing_in_one_weekend::material::{DiffuseLight, Lambertian, Material};
use ray_tracing_in_one_weekend::pdf::{CosinePdf, Pdf};
use ray_tracing_in_one_weekend::hittable::{RotateY, Translate};
use ray_tracing_in_one_weekend::quad::{create_box, Quad};
use ray_tracing_in_one_weekend::vec3::{reflect, refract};
use ray_tracing_in_one_weekend::ray::Ray;
use ray_tracing_in_one_weekend::rng::{random_int, Rng};
use ray_tracing_in_one_weekend::sphere::Sphere;
use ray_tracing_in_one_weekend::texture::{NoiseTexture, Texture};
use ray_tracing_in_one_weekend::trig::{degrees_to_radians, FX_PI};
use ray_tracing_in_one_weekend::vec3::{random_unit_vector, Vec3};

fn fxi(n: i64) -> Fx {
    Fx::from_int(n)
}

fn fxr(raw: i64) -> Fx {
    Fx::from_raw(raw)
}

fn v(x: i64, y: i64, z: i64) -> Vec3 {
    Vec3::new(fxi(x), fxi(y), fxi(z))
}

fn to_f64(x: Fx) -> f64 {
    x.raw as f64 / 65536.0
}

#[test]
fn rtweekend_test_degrees_to_radians() {
    let half_pi = fxr(FX_PI).div(fxi(2));
    let test_cases = vec![
        (fxi(0), fxi(0)),
        (fxi(90), half_pi),
        (fxi(180), fxr(FX_PI)),
    ];
    for (input, expected) in test_cases {
        let result = degrees_to_radians(input);
        assert_eq!(result, expected, "Failed for input: '{:?}", input);
    }
}

#[test]
fn sphere_test_get_sphere_uv() {
    let test_cases = vec![
        (v(1, 0, 0), fxr(32768), fxr(32768)),
        (v(0, 1, 0), fxr(32768), fxi(1)),
        (v(0, 0, 1), fxr(16384), fxr(32768)),
    ];
    for (p, u_exp, v_exp) in test_cases {
        let (u_res, v_res) = Sphere::get_sphere_uv(&p);
        assert_eq!(u_res, u_exp, "Failed u_res for input: '{:?}", p);
        assert_eq!(v_res, v_exp, "Failed v_res for input: '{:?}", p);
    }
}

#[test]
fn test_ray() {
    let ray = Ray::new(v(1, 1, 1), v(1, 0, 0));
    let point = ray.at(fxi(2));
    assert_eq!(point, v(3, 1, 1));
}

// A ray parallel to an axis never hits a box entirely outside that axis's
// slab, and a box containing the origin is always hit at some t >= 0.
#[test]
fn aabb_parallel_and_origin() {
    let outside = Aabb::new(
        Interval::new(fxi(1), fxi(2)),
        Interval::new(fxi(1), fxi(2)),
        Interval::new(fxi(1), fxi(2)),
    );
    let r = Ray::new(v(0, 0, 0), v(0, 0, 1));
    assert!(!outside.hit(&r, Interval::new(Fx::neg_infinity(), Fx::infinity())));

    let around = Aabb::new(
        Interval::new(fxi(-1), fxi(1)),
        Interval::new(fxi(-1), fxi(1)),
        Interval::new(fxi(-1), fxi(1)),
    );
    let dirs = vec![v(0, 0, 1), v(1, 0, 0), v(0, 1, 0), v(1, 2, 3), v(-1, 1, -1)];
    for d in dirs {
        assert!(around.hit(&Ray::new(v(0, 0, 0), d), Interval::new(fxi(0), Fx::infinity())));
    }
}

// A ray passing closer than the radius reports a hit whose point lies on
// the sphere within tolerance; one passing farther reports none.
#[test]
fn sphere_hit_roundtrip() {
    let s = Sphere::new(v(0, 0, 0), fxi(2), 0);
    let window = Interval::new(fxr(64), Fx::infinity());

    let hit_ray = Ray::new(v(0, 0, 10), v(0, 0, -1));
    let rec = s.hit(&hit_ray, window).expect("ray through the center must hit");
    assert!((to_f64(rec.t) - 8.0).abs() < 1e-3);
    let dist = to_f64(rec.p.length());
    assert!((dist - 2.0).abs() < 1e-3, "hit point not on the sphere: {}", dist);

    let offset_ray = Ray::new(v(1, 1, 10), v(0, 0, -1));
    assert!(s.hit(&offset_ray, window).is_some());

    let miss_ray = Ray::new(v(3, 0, 10), v(0, 0, -1));
    assert!(s.hit(&miss_ray, window).is_none());
}

// Points with planar coordinates strictly inside the unit square hit; the
// same plane outside the edges does not.
#[test]
fn quad_interior() {
    let q = Quad::new(v(-1, -1, -2), v(2, 0, 0), v(0, 2, 0), 0);
    let window = Interval::new(fxr(64), Fx::infinity());
    let inside = Ray::new(v(0, 0, 0), v(0, 0, -1));
    assert!(q.hit(&inside, window).is_some());
    let toward_edge = Ray::new(v(0, 0, 0), Vec3::new(fxr(32768), fxr(32768), fxi(-1)));
    assert!(q.hit(&toward_edge, window).is_some());
    let outside = Ray::new(v(0, 0, 0), v(2, 0, -2));
    assert!(q.hit(&outside, window).is_none());
    let parallel = Ray::new(v(0, 0, 0), v(1, 0, 0));
    assert!(q.hit(&parallel, window).is_none());
}

fn demo_scene() -> (Vec<Hittable>, Vec<Material>) {
    let mats = vec![
        Material::Lambertian(Lambertian::new_with_color(Vec3::new(
            fxr(32768),
            fxr(32768),
            fxr(32768),
        ))),
    ];
    let objects = vec![
        Hittable::Sphere(Sphere::new(v(0, 0, -5), fxr(58982), 0)),
        Hittable::Sphere(Sphere::new(v(2, 0, -5), fxr(58982), 0)),
        Hittable::Sphere(Sphere::new(v(-2, 0, -5), fxr(58982), 0)),
        Hittable::Sphere(Sphere::new(v(0, 2, -5), fxr(58982), 0)),
        Hittable::Sphere(Sphere::new(v(0, -2, -6), fxi(1), 0)),
        Hittable::Quad(Quad::new(v(-4, -3, -8), v(8, 0, 0), v(0, 6, 0), 0)),
    ];
    (objects, mats)
}

// The accelerated hit answers exactly as the exhaustive scan: same
// hit-or-miss answer and the same parameter.
#[test]
fn bvh_matches_linear_scan() {
    let (objects, _) = demo_scene();
    let (objects2, _) = demo_scene();
    let list = Hittable::List(HittableList { objects });
    let tree = BvhNode::new(objects2);
    let window = Interval::new(fxr(64), Fx::infinity());
    for ix in -8i64..9 {
        for iy in -8i64..9 {
            let dir = Vec3::new(fxr(ix * 16384), fxr(iy * 16384), fxi(-1));
            let r = Ray::new(v(0, 0, 0), dir);
            let a = list.hit(&r, window);
            let b = tree.hit(&r, window);
            match (a, b) {
                (None, None) => {}
                (Some(ra), Some(rb)) => {
                    assert_eq!(ra.t, rb.t, "different t for dir {:?}", dir);
                }
                (x, y) => panic!("hit disagreement for dir {:?}: {:?} vs {:?}", dir, x, y),
            }
        }
    }
}

// Cosine-density samples always lie in the hemisphere about the normal,
// and the density integrates to about one over the hemisphere.
#[test]
fn cosine_pdf_consistency() {
    let n = v(0, 0, 1);
    let pdf = Pdf::Cosine(CosinePdf::new(&n));
    let mut rng = Rng::new(7);
    let mut i = 0;
    while i < 500 {
        let d = pdf.generate(&mut rng);
        assert!(d.z.raw >= 0, "sample below the hemisphere: {:?}", d);
        i += 1;
    }
    // Monte Carlo: E[value * 2 * pi] over uniform hemisphere directions.
    let mut sum = 0.0f64;
    let mut count = 0;
    while count < 4000 {
        let mut d = random_unit_vector(&mut rng);
        if d.z.raw < 0 {
            d = Vec3::new(d.x, d.y, d.z.neg());
        }
        sum += to_f64(pdf.value(&d)) * 2.0 * std::f64::consts::PI;
        count += 1;
    }
    let mean = sum / 4000.0;
    assert!((mean - 1.0).abs() < 0.15, "hemisphere integral estimate {}", mean);
}

// A pinhole camera over a single gray sphere: the center pixel reports the
// sphere's shaded color, not the background.
#[test]
fn center_pixel_sees_sphere() {
    let mats = vec![
        Material::Lambertian(Lambertian::new_with_color(Vec3::new(
            fxr(32768),
            fxr(32768),
            fxr(32768),
        ))),
    ];
    let world = Hittable::Sphere(Sphere::new(v(0, 0, -1), fxr(32768), 0));
    let lights = Hittable::List(HittableList::new());
    let background = Vec3::new(fxr(32768), fxr(45875), fxi(1));
    let cam = Camera::new(
        v(0, 0, 0),
        v(0, 0, -1),
        11,
        fxi(1),
        1,
        4,
        background,
        fxi(90),
        fxi(0),
        fxi(1),
    );
    let img = cam.render(&world, &lights, false, &mats, 42);
    assert_eq!(img.len(), 11 * 11);
    let center = img[5 * 11 + 5];
    assert_ne!(center, background, "center pixel shows the background");
    let corner = img[0];
    assert_eq!(corner, background, "corner pixel should miss the sphere");
}

// A fixed seed renders bit-identical images, and a row rendered alone
// equals the same row of the full render.
#[test]
fn render_is_deterministic() {
    let (objects, mats) = demo_scene();
    let world = BvhNode::new(objects);
    let lights = Hittable::List(HittableList::new());
    let cam = Camera::new(
        v(0, 0, 0),
        v(0, 0, -5),
        8,
        fxi(1),
        4,
        3,
        Vec3::new(fxr(16384), fxr(16384), fxr(16384)),
        fxi(60),
        fxi(0),
        fxi(5),
    );
    let img1 = cam.render(&world, &lights, false, &mats, 12345);
    let img2 = cam.render(&world, &lights, false, &mats, 12345);
    assert_eq!(img1, img2);
    let row3 = cam.render_row(&world, &lights, false, &mats, 3, 12345);
    assert_eq!(&img1[3 * 8..4 * 8], &row3[..]);
    let img3 = cam.render(&world, &lights, false, &mats, 54321);
    assert_ne!(img1, img3, "different seeds should give a different image");
}

// A camera fully enclosed by inward-facing uniform emitters sees the same
// value at every pixel: no directional bias.
#[test]
fn enclosed_emissive_box_is_uniform() {
    let white = Vec3::new(fxi(1), fxi(1), fxi(1));
    let mats = vec![Material::DiffuseLight(DiffuseLight::new_with_color(white))];
    // Six quads, edge vectors ordered so every normal points inward.
    let objects = vec![
        Hittable::Quad(Quad::new(v(-2, -2, -2), v(4, 0, 0), v(0, 4, 0), 0)),  // wall z = -2
        Hittable::Quad(Quad::new(v(-2, -2, 2), v(0, 4, 0), v(4, 0, 0), 0)),   // wall z = +2
        Hittable::Quad(Quad::new(v(-2, -2, -2), v(0, 4, 0), v(0, 0, 4), 0)),  // wall x = -2
        Hittable::Quad(Quad::new(v(2, -2, -2), v(0, 0, 4), v(0, 4, 0), 0)),   // wall x = +2
        Hittable::Quad(Quad::new(v(-2, -2, -2), v(0, 0, 4), v(4, 0, 0), 0)),  // wall y = -2
        Hittable::Quad(Quad::new(v(-2, 2, -2), v(4, 0, 0), v(0, 0, 4), 0)),   // wall y = +2
    ];
    let world = Hittable::List(HittableList { objects });
    let lights = Hittable::List(HittableList::new());
    let cam = Camera::new(
        v(0, 0, 0),
        v(0, 0, -1),
        8,
        fxi(1),
        4,
        3,
        Vec3::origin(),
        fxi(70),
        fxi(0),
        fxi(1),
    );
    let img = cam.render(&world, &lights, false, &mats, 9);
    assert_eq!(img.len(), 64);
    for px in &img {
        assert_eq!(*px, white, "a pixel saw something other than the emitter");
    }
}

#[test]
fn rgb8_conversion() {
    let c = Vec3::new(fxr(16384), fxi(1), fxi(2));
    let (r, g, b) = color_to_rgb8(&c);
    assert_eq!((r, g, b), (128, 255, 255));
    let black = Vec3::origin();
    assert_eq!(color_to_rgb8(&black), (0, 0, 0));
}

// A moving sphere is found at its interpolated center for the ray's time.
#[test]
fn moving_sphere_interpolates() {
    let s = Sphere::new_with_moving_sphere(v(0, 0, -5), v(4, 0, -5), fxi(1), 0);
    let window = Interval::new(fxr(64), Fx::infinity());
    let at_start = Ray::new(v(0, 0, 0), v(0, 0, -1));
    assert!(s.hit(&at_start, window).is_some());
    let at_end = ray_tracing_in_one_weekend::ray::Ray::new_with_time(
        v(0, 0, 0),
        v(0, 0, -1),
        fxi(1),
    );
    assert!(s.hit(&at_end, window).is_none(), "by the end the sphere has moved away");
    let toward_end = ray_tracing_in_one_weekend::ray::Ray::new_with_time(
        v(0, 0, 0),
        v(4, 0, -5),
        fxi(1),
    );
    assert!(s.hit(&toward_end, window).is_some());
}

// Shifted and rotated children re-express hits in the outer frame.
#[test]
fn translate_and_rotate() {
    let window = Interval::new(fxr(64), Fx::infinity());
    let inner = Hittable::Sphere(Sphere::new(v(0, 0, 0), fxi(1), 0));
    let shifted = Hittable::Translate(Translate::new(Box::new(inner), v(0, 0, -5)));
    let r = Ray::new(v(0, 0, 0), v(0, 0, -1));
    let rec = shifted.hit(&r, window).expect("the shifted sphere sits on the axis");
    assert!((to_f64(rec.t) - 4.0).abs() < 1e-3);

    let quad = Hittable::Quad(Quad::new(v(-1, -1, -5), v(2, 0, 0), v(0, 2, 0), 0));
    let spun = Hittable::RotateY(RotateY::new(Box::new(quad), fxi(90)));
    // After a quarter turn about y the plate lies in the x = -5 plane... of
    // the object frame seen from world x; a ray down -x now finds it.
    let rx = Ray::new(v(0, 0, 0), v(-1, 0, 0));
    assert!(spun.hit(&rx, window).is_some());
    let rz = Ray::new(v(0, 0, 0), v(0, 0, -1));
    assert!(spun.hit(&rz, window).is_none());
}

// The six faces built between two corners enclose their interior.
#[test]
fn create_box_encloses() {
    let sides = create_box(v(-1, -1, -1), v(1, 1, 1), 0);
    assert_eq!(sides.objects.len(), 6);
    let world = Hittable::List(sides);
    let window = Interval::new(fxr(64), Fx::infinity());
    let dirs = vec![v(1, 0, 0), v(-1, 0, 0), v(0, 1, 0), v(0, -1, 0), v(0, 0, 1), v(0, 0, -1)];
    for d in dirs {
        assert!(world.hit(&Ray::new(v(0, 0, 0), d), window).is_some());
    }
}

// Reflection and straight-through refraction at exact axis cases.
#[test]
fn reflect_and_refract() {
    let vdown = v(0, -1, 0);
    let n = v(0, 1, 0);
    assert_eq!(reflect(&vdown, &n), v(0, 1, 0));
    let uv = v(0, 0, -1);
    let nz = v(0, 0, 1);
    assert_eq!(refract(&uv, &nz, fxi(1)), v(0, 0, -1));
}

// A medium scatters inside its boundary when the sampled distance fits,
// and lets the ray pass when it does not.
#[test]
fn constant_medium_scatters_inside() {
    let boundary = Box::new(Hittable::Sphere(Sphere::new(v(0, 0, -5), fxi(2), 0)));
    let medium = ConstantMedium::new(boundary, fxi(1), 0);
    let window = Interval::new(fxr(64), Fx::infinity());
    let r = Ray::new(v(0, 0, 0), v(0, 0, -1));
    // The chord through the sphere is 4 long; a sample of 1 lands inside.
    let rec = medium.hit(&r, window, fxi(1)).expect("short flight scatters inside");
    assert!((to_f64(rec.t) - 4.0).abs() < 1e-2);
    // A sample longer than the chord passes through.
    assert!(medium.hit(&r, window, fxi(5)).is_none());
    // A ray that misses the boundary never scatters.
    let miss = Ray::new(v(10, 10, 0), v(0, 0, -1));
    assert!(medium.hit(&miss, window, fxi(1)).is_none());
}

// Noise is zero on the lattice, so the marble texture at the origin is
// exactly mid-gray; elsewhere it is gray and deterministic in the seed.
#[test]
fn noise_texture_values() {
    let mut rng = Rng::new(3);
    let tex = Texture::Noise(NoiseTexture::new(fxi(4), &mut rng));
    let mid = tex.value(fxi(0), fxi(0), &v(0, 0, 0));
    assert_eq!(mid, Vec3::new(fxr(32768), fxr(32768), fxr(32768)));
    let p = Vec3::new(fxr(40000), fxr(-90000), fxr(123456));
    let a = tex.value(fxi(0), fxi(0), &p);
    let b = tex.value(fxi(0), fxi(0), &p);
    assert_eq!(a, b, "the texture must be a pure function of its tables");
    assert_eq!(a.x, a.y);
    assert_eq!(a.y, a.z);
    assert!(a.x.raw >= 0 && a.x.raw <= 65536, "gray level out of range: {:?}", a.x);
}

#[test]
fn random_int_stays_in_range() {
    let mut i = 0;
    while i < 200 {
        let x = random_int(-3, 7);
        assert!((-3..=7).contains(&x));
        i += 1;
    }
    assert_eq!(random_int(5, 5), 5);
}
