//! Tests of materials, textures, the camera and the radiance estimator.

use pathtracer::camera::Camera;
use pathtracer::fx::Fx;
use pathtracer::hit::HitRecord;
use pathtracer::integrator::{ray_colour, vector_to_rgb, Background};
use pathtracer::material::{Dielectric, DiffuseLight, Lambertian, Material, Metal};
use pathtracer::ray::Ray;
use pathtracer::rng::Rng;
use pathtracer::sphere::Sphere;
use pathtracer::surface::Surface;
use pathtracer::texture::{CheckerTexture, ImageTexture, Texture};
use pathtracer::vec3::Vec3;

fn fxr(raw: i64) -> Fx {
    Fx { raw }
}

fn v(x: i64, y: i64, z: i64) -> Vec3 {
    Vec3 { x: fxr(x), y: fxr(y), z: fxr(z) }
}

const S: i64 = 65536;

fn hit_at(point: Vec3, normal: Vec3, front_face: bool) -> HitRecord {
    HitRecord {
        point,
        normal,
        material: 0,
        t: fxr(S),
        u: fxr(0),
        v: fxr(0),
        front_face,
    }
}

#[test]
fn metal_with_zero_fuzz_is_an_exact_mirror() {
    let m = Material::Metal(Metal::new(v(S, S, S), fxr(0)));
    // Incoming at 45 degrees onto a floor with normal +y.
    let r_in = Ray { origin: v(-S, S, 0), direction: v(S, -S, 0), time: fxr(0) };
    let rec = hit_at(v(0, 0, 0), v(0, S, 0), true);
    let mut rng = Rng::new(11);
    let (_att, scattered) = m.scatter(&r_in, &rec, &mut rng).expect("metal reflects");
    // The unit incoming direction is (46341, -46342, 0) after fixed-point
    // normalization; the mirror negates the y component exactly.
    assert_eq!(
        (scattered.direction.x.raw, scattered.direction.y.raw, scattered.direction.z.raw),
        (46341, 46342, 0)
    );
    // dot(reflected, n) == -dot(incoming_unit, n), exactly.
    let u = r_in.direction.unit();
    assert_eq!(scattered.direction.dot(rec.normal).raw, -u.dot(rec.normal).raw);
}

#[test]
fn metal_absorbs_rays_reflected_into_the_surface() {
    let m = Material::Metal(Metal::new(v(S, S, S), fxr(0)));
    // Incoming from below the surface: the mirror goes into the surface.
    let r_in = Ray { origin: v(-S, -S, 0), direction: v(S, S, 0), time: fxr(0) };
    let rec = hit_at(v(0, 0, 0), v(0, S, 0), true);
    let mut rng = Rng::new(11);
    assert!(m.scatter(&r_in, &rec, &mut rng).is_none());
}

#[test]
fn dielectric_with_unit_index_is_a_no_op() {
    let m = Material::Dielectric(Dielectric::new(fxr(S)));
    let r_in = Ray { origin: v(0, 0, S), direction: v(0, 0, -S), time: fxr(0) };
    let rec = hit_at(v(0, 0, 0), v(0, 0, S), true);
    let mut rng = Rng::new(21);
    let before = rng.state;
    let (att, scattered) = m.scatter(&r_in, &rec, &mut rng).expect("glass transmits");
    assert_eq!((att.x.raw, att.y.raw, att.z.raw), (S, S, S));
    // The refracted direction equals the incoming unit direction exactly,
    // and the reflectance draw is never consulted: the random state is
    // untouched, for every seed.
    assert_eq!(
        (scattered.direction.x.raw, scattered.direction.y.raw, scattered.direction.z.raw),
        (0, 0, -S)
    );
    assert_eq!(rng.state, before);
    // At a grazing angle a unit index still transmits straight through,
    // where thicker glass would have rolled the Schlick draw.
    let graze = Ray { origin: v(-S, S / 4, 0), direction: v(S, -S / 4, 0), time: fxr(0) };
    let rec2 = hit_at(v(0, 0, 0), v(0, S, 0), true);
    for seed in 1..32u64 {
        let mut r2 = Rng::new(seed);
        let before2 = r2.state;
        let (_a, s2) = m.scatter(&graze, &rec2, &mut r2).expect("glass transmits");
        assert!(s2.direction.y.raw < 0, "a unit index never mirrors the ray upward");
        assert_eq!(r2.state, before2);
    }
}

#[test]
fn dielectric_reflects_under_total_internal_reflection() {
    // From inside glass (back face, ratio = ir = 1.5) at a grazing angle:
    // ratio * sin(theta) > 1, so the ray must reflect, not refract.
    let m = Material::Dielectric(Dielectric::new(fxr(98304)));
    let r_in = Ray { origin: v(-S, S / 4, 0), direction: v(S, -S / 4, 0), time: fxr(0) };
    let rec = hit_at(v(0, 0, 0), v(0, S, 0), false);
    let mut rng = Rng::new(31);
    let (_att, scattered) = m.scatter(&r_in, &rec, &mut rng).expect("always scatters");
    // A reflection flips the sign of the normal component.
    assert!(scattered.direction.y.raw > 0);
}

#[test]
fn lambertian_scatters_off_the_surface_with_its_albedo() {
    let m = Material::Lambertian(Lambertian::new(v(S / 2, S / 4, S / 8)));
    let r_in = Ray { origin: v(0, S, 0), direction: v(0, -S, 0), time: fxr(0) };
    let rec = hit_at(v(0, 0, 0), v(0, S, 0), true);
    let mut rng = Rng::new(41);
    let (att, scattered) = m.scatter(&r_in, &rec, &mut rng).expect("diffuse scatters");
    assert_eq!((att.x.raw, att.y.raw, att.z.raw), (S / 2, S / 4, S / 8));
    assert_eq!(scattered.origin, rec.point);
    // The cosine-weighted direction points out of the surface.
    assert!(scattered.direction.y.raw > 0);
}

#[test]
fn diffuse_light_emits_and_never_scatters() {
    let m = Material::DiffuseLight(DiffuseLight::new(v(4 * S, 4 * S, 4 * S)));
    let r_in = Ray { origin: v(0, S, 0), direction: v(0, -S, 0), time: fxr(0) };
    let rec = hit_at(v(0, 0, 0), v(0, S, 0), true);
    let mut rng = Rng::new(51);
    assert!(m.scatter(&r_in, &rec, &mut rng).is_none());
    let e = m.emitted(fxr(0), fxr(0), &v(0, 0, 0));
    assert_eq!((e.x.raw, e.y.raw, e.z.raw), (4 * S, 4 * S, 4 * S));
    let dark = Material::Metal(Metal::new(v(S, S, S), fxr(0)));
    let none = dark.emitted(fxr(0), fxr(0), &v(0, 0, 0));
    assert_eq!((none.x.raw, none.y.raw, none.z.raw), (0, 0, 0));
}

#[test]
fn checker_texture_alternates_with_position() {
    let c = CheckerTexture::new(v(S, 0, 0), v(0, S, 0));
    let t = Texture::Checker(c);
    // At a point where all three sines are positive the even colour shows.
    let p_even = v(S / 8, S / 8, S / 8);
    let even = t.value(fxr(0), fxr(0), &p_even);
    assert_eq!((even.x.raw, even.y.raw, even.z.raw), (S, 0, 0));
    // Flipping one coordinate's sign selects the odd colour.
    let p_odd = v(-S / 8, S / 8, S / 8);
    let odd = t.value(fxr(0), fxr(0), &p_odd);
    assert_eq!((odd.x.raw, odd.y.raw, odd.z.raw), (0, S, 0));
}

#[test]
fn image_texture_samples_the_raster() {
    // A 2 x 2 raster: red, green / blue, white.
    let data: Vec<u8> = vec![
        255, 0, 0, 0, 255, 0, //
        0, 0, 255, 255, 255, 255,
    ];
    let im = ImageTexture::new(data, 2, 2);
    let t = Texture::Image(im);
    // v is flipped: u=0, v=1 addresses the top-left pixel.
    let c = t.value(fxr(0), fxr(S), &v(0, 0, 0));
    assert_eq!((c.x.raw, c.y.raw, c.z.raw), (S, 0, 0));
    let c2 = t.value(fxr(S), fxr(S), &v(0, 0, 0));
    assert_eq!((c2.x.raw, c2.y.raw, c2.z.raw), (0, S, 0));
    let c3 = t.value(fxr(0), fxr(0), &v(0, 0, 0));
    assert_eq!((c3.x.raw, c3.y.raw, c3.z.raw), (0, 0, S));
}

#[test]
fn camera_with_closed_aperture_shoots_from_its_origin() {
    let cam = Camera::new(
        v(0, 0, 0),
        v(0, 0, -S),
        v(0, S, 0),
        Fx::from_int(90),
        fxr(S),
        fxr(0),
        Fx::from_int(10),
        fxr(0),
        fxr(0),
    );
    let mut rng = Rng::new(61);
    let r = cam.get_ray(fxr(S / 2), fxr(S / 2), &mut rng);
    assert_eq!((r.origin.x.raw, r.origin.y.raw, r.origin.z.raw), (0, 0, 0));
    // The centre sample looks straight down the view axis.
    assert!(r.direction.z.raw < 0);
    assert!(r.direction.x.raw.abs() < S / 4);
    assert!(r.direction.y.raw.abs() < S / 4);
    assert_eq!(r.time.raw, 0);
}

#[test]
fn estimate_for_a_white_sphere_sits_between_black_and_the_background() {
    // One pure-white diffuse sphere lit by a uniform white background: a
    // diffuse bounce always absorbs a sliver, so the estimate keeps some
    // energy but never reaches pure white.
    let albedo = S;
    let materials = vec![Material::Lambertian(Lambertian::new(v(
        albedo, albedo, albedo,
    )))];
    let world = Surface::Sphere(Sphere::new(v(0, 0, 0), fxr(S / 2), 0));
    let background = Background::Solid(v(S, S, S));
    let r = Ray { origin: v(0, 0, 2 * S), direction: v(0, 0, -S), time: fxr(0) };
    let mut rng = Rng::new(71);
    let c = ray_colour(&r, &background, &world, &materials, 50, &mut rng);
    for ch in [c.x.raw, c.y.raw, c.z.raw] {
        assert!(ch > 0, "some light survives one bounce");
        assert!(ch < S, "a lossy bounce can never return pure white");
    }
    // A ray that misses sees the background exactly.
    let miss = Ray { origin: v(0, 0, 2 * S), direction: v(0, S, 0), time: fxr(0) };
    let mut rng2 = Rng::new(71);
    let bg = ray_colour(&miss, &background, &world, &materials, 50, &mut rng2);
    assert_eq!((bg.x.raw, bg.y.raw, bg.z.raw), (S, S, S));
    // An exhausted bounce budget is black.
    let mut rng3 = Rng::new(71);
    let black = ray_colour(&r, &background, &world, &materials, 0, &mut rng3);
    assert_eq!((black.x.raw, black.y.raw, black.z.raw), (0, 0, 0));
}

#[test]
fn sky_gradient_blends_white_and_blue() {
    let bg = Background::Sky;
    let up = Ray { origin: v(0, 0, 0), direction: v(0, S, 0), time: fxr(0) };
    let down = Ray { origin: v(0, 0, 0), direction: v(0, -S, 0), time: fxr(0) };
    let mut rng = Rng::new(81);
    let c_up = ray_colour(&up, &bg, &Surface::Sphere(Sphere::new(v(0, 0, -100 * S), fxr(S), 0)),
        &vec![Material::Metal(Metal::new(v(S, S, S), fxr(0)))], 5, &mut rng);
    let mut rng2 = Rng::new(81);
    let c_down = ray_colour(&down, &bg, &Surface::Sphere(Sphere::new(v(0, 0, -100 * S), fxr(S), 0)),
        &vec![Material::Metal(Metal::new(v(S, S, S), fxr(0)))], 5, &mut rng2);
    // Looking up is bluer (smaller red channel) than looking down.
    assert!(c_up.x.raw < c_down.x.raw);
    assert!(c_up.z.raw > 60000);
}

#[test]
fn lambertian_attenuation_is_always_lossy() {
    // Even a texture of exactly one attenuates: each channel is capped one
    // step below one.
    let m = Material::Lambertian(Lambertian::new(v(S, S, S)));
    let r_in = Ray { origin: v(0, S, 0), direction: v(0, -S, 0), time: fxr(0) };
    let rec = hit_at(v(0, 0, 0), v(0, S, 0), true);
    let mut rng = Rng::new(91);
    let (att, _scattered) = m.scatter(&r_in, &rec, &mut rng).expect("diffuse scatters");
    assert_eq!((att.x.raw, att.y.raw, att.z.raw), (S - 1, S - 1, S - 1));
}

#[test]
fn rgb_conversion_applies_gamma_two() {
    let white = vector_to_rgb(&v(S, S, S), 1);
    assert_eq!(white, (255, 255, 255));
    let black = vector_to_rgb(&v(0, 0, 0), 1);
    assert_eq!(black, (0, 0, 0));
    // A quarter of the energy maps to half the byte range under gamma 2.
    let quarter = vector_to_rgb(&v(S / 4, S / 4, S / 4), 1);
    assert_eq!(quarter, (128, 128, 128));
    // Four samples of full white average back to full white.
    let four = vector_to_rgb(&v(4 * S, 4 * S, 4 * S), 4);
    assert_eq!(four, (255, 255, 255));
    // Oversaturated sums clamp at the byte ceiling.
    let hot = vector_to_rgb(&v(100 * S, 100 * S, 100 * S), 1);
    assert_eq!(hot, (255, 255, 255));
}
