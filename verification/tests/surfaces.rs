//! Tests of the surface variants, the composites, and the bounding volume
//! hierarchy against a brute-force linear scan.

use pathtracer::aabox::AaBox;
use pathtracer::aarect::{XYRect, XZRect, YZRect};
use pathtracer::bvh::bvh_build;
use pathtracer::fx::Fx;
use pathtracer::hittable_list::HittableList;
use pathtracer::medium::ConstantMedium;
use pathtracer::moving_sphere::MovingSphere;
use pathtracer::ray::Ray;
use pathtracer::rng::Rng;
use pathtracer::sphere::Sphere;
use pathtracer::surface::Surface;
use pathtracer::perlin::Perlin;
use pathtracer::transform::{RotateY, Translate};
use pathtracer::vec3::Vec3;

fn fxr(raw: i64) -> Fx {
    Fx { raw }
}

fn v(x: i64, y: i64, z: i64) -> Vec3 {
    Vec3 { x: fxr(x), y: fxr(y), z: fxr(z) }
}

const S: i64 = 65536;

fn zray(oz: i64) -> Ray {
    Ray { origin: v(0, 0, oz), direction: v(0, 0, -S), time: fxr(0) }
}

#[test]
fn sphere_hit_from_outside_toward_center() {
    // Unit-radius sphere two units down the axis; the ray points at its
    // center, so the hit has t = 1, a radial unit normal, and front face.
    let sp = Sphere::new(v(0, 0, -2 * S), fxr(S), 0);
    let r = zray(0);
    let rec = sp.hit(&r, fxr(1), fxr(100 * S)).expect("must hit");
    assert_eq!(rec.t.raw, S);
    assert_eq!((rec.point.x.raw, rec.point.y.raw, rec.point.z.raw), (0, 0, -S));
    assert_eq!((rec.normal.x.raw, rec.normal.y.raw, rec.normal.z.raw), (0, 0, S));
    assert!(rec.front_face);
    assert!(rec.t.raw > 0);
    // Aiming the direction exactly at the center (the aimed-hit law's
    // scenario) also hits, halfway along the aim vector.
    let aimed = Ray { origin: v(0, 0, 0), direction: v(0, 0, -2 * S), time: fxr(0) };
    let hit = sp.hit(&aimed, fxr(0), fxr(100 * S)).expect("aimed ray must hit");
    assert_eq!(hit.t.raw, S / 2);
    assert!(hit.t.raw > 0);
}

#[test]
fn sphere_prefers_near_root_and_respects_interval() {
    let sp = Sphere::new(v(0, 0, -2 * S), fxr(S), 0);
    let r = zray(0);
    // Excluding the near root selects the far one.
    let far = sp.hit(&r, fxr(2 * S), fxr(100 * S)).expect("far root");
    assert_eq!(far.t.raw, 3 * S);
    assert!(!far.front_face);
    // Excluding both roots misses.
    assert!(sp.hit(&r, fxr(4 * S), fxr(100 * S)).is_none());
    // A ray pointing away misses.
    let away = Ray { origin: v(0, 0, 0), direction: v(0, 0, S), time: fxr(0) };
    assert!(away.direction.z.raw > 0 && sp.hit(&away, fxr(1), fxr(100 * S)).is_none());
}

#[test]
fn moving_sphere_interpolates_center() {
    let ms = MovingSphere::new(v(0, 0, 0), v(2 * S, 0, 0), fxr(0), fxr(S), fxr(S), 0);
    let c0 = ms.center(fxr(0));
    let c1 = ms.center(fxr(S));
    let ch = ms.center(fxr(S / 2));
    assert_eq!(c0.x.raw, 0);
    assert_eq!(c1.x.raw, 2 * S);
    assert_eq!(ch.x.raw, S);
    // A ray at time 1 must see the moved sphere.
    let r = Ray { origin: v(2 * S, 0, 5 * S), direction: v(0, 0, -S), time: fxr(S) };
    let rec = ms.hit(&r, fxr(1), fxr(100 * S)).expect("hit at time 1");
    assert_eq!(rec.t.raw, 4 * S);
}

#[test]
fn rect_hits_inside_and_misses_outside() {
    let rc = XYRect::new(fxr(-S), fxr(S), fxr(-S), fxr(S), fxr(-2 * S), 0);
    let inside = rc.hit(&zray(0), fxr(1), fxr(100 * S)).expect("hit plane");
    assert_eq!(inside.t.raw, 2 * S);
    assert_eq!(inside.u.raw, S / 2);
    assert_eq!(inside.v.raw, S / 2);
    let off = Ray { origin: v(3 * S, 0, 0), direction: v(0, 0, -S), time: fxr(0) };
    assert!(rc.hit(&off, fxr(1), fxr(100 * S)).is_none());

    let xz = XZRect::new(fxr(-S), fxr(S), fxr(-S), fxr(S), fxr(-2 * S), 0);
    let down = Ray { origin: v(0, 0, 0), direction: v(0, -S, 0), time: fxr(0) };
    assert_eq!(xz.hit(&down, fxr(1), fxr(100 * S)).expect("floor").t.raw, 2 * S);

    let yz = YZRect::new(fxr(-S), fxr(S), fxr(-S), fxr(S), fxr(-2 * S), 0);
    let left = Ray { origin: v(0, 0, 0), direction: v(-S, 0, 0), time: fxr(0) };
    assert_eq!(yz.hit(&left, fxr(1), fxr(100 * S)).expect("wall").t.raw, 2 * S);
}

#[test]
fn cuboid_is_its_six_faces() {
    let ab = AaBox::new(v(-S, -S, -3 * S), v(S, S, -2 * S), 0);
    assert_eq!(ab.sides.objects.len(), 6);
    let mut rng = Rng::new(1);
    let rec = ab.hit(&zray(0), fxr(1), fxr(100 * S), &mut rng).expect("front face");
    assert_eq!(rec.t.raw, 2 * S);
    let bb = ab.bounding_box(fxr(0), fxr(S)).unwrap();
    assert_eq!(bb.minimum.z.raw, -3 * S);
    assert_eq!(bb.maximum.z.raw, -2 * S);
}

#[test]
fn translate_round_trip_matches_bare_surface() {
    let d = v(3 * S, -2 * S, 5 * S);
    let nd = v(-3 * S, 2 * S, -5 * S);
    let bare = Sphere::new(v(0, 0, -2 * S), fxr(S), 0);
    let wrapped = Surface::Translate(Translate::new(
        Box::new(Surface::Translate(Translate::new(
            Box::new(Surface::Sphere(bare)),
            d,
        ))),
        nd,
    ));
    for oz in [0i64, 3 * S, 7 * S] {
        let r = zray(oz);
        let mut rng1 = Rng::new(9);
        let mut rng2 = Rng::new(9);
        let a = wrapped.hit(&r, fxr(1), fxr(100 * S), &mut rng1);
        let b = bare.hit(&r, fxr(1), fxr(100 * S));
        match (a, b) {
            (Some(x), Some(y)) => {
                assert_eq!(x.point, y.point);
                assert_eq!(x.normal, y.normal);
                assert_eq!(x.t, y.t);
                assert_eq!(x.u, y.u);
                assert_eq!(x.v, y.v);
            },
            (None, None) => {},
            _ => panic!("translate round trip changed hit presence"),
        }
        assert_eq!(rng1.state, rng2.state);
    }
}

#[test]
fn rotate_y_quarter_turn_moves_the_target() {
    // A sphere sitting on the +x axis, rotated 90 degrees about y, is found
    // close to where the -z axis ray expects it after rotation.
    let sp = Surface::Sphere(Sphere::new(v(4 * S, 0, 0), fxr(S), 0));
    let ry = RotateY::new(Box::new(sp), Fx::from_int(90));
    // sin 90deg is close to one, cos close to zero.
    assert!((ry.sin_theta.raw - S).abs() < 700);
    assert!(ry.cos_theta.raw.abs() < 700);
    let rot = Surface::Rotate(ry);
    let r = Ray { origin: v(0, 0, 6 * S), direction: v(0, 0, -S), time: fxr(0) };
    let mut rng = Rng::new(3);
    let rec = rot.hit(&r, fxr(1), fxr(100 * S), &mut rng);
    assert!(rec.is_some(), "rotated sphere must appear on the -z axis");
}

#[test]
fn medium_with_vanishing_density_lets_rays_through() {
    let boundary = Surface::Sphere(Sphere::new(v(0, 0, -4 * S), fxr(2 * S), 0));
    // Density 1/65536: the free-flight distance is enormous.
    let thin = ConstantMedium::new(Box::new(boundary), fxr(1), 1);
    let mut passed = 0;
    for seed in 1..40u64 {
        let mut rng = Rng::new(seed);
        if thin
            .hit(&zray(0), fxr(1), fxr(100 * S), &mut rng)
            .is_none()
        {
            passed += 1;
        }
    }
    assert_eq!(passed, 39, "nearly every ray passes an almost empty medium");
    // A dense medium interacts instead.
    let boundary2 = Surface::Sphere(Sphere::new(v(0, 0, -4 * S), fxr(2 * S), 0));
    let dense = ConstantMedium::new(Box::new(boundary2), Fx::from_int(5000), 1);
    let mut interacted = 0;
    for seed in 1..40u64 {
        let mut rng = Rng::new(seed);
        if dense
            .hit(&zray(0), fxr(1), fxr(100 * S), &mut rng)
            .is_some()
        {
            interacted += 1;
        }
    }
    assert!(interacted >= 30, "a dense medium interacts almost surely");
}

#[test]
fn bvh_and_linear_list_agree_on_closest_hits() {
    // A deterministic random field of spheres, probed by a grid of rays:
    // the tree and the flat list must report the same closest hit.
    let mut scene_rng = Rng::new(2024);
    let mut objects: Vec<Surface> = Vec::new();
    for _ in 0..24 {
        let cx = scene_rng.next_range(fxr(-6 * S), fxr(6 * S));
        let cy = scene_rng.next_range(fxr(-6 * S), fxr(6 * S));
        let cz = scene_rng.next_range(fxr(-14 * S), fxr(-4 * S));
        let rad = scene_rng.next_range(fxr(S / 4), fxr(2 * S));
        objects.push(Surface::Sphere(Sphere::new(
            Vec3 { x: cx, y: cy, z: cz },
            rad,
            0,
        )));
    }
    let list = HittableList { objects };
    let mut copy: Vec<Surface> = Vec::new();
    for o in &list.objects {
        if let Surface::Sphere(sp) = o {
            copy.push(Surface::Sphere(*sp));
        }
    }
    let mut build_rng = Rng::new(77);
    let tree = bvh_build(copy, fxr(0), fxr(S), &mut build_rng);

    let mut probes = 0;
    let mut hits = 0;
    for ix in -6..7i64 {
        for iy in -6..7i64 {
            let r = Ray {
                origin: v(ix * S, iy * S, 4 * S),
                direction: v(ix * 1024, -iy * 1024, -S),
                time: fxr(0),
            };
            let mut rng_a = Rng::new(1);
            let mut rng_b = Rng::new(1);
            let from_list = list.hit(&r, fxr(66), fxr(i64::MAX), &mut rng_a);
            let from_tree = tree.hit(&r, fxr(66), fxr(i64::MAX), &mut rng_b);
            probes += 1;
            match (from_list, from_tree) {
                (Some(a), Some(b)) => {
                    assert_eq!(a.t, b.t, "closest parameter must agree");
                    assert_eq!(a.point, b.point);
                    hits += 1;
                },
                (None, None) => {},
                _ => panic!("tree and list disagree on hit presence"),
            }
        }
    }
    assert!(probes == 169 && hits > 10, "the field must actually be probed");
}

#[test]
fn list_probe_keeps_the_closest_hit() {
    let mut list = HittableList::empty();
    // The farther sphere is listed first; the closer one must still win.
    list.add(Surface::Sphere(Sphere::new(v(0, 0, -8 * S), fxr(S), 0)));
    list.add(Surface::Sphere(Sphere::new(v(0, 0, -3 * S), fxr(S), 1)));
    let mut rng = Rng::new(13);
    let rec = list.hit(&zray(0), fxr(1), fxr(100 * S), &mut rng).expect("closest hit");
    assert_eq!(rec.t.raw, 2 * S);
    assert_eq!(rec.material, 1);
}

#[test]
fn perlin_turbulence_is_deterministic_and_absolute() {
    let mut rng1 = Rng::new(123);
    let mut rng2 = Rng::new(123);
    let p1 = Perlin::new(&mut rng1);
    let p2 = Perlin::new(&mut rng2);
    for (x, y, z) in [(0i64, 0i64, 0i64), (S, S / 2, -S), (7 * S / 3, -5 * S, 9 * S / 4)] {
        let at = v(x, y, z);
        assert_eq!(p1.noise(&at).raw, p2.noise(&at).raw);
        assert_eq!(p1.turb(&at).raw, p2.turb(&at).raw);
        assert!(p1.turb(&at).raw >= 0, "turbulence is a magnitude");
    }
}

#[test]
fn perlin_tables_are_permutations_and_noise_is_bounded() {
    let mut rng = Rng::new(321);
    let field = Perlin::new(&mut rng);
    for table in [&field.perm_x, &field.perm_y, &field.perm_z] {
        let mut seen = [false; 256];
        for &b in table.iter() {
            assert!(!seen[b as usize], "each byte appears exactly once");
            seen[b as usize] = true;
        }
        assert!(seen.iter().all(|&s| s), "every byte appears");
    }
    // Every gradient component is within twice the unit scale, and the
    // noise stays inside its proved envelope.
    for g in field.ranvec.iter() {
        assert!(g.x.raw.abs() <= 2 * S && g.y.raw.abs() <= 2 * S && g.z.raw.abs() <= 2 * S);
    }
    for (x, y, z) in [(0i64, 0i64, 0i64), (S / 3, -S, 7 * S / 2), (-9 * S / 4, 5 * S, S / 7)] {
        let n = field.noise(&v(x, y, z)).raw;
        assert!(n.abs() <= 49 * S, "noise stays in the proved envelope");
    }
}

#[test]
fn unit_vector_draws_are_bounded_and_deterministic() {
    let mut a = Rng::new(77);
    let mut b = Rng::new(77);
    for _ in 0..64 {
        let u = a.next_unit_vector();
        assert_eq!(u, b.next_unit_vector());
        assert!(u.x.raw.abs() <= 2 * S && u.y.raw.abs() <= 2 * S && u.z.raw.abs() <= 2 * S);
        assert!(u.x.raw != 0 || u.y.raw != 0 || u.z.raw != 0, "never the zero vector");
    }
}

#[test]
fn list_bounding_box_encloses_members() {
    let mut list = HittableList::empty();
    list.add(Surface::Sphere(Sphere::new(v(0, 0, 0), fxr(S), 0)));
    list.add(Surface::Sphere(Sphere::new(v(4 * S, 0, 0), fxr(S), 0)));
    let bb = list.bounding_box(fxr(0), fxr(S)).unwrap();
    assert_eq!(bb.minimum.x.raw, -S);
    assert_eq!(bb.maximum.x.raw, 5 * S);
    let empty = HittableList::empty();
    assert!(empty.bounding_box(fxr(0), fxr(S)).is_none());
}
