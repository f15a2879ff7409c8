//! Tests of the scalar, vector, box, trigonometry and random-source layers.

use pathtracer::aabb::Aabb;
use pathtracer::fx::{Fx, FX_SCALE};
use pathtracer::ray::Ray;
use pathtracer::rng::Rng;
use pathtracer::trig;
use pathtracer::vec3::Vec3;

fn fxr(raw: i64) -> Fx {
    Fx { raw }
}

fn v(x: i64, y: i64, z: i64) -> Vec3 {
    Vec3 { x: fxr(x), y: fxr(y), z: fxr(z) }
}

#[test]
fn fx_add_sub_exact() {
    assert_eq!(fxr(3 * 65536).add(fxr(65536)).raw, 4 * 65536);
    assert_eq!(fxr(65536).sub(fxr(3 * 65536)).raw, -2 * 65536);
    assert_eq!(fxr(i64::MAX).add(fxr(1)).raw, i64::MAX);
    assert_eq!(fxr(i64::MIN).sub(fxr(1)).raw, i64::MIN);
}

#[test]
fn fx_mul_rounds_toward_minus_infinity() {
    // 1.5 * 0.7 in fixed point: 98304 * 45875 / 65536, floored.
    assert_eq!(fxr(98304).mul(fxr(45875)).raw, 68812);
    assert_eq!(fxr(-3).mul(fxr(1)).raw, -1);
    assert_eq!(fxr(65536).mul(fxr(65536)).raw, 65536);
}

#[test]
fn fx_div_by_zero_saturates_by_sign() {
    assert_eq!(fxr(5).div(fxr(0)).raw, i64::MAX);
    assert_eq!(fxr(-5).div(fxr(0)).raw, i64::MIN);
    assert_eq!(fxr(0).div(fxr(0)).raw, i64::MAX);
    assert_eq!(fxr(3 * 65536).div(fxr(2 * 65536)).raw, 98304);
}

#[test]
fn fx_sqrt_exact_values() {
    assert_eq!(fxr(65536).sqrt().raw, 65536);
    assert_eq!(fxr(4 * 65536).sqrt().raw, 2 * 65536);
    assert_eq!(fxr(2 * 65536).sqrt().raw, 92681);
    assert_eq!(fxr(-65536).sqrt().raw, 0);
    assert_eq!(fxr(0).sqrt().raw, 0);
}

#[test]
fn fx_floor_fract_round() {
    assert_eq!(fxr(3 * 65536 + 1000).floor_units(), 3);
    assert_eq!(fxr(-3 * 65536 - 1000).floor_units(), -4);
    assert_eq!(fxr(3 * 65536 + 1000).fract().raw, 1000);
    assert_eq!(fxr(-1000).fract().raw, 65536 - 1000);
    assert_eq!(fxr(3 * 65536 + 32768).round_units(), 4);
    assert_eq!(fxr(3 * 65536 + 32767).round_units(), 3);
}

#[test]
fn vec3_dot_cross_exact() {
    let a = v(2 * 65536, 0, 0);
    let b = v(0, 3 * 65536, 0);
    assert_eq!(a.dot(b).raw, 0);
    assert_eq!(a.dot(a).raw, 4 * 65536);
    let c = a.cross(b);
    assert_eq!((c.x.raw, c.y.raw, c.z.raw), (0, 0, 6 * 65536));
    let u = v(3 * 65536, 4 * 65536, 0).unit();
    // |(3,4,0)| = 5; components divide exactly.
    assert_eq!((u.x.raw, u.y.raw, u.z.raw), (39321, 52428, 0));
}

#[test]
fn surrounding_box_contains_both_and_is_minimal() {
    let a = Aabb { minimum: v(0, 0, 0), maximum: v(65536, 65536, 65536) };
    let b = Aabb {
        minimum: v(-65536, 32768, 0),
        maximum: v(32768, 2 * 65536, 65536),
    };
    let u = Aabb::surrounding_box(&a, &b);
    assert_eq!((u.minimum.x.raw, u.minimum.y.raw, u.minimum.z.raw), (-65536, 0, 0));
    assert_eq!(
        (u.maximum.x.raw, u.maximum.y.raw, u.maximum.z.raw),
        (65536, 2 * 65536, 65536)
    );
    // Containment of both operands.
    assert!(u.minimum.x.raw <= a.minimum.x.raw && a.maximum.x.raw <= u.maximum.x.raw);
    assert!(u.minimum.x.raw <= b.minimum.x.raw && b.maximum.x.raw <= u.maximum.x.raw);
    assert!(u.minimum.y.raw <= b.minimum.y.raw && b.maximum.y.raw <= u.maximum.y.raw);
}

#[test]
fn slab_test_hits_and_misses() {
    let bb = Aabb { minimum: v(-65536, -65536, -65536), maximum: v(65536, 65536, 65536) };
    let through = Ray {
        origin: v(0, 0, 5 * 65536),
        direction: v(0, 0, -65536),
        time: fxr(0),
    };
    assert!(bb.hit(&through, fxr(1), fxr(100 * 65536)));
    let past = Ray {
        origin: v(5 * 65536, 0, 5 * 65536),
        direction: v(0, 0, -65536),
        time: fxr(0),
    };
    assert!(!bb.hit(&past, fxr(1), fxr(100 * 65536)));
    // A ray gliding exactly on the x face still hits: the zero direction
    // component saturates like an infinity and the face counts as inside.
    let grazing = Ray {
        origin: v(65536, 0, 5 * 65536),
        direction: v(0, 0, -65536),
        time: fxr(0),
    };
    assert!(bb.hit(&grazing, fxr(1), fxr(100 * 65536)));
}

#[test]
fn trig_exact_values() {
    assert_eq!(trig::sin_fx(fxr(0)).raw, 0);
    assert_eq!(trig::sin_fx(fxr(trig::HALF_PI_FX)).raw, 65535);
    assert_eq!(trig::cos_fx(fxr(0)).raw, 65535);
    assert_eq!(trig::sin_fx(fxr(trig::PI_FX)).raw, 0);
    assert_eq!(trig::sin_fx(fxr(-trig::HALF_PI_FX)).raw, -65535);
    assert_eq!(trig::ln_fx(fxr(65536)).raw, 0);
    assert_eq!(trig::ln_fx(fxr(32768)).raw, -45426);
    assert!(trig::ln_fx(fxr(0)).raw == i64::MIN);
}

#[test]
fn atan2_quadrants() {
    let one = fxr(65536);
    let zero = fxr(0);
    // Along +x: angle zero-ish; along +y: about pi/2; along -x: about pi.
    let a0 = trig::atan2_fx(zero, one).raw;
    let a90 = trig::atan2_fx(one, zero).raw;
    let a180 = trig::atan2_fx(zero, one.neg()).raw;
    let am90 = trig::atan2_fx(one.neg(), zero).raw;
    assert_eq!(a0, 0);
    assert_eq!(a90, trig::HALF_PI_FX);
    assert_eq!(a180, trig::PI_FX);
    assert_eq!(am90, -trig::HALF_PI_FX);
}

#[test]
fn rng_is_deterministic_and_seeded() {
    let mut a = Rng::new(42);
    let mut b = Rng::new(42);
    for _ in 0..16 {
        assert_eq!(a.next_u64(), b.next_u64());
    }
    let mut c = Rng::new(43);
    assert_ne!(a.next_u64(), c.next_u64());
    // A zero seed is replaced; the generator still moves.
    let mut z = Rng::new(0);
    let first = z.next_u64();
    assert_ne!(first, 0);
}

#[test]
fn rng_draws_stay_in_range() {
    let mut r = Rng::new(7);
    for _ in 0..64 {
        let u = r.next_unit();
        assert!(0 <= u.raw && u.raw < FX_SCALE);
        let p = r.next_in_unit_sphere();
        assert!(p.dot(p).raw <= FX_SCALE);
        let d = r.next_in_unit_disk();
        assert!(d.dot(d).raw <= FX_SCALE);
        assert_eq!(d.z.raw, 0);
        let k = r.next_int(3, 9);
        assert!(3 <= k && k <= 9);
    }
}
