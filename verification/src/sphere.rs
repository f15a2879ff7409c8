//! Spheres: the quadratic intersection test and spherical surface
//! coordinates.

use vstd::prelude::*;
use crate::fx::{dfl, fx, sat, sdiv, smul, ssqrt, Fx};
use crate::hit::{mk_hit, HitRecord};
use crate::ray::{ray_at, Ray};
use crate::trig::{sacos, satan2, PI_FX};
use crate::vec3::{sdiv_v, sdot, ssub_v, Vec3};

verus! {

/// A sphere, with the index of its material in the scene's table.
#[derive(Clone, Copy, PartialEq, Eq, Structural, Debug)]
pub struct Sphere {
    pub center: Vec3,
    pub radius: Fx,
    pub material: usize,
}

/// Spherical surface coordinates of a point on the unit sphere:
/// `((atan2(-z, x) + pi) / 2 pi, acos(-y) / pi)`.
pub open spec fn sphere_uv(p: Vec3) -> (int, int) {
    let theta = sacos(sat(-p.y@));
    let phi = sat(satan2(sat(-p.z@), p.x@) + PI_FX as int);
    (sdiv(phi, 2 * PI_FX as int), sdiv(theta, PI_FX as int))
}

/// The record a sphere reports for a root `t` of its quadratic.
pub open spec fn sphere_finish(sp: Sphere, r: Ray, t: int) -> HitRecord {
    let p = ray_at(r, t);
    let outward = sdiv_v(ssub_v(p, sp.center), sp.radius@);
    let uv = sphere_uv(outward);
    mk_hit(p, outward, sp.material, fx(t), fx(uv.0), fx(uv.1), r)
}

/// The sphere intersection: solve `|O + tD - C|^2 = r^2`, preferring the
/// smaller root inside `[tmin, tmax]`, falling back to the larger one.
pub open spec fn sphere_hit_spec(sp: Sphere, r: Ray, tmin: int, tmax: int) -> Option<HitRecord> {
    let oc = ssub_v(r.origin, sp.center);
    let a = sdot(r.direction, r.direction);
    let hb = sdot(oc, r.direction);
    let c = sat(sdot(oc, oc) - smul(sp.radius@, sp.radius@));
    let disc = sat(smul(hb, hb) - smul(a, c));
    if disc < 0 {
        None
    } else {
        let sq = sat(ssqrt(disc));
        let r1 = sdiv(sat(sat(-hb) - sq), a);
        let r2 = sdiv(sat(sat(-hb) + sq), a);
        if !(r1 < tmin || r1 > tmax) {
            Some(sphere_finish(sp, r, r1))
        } else if !(r2 < tmin || r2 > tmax) {
            Some(sphere_finish(sp, r, r2))
        } else {
            None
        }
    }
}

impl Sphere {
    pub fn new(center: Vec3, radius: Fx, material: usize) -> (r: Sphere)
        ensures
            r == (Sphere { center, radius, material }),
    {
        Sphere { center, radius, material }
    }

    /// Surface coordinates of a point on the unit sphere.
    pub fn get_sphere_uv(p: &Vec3) -> (uv: (Fx, Fx))
        ensures
            uv.0 == fx(sphere_uv(*p).0),
            uv.1 == fx(sphere_uv(*p).1),
    {
        let theta = crate::trig::acos_fx(p.y.neg());
        let phi = crate::trig::atan2_fx(p.z.neg(), p.x).add(Fx { raw: PI_FX });
        (phi.div(Fx { raw: 2 * PI_FX }), theta.div(Fx { raw: PI_FX }))
    }

    /// The closest root of the sphere's quadratic inside `[t_min, t_max]`,
    /// as a full hit record.
    pub fn hit(&self, r: &Ray, t_min: Fx, t_max: Fx) -> (res: Option<HitRecord>)
        ensures
            res == sphere_hit_spec(*self, *r, t_min@, t_max@),
    {
        let oc = r.origin.sub(self.center);
        let a = r.direction.dot(r.direction);
        let half_b = oc.dot(r.direction);
        let c = oc.dot(oc).sub(self.radius.mul(self.radius));

        let discriminant = half_b.mul(half_b).sub(a.mul(c));
        if discriminant.is_neg() {
            return None;
        }
        let sqrtd = discriminant.sqrt();

        let root1 = half_b.neg().sub(sqrtd).div(a);
        let root = if !(root1.lt(t_min) || t_max.lt(root1)) {
            root1
        } else {
            let root2 = half_b.neg().add(sqrtd).div(a);
            if !(root2.lt(t_min) || t_max.lt(root2)) {
                root2
            } else {
                return None;
            }
        };

        let p = r.at(root);
        let outward = p.sub(self.center).div_scalar(self.radius);
        let (u, v) = Self::get_sphere_uv(&outward);
        Some(HitRecord::new(p, outward, self.material, root, u, v, r))
    }

    /// The box spanned by the center offset by the radius in every axis.
    pub fn bounding_box(&self, time0: Fx, time1: Fx) -> (res: Option<crate::aabb::Aabb>)
        ensures
            res == Some(sphere_box(*self)),
    {
        let rv = Vec3::splat(self.radius);
        Some(crate::aabb::Aabb { minimum: self.center.sub(rv), maximum: self.center.add(rv) })
    }
}

/// Any hit a sphere reports lies on the ray at a parameter inside the
/// requested interval — strictly positive whenever the interval starts
/// above zero — and its normal is the radial direction from the center
/// through the hit point, divided by the radius, up to the front-face flip.
pub proof fn lemma_sphere_hit_shape(sp: Sphere, r: Ray, tmin: int, tmax: int)
    ensures
        match sphere_hit_spec(sp, r, tmin, tmax) {
            Some(rec) => {
                &&& tmin <= rec.t@ <= tmax
                &&& tmin > 0 ==> rec.t@ > 0
                &&& rec.point == ray_at(r, rec.t@)
                &&& (rec.normal == sdiv_v(ssub_v(rec.point, sp.center), sp.radius@)
                    || rec.normal == crate::vec3::sneg_v(
                    sdiv_v(ssub_v(rec.point, sp.center), sp.radius@),
                ))
            },
            None => true,
        },
{
}

/// Tightening the far end of the interval is stable: the same hit comes
/// back when its parameter still fits, and nothing comes back when it does
/// not.
#[verifier::rlimit(100)]
pub proof fn lemma_sphere_hit_restrict(sp: Sphere, r: Ray, tmin: int, tmax2: int, tmax: int)
    requires
        tmax2 <= tmax,
    ensures
        match sphere_hit_spec(sp, r, tmin, tmax) {
            None => sphere_hit_spec(sp, r, tmin, tmax2) is None,
            Some(h) => if h.t@ <= tmax2 {
                sphere_hit_spec(sp, r, tmin, tmax2) == Some(h)
            } else {
                sphere_hit_spec(sp, r, tmin, tmax2) is None
            },
        },
{
    let oc = ssub_v(r.origin, sp.center);
    let a = sdot(r.direction, r.direction);
    let hb = sdot(oc, r.direction);
    let c = sat(sdot(oc, oc) - smul(sp.radius@, sp.radius@));
    let disc = sat(smul(hb, hb) - smul(a, c));
    if disc >= 0 {
        let sq = sat(ssqrt(disc));
        crate::fx::lemma_ssqrt_bounds(disc);
        assert(sq >= 0);
        crate::vec3::lemma_sdot_self_nonneg(r.direction);
        assert(a >= 0);
        crate::fx::lemma_sdiv_monotone(sat(sat(-hb) - sq), sat(sat(-hb) + sq), a);
    }
}

/// A ray aimed exactly at the center of a sphere from comfortably outside
/// always hits, with a strictly positive parameter.  The inputs are
/// restricted to those on which the fixed-point arithmetic is exact enough
/// to carry the discriminant argument: direction components and radius in
/// whole steps of 1/256, the direction no longer than 256 units, the
/// radius between one and 256 units, and the squared distance at least
/// twice the squared radius.  Together with `lemma_sphere_hit_shape`, the
/// hit's point lies on the ray and its normal is radial.
#[verifier::rlimit(100)]
pub proof fn lemma_sphere_aimed_hit_exists(sp: Sphere, r: Ray, tmax: int)
    requires
        tmax >= crate::fx::FX_SCALE as int,
        r.direction.x@ == sp.center.x@ - r.origin.x@,
        r.direction.y@ == sp.center.y@ - r.origin.y@,
        r.direction.z@ == sp.center.z@ - r.origin.z@,
        r.direction.x@ % 256 == 0,
        r.direction.y@ % 256 == 0,
        r.direction.z@ % 256 == 0,
        -0x100_0000 <= r.direction.x@ <= 0x100_0000,
        -0x100_0000 <= r.direction.y@ <= 0x100_0000,
        -0x100_0000 <= r.direction.z@ <= 0x100_0000,
        -0x1000_0000_0000 <= r.origin.x@ <= 0x1000_0000_0000,
        -0x1000_0000_0000 <= r.origin.y@ <= 0x1000_0000_0000,
        -0x1000_0000_0000 <= r.origin.z@ <= 0x1000_0000_0000,
        sp.radius@ % 256 == 0,
        crate::fx::FX_SCALE as int <= sp.radius@ <= 0x100_0000,
        sdot(r.direction, r.direction) >= 2 * smul(sp.radius@, sp.radius@),
    ensures
        sphere_hit_spec(sp, r, 0, tmax) is Some,
        match sphere_hit_spec(sp, r, 0, tmax) {
            Some(rec) => rec.t@ > 0,
            None => true,
        },
{
    let s = crate::fx::FX_SCALE as int;
    lemma_exact_square(r.direction.x@);
    lemma_exact_square(r.direction.y@);
    lemma_exact_square(r.direction.z@);
    lemma_exact_square(sp.radius@);
    let fx_ = smul(r.direction.x@, r.direction.x@);
    let fy_ = smul(r.direction.y@, r.direction.y@);
    let fz_ = smul(r.direction.z@, r.direction.z@);
    let a = sdot(r.direction, r.direction);
    assert(a == fx_ + fy_ + fz_);
    let oc = ssub_v(r.origin, sp.center);
    assert(oc.x@ == -r.direction.x@ && oc.y@ == -r.direction.y@ && oc.z@ == -r.direction.z@);
    lemma_neg_products(r.direction.x@);
    lemma_neg_products(r.direction.y@);
    lemma_neg_products(r.direction.z@);
    assert(sdot(oc, oc) == a);
    let hb = sdot(oc, r.direction);
    assert(hb == -a);
    let rr = smul(sp.radius@, sp.radius@);
    assert(s * rr == sp.radius@ * sp.radius@);
    assert(rr >= s) by (nonlinear_arith)
        requires
            s * rr == sp.radius@ * sp.radius@,
            sp.radius@ >= s,
            s == 65536,
    ;
    assert(rr <= 0x1_0000_0000) by (nonlinear_arith)
        requires
            s * rr == sp.radius@ * sp.radius@,
            0 <= sp.radius@ <= 0x100_0000,
            s == 65536,
    ;
    let c = sat(sdot(oc, oc) - rr);
    assert(c == a - rr);
    assert(a >= 2 * rr && rr >= s && a <= 0x3_0000_0000);

    // The discriminant: floor(a^2 / s) - floor(a c / s) is at least
    // (a rr - s + 1) / s, which the outside margin makes at least s.
    let q1 = dfl(a * a, s);
    let q2 = dfl(a * c, s);
    vstd::arithmetic::div_mod::lemma_fundamental_div_mod(a * a, s);
    vstd::arithmetic::div_mod::lemma_fundamental_div_mod(a * c, s);
    assert(s <= q1 - q2 <= (a * rr + s - 1) / s + 1) by (nonlinear_arith)
        requires
            a * a == s * q1 + (a * a) % s,
            a * c == s * q2 + (a * c) % s,
            0 <= (a * a) % s < s,
            0 <= (a * c) % s < s,
            c == a - rr,
            a >= 2 * rr,
            rr >= s,
            s == 65536,
            a <= 0x3_0000_0000,
    ;
    assert(s * (q1 - q2) <= a * rr + s) by (nonlinear_arith)
        requires
            a * a == s * q1 + (a * a) % s,
            a * c == s * q2 + (a * c) % s,
            0 <= (a * a) % s < s,
            0 <= (a * c) % s < s,
            c == a - rr,
            s == 65536,
    ;
    let disc = sat(smul(hb, hb) - smul(a, c));
    assert(smul(hb, hb) == sat(q1)) by {
        assert((-a) * (-a) == a * a) by (nonlinear_arith);
    }
    assert(0 <= q1 <= 0x9_0000_0000_0000) by (nonlinear_arith)
        requires
            a * a == s * q1 + (a * a) % s,
            0 <= (a * a) % s < s,
            0 <= a <= 0x3_0000_0000,
            s == 65536,
    ;
    assert(0 <= q2 <= q1) by (nonlinear_arith)
        requires
            a * a == s * q1 + (a * a) % s,
            a * c == s * q2 + (a * c) % s,
            0 <= (a * a) % s < s,
            0 <= (a * c) % s < s,
            0 <= c <= a,
            a >= 0,
            s == 65536,
    ;
    assert(disc == q1 - q2);
    assert(disc >= s);

    // The root: the near quadratic root is at least one raw step and at
    // most one unit, so it lands inside [0, tmax].
    crate::fx::lemma_isqrt_exists(disc * s);
    let sq = crate::fx::isqrt_s(disc * s);
    assert(crate::fx::ssqrt(disc) == sq);
    assert(sq * sq <= disc * s && disc * s < (sq + 1) * (sq + 1) && sq >= 0);
    assert(disc * s <= a * rr + s * s) by (nonlinear_arith)
        requires
            s * (q1 - q2) <= a * rr + s,
            disc == q1 - q2,
            s == 65536,
    ;
    assert(sq <= a - 2) by (nonlinear_arith)
        requires
            sq >= 0,
            sq * sq <= a * rr + s * s,
            a >= 2 * rr,
            rr >= s,
            a <= 0x3_0000_0000,
            s == 65536,
    ;
    let num = sat(sat(-hb) - sq);
    assert(sat(-hb) == a);
    assert(num == a - sq);
    assert((sq * s) * (sq * s) <= (a * s - a) * (a * s - a)) by (nonlinear_arith)
        requires
            sq >= 0,
            sq * sq <= a * rr + s * s,
            2 * rr <= a,
            rr >= s,
            2 * s <= a,
            a <= 0x3_0000_0000,
            s == 65536,
    ;
    assert(sq * s <= a * s - a) by (nonlinear_arith)
        requires
            (sq * s) * (sq * s) <= (a * s - a) * (a * s - a),
            sq >= 0,
            a * s - a > 0,
            s == 65536,
    ;
    let root1 = sdiv(num, a);
    let q3 = dfl((a - sq) * s, a);
    vstd::arithmetic::div_mod::lemma_fundamental_div_mod((a - sq) * s, a);
    assert(1 <= q3 <= s) by (nonlinear_arith)
        requires
            (a - sq) * s == a * q3 + ((a - sq) * s) % a,
            0 <= ((a - sq) * s) % a < a,
            sq * s <= a * s - a,
            2 <= a - sq <= a,
            a >= 2 * s,
            sq >= 0,
            s == 65536,
    ;
    assert(root1 == q3);
    assert(0 <= root1 <= tmax);
}

/// A scalar in whole steps of 1/256 has an exactly representable square:
/// the fixed-point product loses nothing.
proof fn lemma_exact_square(x: int)
    requires
        x % 256 == 0,
        -0x100_0000 <= x <= 0x100_0000,
    ensures
        (crate::fx::FX_SCALE as int) * smul(x, x) == x * x,
        0 <= smul(x, x) <= 0x1_0000_0000,
{
    let s = crate::fx::FX_SCALE as int;
    vstd::arithmetic::div_mod::lemma_fundamental_div_mod(x, 256);
    let k = x / 256;
    assert(x == 256 * k);
    assert(x * x == s * (k * k)) by (nonlinear_arith)
        requires
            x == 256 * k,
            s == 65536,
    ;
    assert(x * x == (k * k) * s + 0) by (nonlinear_arith)
        requires
            x * x == s * (k * k),
    ;
    vstd::arithmetic::div_mod::lemma_fundamental_div_mod_converse(x * x, s, k * k, 0);
    assert(0 <= k * k <= 0x1_0000_0000) by (nonlinear_arith)
        requires
            x == 256 * k,
            -0x100_0000 <= x <= 0x100_0000,
    ;
    assert(s * (k * k) == x * x) by (nonlinear_arith)
        requires
            x * x == s * (k * k),
    ;
}

/// Negating one factor of an exact square negates the fixed-point product
/// exactly, and negating both restores it.
proof fn lemma_neg_products(x: int)
    requires
        x % 256 == 0,
        -0x100_0000 <= x <= 0x100_0000,
    ensures
        smul(-x, x) == -smul(x, x),
        smul(-x, -x) == smul(x, x),
{
    let s = crate::fx::FX_SCALE as int;
    lemma_exact_square(x);
    assert((-x) * x == -(x * x)) by (nonlinear_arith);
    assert((-x) * (-x) == x * x) by (nonlinear_arith);
    assert(-(x * x) == (-smul(x, x)) * s + 0) by (nonlinear_arith)
        requires
            s * smul(x, x) == x * x,
    ;
    vstd::arithmetic::div_mod::lemma_fundamental_div_mod_converse(
        -(x * x),
        s,
        -smul(x, x),
        0,
    );
}

/// The sphere's bounding box.
pub open spec fn sphere_box(sp: Sphere) -> crate::aabb::Aabb {
    let rv = Vec3 { x: sp.radius, y: sp.radius, z: sp.radius };
    crate::aabb::Aabb { minimum: ssub_v(sp.center, rv), maximum: crate::vec3::sadd_v(sp.center, rv) }
}

} // verus!
