//! A sphere whose center is linearly interpolated between two keyframe
//! positions over the shutter interval.

use vstd::prelude::*;
use crate::aabb::{sbox_union, Aabb};
use crate::fx::{fx, sat, sdiv, smul, ssqrt, Fx};
use crate::hit::{mk_hit, HitRecord};
use crate::ray::{ray_at, Ray};
use crate::vec3::{sadd_v, sdiv_v, sdot, sscale_v, ssub_v, Vec3};

verus! {

/// A moving sphere; surface coordinates are not computed for it.
#[derive(Clone, Copy, PartialEq, Eq, Structural, Debug)]
pub struct MovingSphere {
    pub center0: Vec3,
    pub center1: Vec3,
    pub time0: Fx,
    pub time1: Fx,
    pub radius: Fx,
    pub material: usize,
}

/// The interpolated center at a time.
pub open spec fn moving_center(ms: MovingSphere, time: int) -> Vec3 {
    let k = sdiv(sat(time - ms.time0@), sat(ms.time1@ - ms.time0@));
    sadd_v(ms.center0, sscale_v(ssub_v(ms.center1, ms.center0), k))
}

/// The record a moving sphere reports for a root `t`.
pub open spec fn moving_sphere_finish(ms: MovingSphere, r: Ray, t: int) -> HitRecord {
    let p = ray_at(r, t);
    let outward = sdiv_v(ssub_v(p, moving_center(ms, r.time@)), ms.radius@);
    mk_hit(p, outward, ms.material, fx(t), fx(0), fx(0), r)
}

/// The quadratic intersection against the center at the ray's time.
pub open spec fn moving_sphere_hit_spec(ms: MovingSphere, r: Ray, tmin: int, tmax: int) -> Option<
    HitRecord,
> {
    let oc = ssub_v(r.origin, moving_center(ms, r.time@));
    let a = sdot(r.direction, r.direction);
    let hb = sdot(oc, r.direction);
    let c = sat(sdot(oc, oc) - smul(ms.radius@, ms.radius@));
    let disc = sat(smul(hb, hb) - smul(a, c));
    if disc < 0 {
        None
    } else {
        let sq = sat(ssqrt(disc));
        let r1 = sdiv(sat(sat(-hb) - sq), a);
        let r2 = sdiv(sat(sat(-hb) + sq), a);
        if !(r1 < tmin || r1 > tmax) {
            Some(moving_sphere_finish(ms, r, r1))
        } else if !(r2 < tmin || r2 > tmax) {
            Some(moving_sphere_finish(ms, r, r2))
        } else {
            None
        }
    }
}

/// The box at one keyframe time.
pub open spec fn moving_sphere_box_at(ms: MovingSphere, time: int) -> Aabb {
    let c = moving_center(ms, time);
    let rv = Vec3 { x: ms.radius, y: ms.radius, z: ms.radius };
    Aabb { minimum: ssub_v(c, rv), maximum: sadd_v(c, rv) }
}

/// The union of the boxes at the two ends of the span: a deliberate, cheap
/// over-approximation of the swept volume.
pub open spec fn moving_sphere_box(ms: MovingSphere, t0: int, t1: int) -> Aabb {
    sbox_union(moving_sphere_box_at(ms, t0), moving_sphere_box_at(ms, t1))
}

/// Any hit a moving sphere reports lies inside the requested interval.
pub proof fn lemma_moving_sphere_hit_in_window(ms: MovingSphere, r: Ray, tmin: int, tmax: int)
    ensures
        match moving_sphere_hit_spec(ms, r, tmin, tmax) {
            Some(rec) => tmin <= rec.t@ <= tmax,
            None => true,
        },
{
}

/// Tightening the far end of the interval is stable for a moving sphere.
#[verifier::rlimit(100)]
pub proof fn lemma_moving_sphere_hit_restrict(
    ms: MovingSphere,
    r: Ray,
    tmin: int,
    tmax2: int,
    tmax: int,
)
    requires
        tmax2 <= tmax,
    ensures
        match moving_sphere_hit_spec(ms, r, tmin, tmax) {
            None => moving_sphere_hit_spec(ms, r, tmin, tmax2) is None,
            Some(h) => if h.t@ <= tmax2 {
                moving_sphere_hit_spec(ms, r, tmin, tmax2) == Some(h)
            } else {
                moving_sphere_hit_spec(ms, r, tmin, tmax2) is None
            },
        },
{
    let oc = ssub_v(r.origin, moving_center(ms, r.time@));
    let a = sdot(r.direction, r.direction);
    let hb = sdot(oc, r.direction);
    let c = sat(sdot(oc, oc) - smul(ms.radius@, ms.radius@));
    let disc = sat(smul(hb, hb) - smul(a, c));
    if disc >= 0 {
        let sq = sat(ssqrt(disc));
        crate::fx::lemma_ssqrt_bounds(disc);
        assert(sq >= 0);
        crate::vec3::lemma_sdot_self_nonneg(r.direction);
        assert(a >= 0);
        crate::fx::lemma_sdiv_monotone(sat(sat(-hb) - sq), sat(sat(-hb) + sq), a);
    }
}

impl MovingSphere {
    pub fn new(
        center0: Vec3,
        center1: Vec3,
        time0: Fx,
        time1: Fx,
        radius: Fx,
        material: usize,
    ) -> (r: MovingSphere)
        ensures
            r == (MovingSphere { center0, center1, time0, time1, radius, material }),
    {
        MovingSphere { center0, center1, time0, time1, radius, material }
    }

    /// The interpolated center at `time`.
    pub fn center(&self, time: Fx) -> (c: Vec3)
        ensures
            c == moving_center(*self, time@),
    {
        let k = time.sub(self.time0).div(self.time1.sub(self.time0));
        self.center0.add(self.center1.sub(self.center0).scale(k))
    }

    /// The closest root of the quadratic against the center at the ray's
    /// time.
    pub fn hit(&self, r: &Ray, t_min: Fx, t_max: Fx) -> (res: Option<HitRecord>)
        ensures
            res == moving_sphere_hit_spec(*self, *r, t_min@, t_max@),
    {
        let center = self.center(r.time);
        let oc = r.origin.sub(center);
        let a = r.direction.dot(r.direction);
        let half_b = oc.dot(r.direction);
        let c = oc.dot(oc).sub(self.radius.mul(self.radius));

        let discriminant = half_b.mul(half_b).sub(a.mul(c));
        if discriminant.is_neg() {
            return None;
        }
        let sqrtd = discriminant.sqrt();

        let root1 = half_b.neg().sub(sqrtd).div(a);
        let root = if !(root1.lt(t_min) || t_max.lt(root1)) {
            root1
        } else {
            let root2 = half_b.neg().add(sqrtd).div(a);
            if !(root2.lt(t_min) || t_max.lt(root2)) {
                root2
            } else {
                return None;
            }
        };

        let p = r.at(root);
        let outward = p.sub(center).div_scalar(self.radius);
        Some(
            HitRecord::new(p, outward, self.material, root, Fx { raw: 0 }, Fx { raw: 0 }, r),
        )
    }

    /// The union of the keyframe boxes over the span.
    pub fn bounding_box(&self, time0: Fx, time1: Fx) -> (res: Option<Aabb>)
        ensures
            res == Some(moving_sphere_box(*self, time0@, time1@)),
    {
        let rv = Vec3::splat(self.radius);
        let c0 = self.center(time0);
        let c1 = self.center(time1);
        let box0 = Aabb { minimum: c0.sub(rv), maximum: c0.add(rv) };
        let box1 = Aabb { minimum: c1.sub(rv), maximum: c1.add(rv) };
        Some(Aabb::surrounding_box(&box0, &box1))
    }
}

} // verus!
