//! The result of a successful intersection: point, normal (always flipped to
//! oppose the incoming ray), material handle, parametric distance, surface
//! coordinates and the front-face flag.

use vstd::prelude::*;
use crate::fx::Fx;
use crate::ray::Ray;
use crate::vec3::{sdot, sneg_v, Vec3};

verus! {

/// A hit record.  `material` is an index into the scene's material table.
#[derive(Clone, Copy, PartialEq, Eq, Structural, Debug)]
pub struct HitRecord {
    pub point: Vec3,
    pub normal: Vec3,
    pub material: usize,
    pub t: Fx,
    pub u: Fx,
    pub v: Fx,
    pub front_face: bool,
}

/// The record built from an outward normal: the stored normal opposes the
/// ray, and `front_face` remembers which side the ray came from.
pub open spec fn mk_hit(
    point: Vec3,
    outward_normal: Vec3,
    material: usize,
    t: Fx,
    u: Fx,
    v: Fx,
    r: Ray,
) -> HitRecord {
    let ff = sdot(r.direction, outward_normal) < 0;
    HitRecord {
        point,
        normal: if ff {
            outward_normal
        } else {
            sneg_v(outward_normal)
        },
        material,
        t,
        u,
        v,
        front_face: ff,
    }
}

impl HitRecord {
    pub fn new(
        point: Vec3,
        normal: Vec3,
        material: usize,
        t: Fx,
        u: Fx,
        v: Fx,
        r: &Ray,
    ) -> (rec: HitRecord)
        ensures
            rec == mk_hit(point, normal, material, t, u, v, *r),
    {
        let front_face = r.direction.dot(normal).is_neg();
        HitRecord {
            point,
            normal: if front_face {
                normal
            } else {
                normal.neg()
            },
            material,
            t,
            u,
            v,
            front_face,
        }
    }

    pub fn point(&self) -> (r: Vec3)
        ensures
            r == self.point,
    {
        self.point
    }

    pub fn normal(&self) -> (r: Vec3)
        ensures
            r == self.normal,
    {
        self.normal
    }

    pub fn material(&self) -> (r: usize)
        ensures
            r == self.material,
    {
        self.material
    }

    pub fn t(&self) -> (r: Fx)
        ensures
            r == self.t,
    {
        self.t
    }

    pub fn u(&self) -> (r: Fx)
        ensures
            r == self.u,
    {
        self.u
    }

    pub fn v(&self) -> (r: Fx)
        ensures
            r == self.v,
    {
        self.v
    }

    pub fn front_face(&self) -> (r: bool)
        ensures
            r == self.front_face,
    {
        self.front_face
    }
}

} // verus!
