//! Rays: an origin, an un-normalized direction and a shutter time.

use vstd::prelude::*;
use crate::fx::Fx;
use crate::vec3::{sadd_v, sscale_v, Vec3};

verus! {

/// A ray; `time` lies in the camera's shutter interval and is read only by
/// time-varying geometry.
#[derive(Clone, Copy, PartialEq, Eq, Structural, Debug)]
pub struct Ray {
    pub origin: Vec3,
    pub direction: Vec3,
    pub time: Fx,
}

/// The point reached after travelling `t` along the ray.
pub open spec fn ray_at(r: Ray, t: int) -> Vec3 {
    sadd_v(r.origin, sscale_v(r.direction, t))
}

impl Ray {
    pub fn new(origin: Vec3, direction: Vec3, time: Fx) -> (r: Ray)
        ensures
            r == (Ray { origin, direction, time }),
    {
        Ray { origin, direction, time }
    }

    /// The point at parameter `t`.
    pub fn at(&self, t: Fx) -> (p: Vec3)
        ensures
            p == ray_at(*self, t@),
    {
        self.origin.add(self.direction.scale(t))
    }
}

} // verus!
