//! The thin-lens camera: maps an image-plane sample to a world-space ray
//! with a defocus offset and a shutter time.

use vstd::prelude::*;
use crate::fx::{fx, sat, sdiv, smul, Fx, FX_SCALE};
use crate::ray::Ray;
use crate::rng::{disk_draw, range_draw, rng_next, Rng};
use crate::trig::{stan, DEG_TO_RAD_FX};
use crate::vec3::{
    sadd_v, scross, sdiv_v, sdot, snorm, sscale_v, ssub_v, sunit_v, v3, Vec3,
};

verus! {

/// A camera: the precomputed origin, image-plane frame and lens data.
pub struct Camera {
    pub origin: Vec3,
    pub upper_left_corner: Vec3,
    pub horizontal: Vec3,
    pub vertical: Vec3,
    pub u: Vec3,
    pub v: Vec3,
    pub lens_radius: Fx,
    pub time0: Fx,
    pub time1: Fx,
}

/// The camera derived from look-from/look-at/up, vertical field of view in
/// degrees, aspect ratio, aperture, focus distance and shutter interval.
pub open spec fn camera_make(
    lookfrom: Vec3,
    lookat: Vec3,
    vup: Vec3,
    vfov: int,
    aspect_ratio: int,
    aperture: int,
    focus_dist: int,
    time0: Fx,
    time1: Fx,
) -> Camera {
    let s = FX_SCALE as int;
    let theta = smul(vfov, DEG_TO_RAD_FX as int);
    let h = stan(sdiv(theta, 2 * s));
    let viewport_height = sat(2 * h);
    let viewport_width = smul(aspect_ratio, viewport_height);

    let w = sunit_v(ssub_v(lookfrom, lookat));
    let u = sunit_v(scross(vup, w));
    let v = scross(w, u);

    let horizontal = sscale_v(u, smul(focus_dist, viewport_width));
    let vertical = sscale_v(v, smul(focus_dist, viewport_height));
    let upper_left_corner = ssub_v(
        sadd_v(ssub_v(lookfrom, sdiv_v(horizontal, 2 * s)), sdiv_v(vertical, 2 * s)),
        sscale_v(w, focus_dist),
    );

    Camera {
        origin: lookfrom,
        upper_left_corner,
        horizontal,
        vertical,
        u,
        v,
        lens_radius: fx(sdiv(aperture, 2 * s)),
        time0,
        time1,
    }
}

/// The ray cast for the image-plane sample `(s, t)` out of random state
/// `rs`: a lens-disk offset, the aimed direction, and a shutter time.
pub open spec fn get_ray_spec(cam: Camera, s: int, t: int, rs: u64) -> (Ray, u64) {
    let dd = disk_draw(rs, 32);
    let rd = sscale_v(dd.0, cam.lens_radius@);
    let offset = sadd_v(sscale_v(cam.u, rd.x@), sscale_v(cam.v, rd.y@));
    let tm = range_draw(dd.1, cam.time0@, cam.time1@);
    (
        Ray {
            origin: sadd_v(cam.origin, offset),
            direction: ssub_v(
                ssub_v(
                    ssub_v(
                        sadd_v(cam.upper_left_corner, sscale_v(cam.horizontal, s)),
                        sscale_v(cam.vertical, t),
                    ),
                    cam.origin,
                ),
                offset,
            ),
            time: fx(tm),
        },
        rng_next(dd.1),
    )
}

impl Camera {
    /// Build the camera.  A degenerate basis — coincident look points, or an
    /// up vector collinear with the view direction — is a scene error and is
    /// excluded here.
    #[verifier::rlimit(100)]
    pub fn new(
        lookfrom: Vec3,
        lookat: Vec3,
        vup: Vec3,
        vfov: Fx,
        aspect_ratio: Fx,
        aperture: Fx,
        focus_dist: Fx,
        time0: Fx,
        time1: Fx,
    ) -> (r: Camera)
        requires
            sdot(ssub_v(lookfrom, lookat), ssub_v(lookfrom, lookat)) > 0,
            sdot(
                scross(vup, sunit_v(ssub_v(lookfrom, lookat))),
                scross(vup, sunit_v(ssub_v(lookfrom, lookat))),
            ) > 0,
        ensures
            r == camera_make(
                lookfrom,
                lookat,
                vup,
                vfov@,
                aspect_ratio@,
                aperture@,
                focus_dist@,
                time0,
                time1,
            ),
    {
        let two = Fx { raw: 2 * FX_SCALE };
        let theta = vfov.mul(Fx { raw: DEG_TO_RAD_FX });
        let h = crate::trig::tan_fx(theta.div(two));
        let viewport_height = h.scale_int(2);
        let viewport_width = aspect_ratio.mul(viewport_height);

        let w = lookfrom.sub(lookat).unit();
        let u = vup.cross(w).unit();
        let v = w.cross(u);

        let horizontal = u.scale(focus_dist.mul(viewport_width));
        let vertical = v.scale(focus_dist.mul(viewport_height));
        let upper_left_corner = lookfrom
            .sub(horizontal.div_scalar(two))
            .add(vertical.div_scalar(two))
            .sub(w.scale(focus_dist));

        Camera {
            origin: lookfrom,
            upper_left_corner,
            horizontal,
            vertical,
            u,
            v,
            lens_radius: aperture.div(two),
            time0,
            time1,
        }
    }

    /// The ray through the image-plane sample `(s, t)`, with a lens-disk
    /// offset and a shutter time drawn from the random source.
    pub fn get_ray(&self, s: Fx, t: Fx, rng: &mut Rng) -> (r: Ray)
        ensures
            (r, final(rng).state) == get_ray_spec(*self, s@, t@, old(rng).state),
    {
        let rd = rng.next_in_unit_disk().scale(self.lens_radius);
        let offset = self.u.scale(rd.x).add(self.v.scale(rd.y));
        let time = rng.next_range(self.time0, self.time1);

        Ray {
            origin: self.origin.add(offset),
            direction: self
                .upper_left_corner
                .add(self.horizontal.scale(s))
                .sub(self.vertical.scale(t))
                .sub(self.origin)
                .sub(offset),
            time,
        }
    }
}

} // verus!
