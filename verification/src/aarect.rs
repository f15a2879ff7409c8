//! Axis-aligned rectangles in the three orientations: a plane intersection
//! on the fixed axis, then a containment test on the other two.

use vstd::prelude::*;
use crate::aabb::Aabb;
use crate::fx::{fx, sat, sdiv, smul, Fx, FX_SCALE};
use crate::hit::{mk_hit, HitRecord};
use crate::ray::{ray_at, Ray};
use crate::vec3::{v3, Vec3};

verus! {

/// Padding applied to the thin axis of a rectangle's box, so the slab test
/// never sees a zero-thickness volume.
pub const RECT_PAD_FX: i64 = 7;

/// A rectangle in a plane of fixed `z = k`.
#[derive(Clone, Copy, PartialEq, Eq, Structural, Debug)]
pub struct XYRect {
    pub x0: Fx,
    pub x1: Fx,
    pub y0: Fx,
    pub y1: Fx,
    pub k: Fx,
    pub material: usize,
}

/// A rectangle in a plane of fixed `y = k`.
#[derive(Clone, Copy, PartialEq, Eq, Structural, Debug)]
pub struct XZRect {
    pub x0: Fx,
    pub x1: Fx,
    pub z0: Fx,
    pub z1: Fx,
    pub k: Fx,
    pub material: usize,
}

/// A rectangle in a plane of fixed `x = k`.
#[derive(Clone, Copy, PartialEq, Eq, Structural, Debug)]
pub struct YZRect {
    pub y0: Fx,
    pub y1: Fx,
    pub z0: Fx,
    pub z1: Fx,
    pub k: Fx,
    pub material: usize,
}

/// The plane intersection of an `XYRect`.
pub open spec fn xy_rect_hit_spec(rc: XYRect, r: Ray, tmin: int, tmax: int) -> Option<HitRecord> {
    let t = sdiv(sat(rc.k@ - r.origin.z@), r.direction.z@);
    if t < tmin || t > tmax {
        None
    } else {
        let x = sat(r.origin.x@ + smul(t, r.direction.x@));
        let y = sat(r.origin.y@ + smul(t, r.direction.y@));
        if x < rc.x0@ || x > rc.x1@ || y < rc.y0@ || y > rc.y1@ {
            None
        } else {
            let u = sdiv(sat(x - rc.x0@), sat(rc.x1@ - rc.x0@));
            let v = sdiv(sat(y - rc.y0@), sat(rc.y1@ - rc.y0@));
            Some(
                mk_hit(
                    ray_at(r, t),
                    v3(0, 0, FX_SCALE as int),
                    rc.material,
                    fx(t),
                    fx(u),
                    fx(v),
                    r,
                ),
            )
        }
    }
}

/// The plane intersection of an `XZRect`.
pub open spec fn xz_rect_hit_spec(rc: XZRect, r: Ray, tmin: int, tmax: int) -> Option<HitRecord> {
    let t = sdiv(sat(rc.k@ - r.origin.y@), r.direction.y@);
    if t < tmin || t > tmax {
        None
    } else {
        let x = sat(r.origin.x@ + smul(t, r.direction.x@));
        let z = sat(r.origin.z@ + smul(t, r.direction.z@));
        if x < rc.x0@ || x > rc.x1@ || z < rc.z0@ || z > rc.z1@ {
            None
        } else {
            let u = sdiv(sat(x - rc.x0@), sat(rc.x1@ - rc.x0@));
            let v = sdiv(sat(z - rc.z0@), sat(rc.z1@ - rc.z0@));
            Some(
                mk_hit(
                    ray_at(r, t),
                    v3(0, FX_SCALE as int, 0),
                    rc.material,
                    fx(t),
                    fx(u),
                    fx(v),
                    r,
                ),
            )
        }
    }
}

/// The plane intersection of a `YZRect`.
pub open spec fn yz_rect_hit_spec(rc: YZRect, r: Ray, tmin: int, tmax: int) -> Option<HitRecord> {
    let t = sdiv(sat(rc.k@ - r.origin.x@), r.direction.x@);
    if t < tmin || t > tmax {
        None
    } else {
        let y = sat(r.origin.y@ + smul(t, r.direction.y@));
        let z = sat(r.origin.z@ + smul(t, r.direction.z@));
        if y < rc.y0@ || y > rc.y1@ || z < rc.z0@ || z > rc.z1@ {
            None
        } else {
            let u = sdiv(sat(y - rc.y0@), sat(rc.y1@ - rc.y0@));
            let v = sdiv(sat(z - rc.z0@), sat(rc.z1@ - rc.z0@));
            Some(
                mk_hit(
                    ray_at(r, t),
                    v3(FX_SCALE as int, 0, 0),
                    rc.material,
                    fx(t),
                    fx(u),
                    fx(v),
                    r,
                ),
            )
        }
    }
}

/// Any hit a rectangle reports lies inside the requested interval.
pub proof fn lemma_rect_hits_in_window(
    xy: XYRect,
    xz: XZRect,
    yz: YZRect,
    r: Ray,
    tmin: int,
    tmax: int,
)
    ensures
        match xy_rect_hit_spec(xy, r, tmin, tmax) {
            Some(rec) => tmin <= rec.t@ <= tmax,
            None => true,
        },
        match xz_rect_hit_spec(xz, r, tmin, tmax) {
            Some(rec) => tmin <= rec.t@ <= tmax,
            None => true,
        },
        match yz_rect_hit_spec(yz, r, tmin, tmax) {
            Some(rec) => tmin <= rec.t@ <= tmax,
            None => true,
        },
{
}

/// Tightening the far end of the interval is stable for the rectangles.
pub proof fn lemma_rect_hits_restrict(
    xy: XYRect,
    xz: XZRect,
    yz: YZRect,
    r: Ray,
    tmin: int,
    tmax2: int,
    tmax: int,
)
    requires
        tmax2 <= tmax,
    ensures
        match xy_rect_hit_spec(xy, r, tmin, tmax) {
            None => xy_rect_hit_spec(xy, r, tmin, tmax2) is None,
            Some(h) => if h.t@ <= tmax2 {
                xy_rect_hit_spec(xy, r, tmin, tmax2) == Some(h)
            } else {
                xy_rect_hit_spec(xy, r, tmin, tmax2) is None
            },
        },
        match xz_rect_hit_spec(xz, r, tmin, tmax) {
            None => xz_rect_hit_spec(xz, r, tmin, tmax2) is None,
            Some(h) => if h.t@ <= tmax2 {
                xz_rect_hit_spec(xz, r, tmin, tmax2) == Some(h)
            } else {
                xz_rect_hit_spec(xz, r, tmin, tmax2) is None
            },
        },
        match yz_rect_hit_spec(yz, r, tmin, tmax) {
            None => yz_rect_hit_spec(yz, r, tmin, tmax2) is None,
            Some(h) => if h.t@ <= tmax2 {
                yz_rect_hit_spec(yz, r, tmin, tmax2) == Some(h)
            } else {
                yz_rect_hit_spec(yz, r, tmin, tmax2) is None
            },
        },
{
}

impl XYRect {
    pub fn new(x0: Fx, x1: Fx, y0: Fx, y1: Fx, k: Fx, material: usize) -> (r: XYRect)
        ensures
            r == (XYRect { x0, x1, y0, y1, k, material }),
    {
        XYRect { x0, x1, y0, y1, k, material }
    }

    pub fn hit(&self, r: &Ray, t_min: Fx, t_max: Fx) -> (res: Option<HitRecord>)
        ensures
            res == xy_rect_hit_spec(*self, *r, t_min@, t_max@),
    {
        let t = self.k.sub(r.origin.z).div(r.direction.z);
        if t.lt(t_min) || t_max.lt(t) {
            return None;
        }
        let x = r.origin.x.add(t.mul(r.direction.x));
        let y = r.origin.y.add(t.mul(r.direction.y));
        if x.lt(self.x0) || self.x1.lt(x) || y.lt(self.y0) || self.y1.lt(y) {
            return None;
        }
        let u = x.sub(self.x0).div(self.x1.sub(self.x0));
        let v = y.sub(self.y0).div(self.y1.sub(self.y0));
        let normal = Vec3 { x: Fx { raw: 0 }, y: Fx { raw: 0 }, z: Fx { raw: FX_SCALE } };
        Some(HitRecord::new(r.at(t), normal, self.material, t, u, v, r))
    }

    /// A slab of the plane, padded on the thin axis.
    pub fn bounding_box(&self, time0: Fx, time1: Fx) -> (res: Option<Aabb>)
        ensures
            res == Some(xy_rect_box(*self)),
    {
        Some(
            Aabb {
                minimum: Vec3 { x: self.x0, y: self.y0, z: self.k.sub(Fx { raw: RECT_PAD_FX }) },
                maximum: Vec3 { x: self.x1, y: self.y1, z: self.k.add(Fx { raw: RECT_PAD_FX }) },
            },
        )
    }
}

/// The padded box of an `XYRect`.
pub open spec fn xy_rect_box(rc: XYRect) -> Aabb {
    Aabb {
        minimum: Vec3 { x: rc.x0, y: rc.y0, z: fx(rc.k@ - RECT_PAD_FX as int) },
        maximum: Vec3 { x: rc.x1, y: rc.y1, z: fx(rc.k@ + RECT_PAD_FX as int) },
    }
}

impl XZRect {
    pub fn new(x0: Fx, x1: Fx, z0: Fx, z1: Fx, k: Fx, material: usize) -> (r: XZRect)
        ensures
            r == (XZRect { x0, x1, z0, z1, k, material }),
    {
        XZRect { x0, x1, z0, z1, k, material }
    }

    pub fn hit(&self, r: &Ray, t_min: Fx, t_max: Fx) -> (res: Option<HitRecord>)
        ensures
            res == xz_rect_hit_spec(*self, *r, t_min@, t_max@),
    {
        let t = self.k.sub(r.origin.y).div(r.direction.y);
        if t.lt(t_min) || t_max.lt(t) {
            return None;
        }
        let x = r.origin.x.add(t.mul(r.direction.x));
        let z = r.origin.z.add(t.mul(r.direction.z));
        if x.lt(self.x0) || self.x1.lt(x) || z.lt(self.z0) || self.z1.lt(z) {
            return None;
        }
        let u = x.sub(self.x0).div(self.x1.sub(self.x0));
        let v = z.sub(self.z0).div(self.z1.sub(self.z0));
        let normal = Vec3 { x: Fx { raw: 0 }, y: Fx { raw: FX_SCALE }, z: Fx { raw: 0 } };
        Some(HitRecord::new(r.at(t), normal, self.material, t, u, v, r))
    }

    /// A slab of the plane, padded on the thin axis.
    pub fn bounding_box(&self, time0: Fx, time1: Fx) -> (res: Option<Aabb>)
        ensures
            res == Some(xz_rect_box(*self)),
    {
        Some(
            Aabb {
                minimum: Vec3 { x: self.x0, y: self.k.sub(Fx { raw: RECT_PAD_FX }), z: self.z0 },
                maximum: Vec3 { x: self.x1, y: self.k.add(Fx { raw: RECT_PAD_FX }), z: self.z1 },
            },
        )
    }
}

/// The padded box of an `XZRect`.
pub open spec fn xz_rect_box(rc: XZRect) -> Aabb {
    Aabb {
        minimum: Vec3 { x: rc.x0, y: fx(rc.k@ - RECT_PAD_FX as int), z: rc.z0 },
        maximum: Vec3 { x: rc.x1, y: fx(rc.k@ + RECT_PAD_FX as int), z: rc.z1 },
    }
}

impl YZRect {
    pub fn new(y0: Fx, y1: Fx, z0: Fx, z1: Fx, k: Fx, material: usize) -> (r: YZRect)
        ensures
            r == (YZRect { y0, y1, z0, z1, k, material }),
    {
        YZRect { y0, y1, z0, z1, k, material }
    }

    pub fn hit(&self, r: &Ray, t_min: Fx, t_max: Fx) -> (res: Option<HitRecord>)
        ensures
            res == yz_rect_hit_spec(*self, *r, t_min@, t_max@),
    {
        let t = self.k.sub(r.origin.x).div(r.direction.x);
        if t.lt(t_min) || t_max.lt(t) {
            return None;
        }
        let y = r.origin.y.add(t.mul(r.direction.y));
        let z = r.origin.z.add(t.mul(r.direction.z));
        if y.lt(self.y0) || self.y1.lt(y) || z.lt(self.z0) || self.z1.lt(z) {
            return None;
        }
        let u = y.sub(self.y0).div(self.y1.sub(self.y0));
        let v = z.sub(self.z0).div(self.z1.sub(self.z0));
        let normal = Vec3 { x: Fx { raw: FX_SCALE }, y: Fx { raw: 0 }, z: Fx { raw: 0 } };
        Some(HitRecord::new(r.at(t), normal, self.material, t, u, v, r))
    }

    /// A slab of the plane, padded on the thin axis.
    pub fn bounding_box(&self, time0: Fx, time1: Fx) -> (res: Option<Aabb>)
        ensures
            res == Some(yz_rect_box(*self)),
    {
        Some(
            Aabb {
                minimum: Vec3 { x: self.k.sub(Fx { raw: RECT_PAD_FX }), y: self.y0, z: self.z0 },
                maximum: Vec3 { x: self.k.add(Fx { raw: RECT_PAD_FX }), y: self.y1, z: self.z1 },
            },
        )
    }
}

/// The padded box of a `YZRect`.
pub open spec fn yz_rect_box(rc: YZRect) -> Aabb {
    Aabb {
        minimum: Vec3 { x: fx(rc.k@ - RECT_PAD_FX as int), y: rc.y0, z: rc.z0 },
        maximum: Vec3 { x: fx(rc.k@ + RECT_PAD_FX as int), y: rc.y1, z: rc.z1 },
    }
}

} // verus!
