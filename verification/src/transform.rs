//! Composite transforms that wrap a child surface: translation and rotation
//! about the y axis.

use vstd::prelude::*;
use crate::aabb::Aabb;
use crate::fx::{fx, sat, smul, Fx, FX_SCALE};
use crate::vec3::{v3, Vec3};

verus! {

/// A child surface shifted by a fixed offset.
pub struct Translate {
    pub child: Box<crate::surface::Surface>,
    pub offset: Vec3,
}

impl Translate {
    pub fn new(child: Box<crate::surface::Surface>, offset: Vec3) -> (r: Translate)
        ensures
            r == (Translate { child, offset }),
    {
        Translate { child, offset }
    }
}

/// A point rotated from object space back to world space about the y axis.
pub open spec fn rot_out(s: int, c: int, v: Vec3) -> Vec3 {
    v3(sat(smul(c, v.x@) + smul(s, v.z@)), v.y@, sat(smul(c, v.z@) - smul(s, v.x@)))
}

/// A point rotated from world space into object space about the y axis.
pub open spec fn rot_in(s: int, c: int, v: Vec3) -> Vec3 {
    v3(sat(smul(c, v.x@) - smul(s, v.z@)), v.y@, sat(smul(s, v.x@) + smul(c, v.z@)))
}

/// Rotate a vector from object space to world space, executable.
pub fn rot_out_exec(s: Fx, c: Fx, v: Vec3) -> (r: Vec3)
    ensures
        r == rot_out(s@, c@, v),
{
    Vec3 {
        x: c.mul(v.x).add(s.mul(v.z)),
        y: v.y,
        z: c.mul(v.z).sub(s.mul(v.x)),
    }
}

/// Rotate a vector from world space to object space, executable.
pub fn rot_in_exec(s: Fx, c: Fx, v: Vec3) -> (r: Vec3)
    ensures
        r == rot_in(s@, c@, v),
{
    Vec3 {
        x: c.mul(v.x).sub(s.mul(v.z)),
        y: v.y,
        z: s.mul(v.x).add(c.mul(v.z)),
    }
}

/// A child surface rotated about the y axis; the world-space box is computed
/// once at construction from the child's box.
pub struct RotateY {
    pub child: Box<crate::surface::Surface>,
    pub sin_theta: Fx,
    pub cos_theta: Fx,
    pub bbox: Option<Aabb>,
}

/// The least of four integers.
pub open spec fn imin4(a: int, b: int, c: int, d: int) -> int {
    crate::aabb::imin(crate::aabb::imin(crate::aabb::imin(a, b), c), d)
}

/// The greatest of four integers.
pub open spec fn imax4(a: int, b: int, c: int, d: int) -> int {
    crate::aabb::imax(crate::aabb::imax(crate::aabb::imax(a, b), c), d)
}

/// The axis-aligned extents of the child's box after rotation: all four
/// corner pairs in x and z are transformed and the new extremes taken, a
/// conservative axis-aligned hull of the rotated box.
pub open spec fn rotate_y_box(s: int, c: int, bb: Aabb) -> Aabb {
    let x0 = bb.minimum.x@;
    let x1 = bb.maximum.x@;
    let z0 = bb.minimum.z@;
    let z1 = bb.maximum.z@;
    let nx00 = sat(smul(c, x0) + smul(s, z0));
    let nx01 = sat(smul(c, x0) + smul(s, z1));
    let nx10 = sat(smul(c, x1) + smul(s, z0));
    let nx11 = sat(smul(c, x1) + smul(s, z1));
    let nz00 = sat(smul(c, z0) - smul(s, x0));
    let nz01 = sat(smul(c, z1) - smul(s, x0));
    let nz10 = sat(smul(c, z0) - smul(s, x1));
    let nz11 = sat(smul(c, z1) - smul(s, x1));
    Aabb {
        minimum: v3(imin4(nx00, nx01, nx10, nx11), bb.minimum.y@, imin4(nz00, nz01, nz10, nz11)),
        maximum: v3(imax4(nx00, nx01, nx10, nx11), bb.maximum.y@, imax4(nz00, nz01, nz10, nz11)),
    }
}

/// The rotated axis-aligned hull, executable.
#[verifier::rlimit(100)]
fn rotate_y_box_exec(sin_theta: Fx, cos_theta: Fx, bb: Aabb) -> (r: Aabb)
    ensures
        r == rotate_y_box(sin_theta@, cos_theta@, bb),
{
    let x0 = bb.minimum.x;
    let x1 = bb.maximum.x;
    let z0 = bb.minimum.z;
    let z1 = bb.maximum.z;
    let nx00 = cos_theta.mul(x0).add(sin_theta.mul(z0));
    let nx01 = cos_theta.mul(x0).add(sin_theta.mul(z1));
    let nx10 = cos_theta.mul(x1).add(sin_theta.mul(z0));
    let nx11 = cos_theta.mul(x1).add(sin_theta.mul(z1));
    let nz00 = cos_theta.mul(z0).sub(sin_theta.mul(x0));
    let nz01 = cos_theta.mul(z1).sub(sin_theta.mul(x0));
    let nz10 = cos_theta.mul(z0).sub(sin_theta.mul(x1));
    let nz11 = cos_theta.mul(z1).sub(sin_theta.mul(x1));
    Aabb {
        minimum: Vec3 {
            x: nx00.min(nx01).min(nx10).min(nx11),
            y: bb.minimum.y,
            z: nz00.min(nz01).min(nz10).min(nz11),
        },
        maximum: Vec3 {
            x: nx00.max(nx01).max(nx10).max(nx11),
            y: bb.maximum.y,
            z: nz00.max(nz01).max(nz10).max(nz11),
        },
    }
}

impl RotateY {
    /// Wrap a child, rotated by `angle` degrees about the y axis; the
    /// world-space box is derived once from the child's box over the unit
    /// time span.
    pub fn new(child: Box<crate::surface::Surface>, angle: Fx) -> (r: RotateY)
        ensures
            r.child == child,
            r.sin_theta == fx(crate::trig::ssin(smul(angle@, crate::trig::DEG_TO_RAD_FX as int))),
            r.cos_theta == fx(crate::trig::scos(smul(angle@, crate::trig::DEG_TO_RAD_FX as int))),
            r.bbox == match crate::surface::surface_box_spec(*child, 0, FX_SCALE as int) {
                None => None::<Aabb>,
                Some(bb) => Some(rotate_y_box(r.sin_theta@, r.cos_theta@, bb)),
            },
    {
        let radians = angle.mul(Fx { raw: crate::trig::DEG_TO_RAD_FX });
        let sin_theta = crate::trig::sin_fx(radians);
        let cos_theta = crate::trig::cos_fx(radians);

        let bbox = match child.bounding_box(Fx { raw: 0 }, Fx { raw: FX_SCALE }) {
            None => None,
            Some(bb) => Some(rotate_y_box_exec(sin_theta, cos_theta, bb)),
        };

        RotateY { child, sin_theta, cos_theta, bbox }
    }
}

} // verus!
