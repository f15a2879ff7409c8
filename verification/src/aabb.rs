//! Axis-aligned bounding boxes and the slab intersection test.

use vstd::prelude::*;
use crate::fx::{fx, sat, sdiv, Fx};
use crate::ray::Ray;
use crate::vec3::{v3, Vec3};

verus! {

/// An axis-aligned box given by two corner points.  Degenerate boxes of zero
/// thickness are valid; planar primitives pad them by a small epsilon.
#[derive(Clone, Copy, PartialEq, Eq, Structural, Debug)]
pub struct Aabb {
    pub minimum: Vec3,
    pub maximum: Vec3,
}

/// The smaller of two integers.
pub open spec fn imin(a: int, b: int) -> int {
    if a <= b {
        a
    } else {
        b
    }
}

/// The larger of two integers.
pub open spec fn imax(a: int, b: int) -> int {
    if a >= b {
        a
    } else {
        b
    }
}

/// The box enclosing both arguments: component-wise minima and maxima.
pub open spec fn sbox_union(a: Aabb, b: Aabb) -> Aabb {
    Aabb {
        minimum: v3(
            imin(a.minimum.x@, b.minimum.x@),
            imin(a.minimum.y@, b.minimum.y@),
            imin(a.minimum.z@, b.minimum.z@),
        ),
        maximum: v3(
            imax(a.maximum.x@, b.maximum.x@),
            imax(a.maximum.y@, b.maximum.y@),
            imax(a.maximum.z@, b.maximum.z@),
        ),
    }
}

/// `outer` encloses `inner`: every extent of `inner` lies within `outer`.
pub open spec fn box_contains_box(outer: Aabb, inner: Aabb) -> bool {
    &&& outer.minimum.x@ <= inner.minimum.x@
    &&& outer.minimum.y@ <= inner.minimum.y@
    &&& outer.minimum.z@ <= inner.minimum.z@
    &&& inner.maximum.x@ <= outer.maximum.x@
    &&& inner.maximum.y@ <= outer.maximum.y@
    &&& inner.maximum.z@ <= outer.maximum.z@
}

/// One axis of the slab test: the running parameter interval intersected
/// with the interval in which the ray is between the two planes of this
/// axis.  A zero direction component saturates the plane parameters in the
/// direction of the numerator's sign, exactly as the division does.
pub open spec fn slab_axis(lo: int, hi: int, o: int, d: int, tmin: int, tmax: int) -> (int, int) {
    let t0 = sdiv(sat(lo - o), d);
    let t1 = sdiv(sat(hi - o), d);
    let near = if d < 0 { t1 } else { t0 };
    let far = if d < 0 { t0 } else { t1 };
    (imax(tmin, near), imin(tmax, far))
}

/// The whole slab test: true when the running interval stays non-empty on
/// all three axes.
pub open spec fn slab_hit(bb: Aabb, r: Ray, tmin: int, tmax: int) -> bool {
    let (mx0, mx1) = slab_axis(
        bb.minimum.x@,
        bb.maximum.x@,
        r.origin.x@,
        r.direction.x@,
        tmin,
        tmax,
    );
    if mx1 <= mx0 {
        false
    } else {
        let (my0, my1) = slab_axis(
            bb.minimum.y@,
            bb.maximum.y@,
            r.origin.y@,
            r.direction.y@,
            mx0,
            mx1,
        );
        if my1 <= my0 {
            false
        } else {
            let (mz0, mz1) = slab_axis(
                bb.minimum.z@,
                bb.maximum.z@,
                r.origin.z@,
                r.direction.z@,
                my0,
                my1,
            );
            mz1 > mz0
        }
    }
}

/// One executable axis of the slab test.
fn slab_axis_exec(lo: Fx, hi: Fx, o: Fx, d: Fx, tmin: Fx, tmax: Fx) -> (r: (Fx, Fx))
    ensures
        (r.0@, r.1@) == slab_axis(lo@, hi@, o@, d@, tmin@, tmax@),
{
    let t0 = lo.sub(o).div(d);
    let t1 = hi.sub(o).div(d);
    let (near, far) = if d.is_neg() {
        (t1, t0)
    } else {
        (t0, t1)
    };
    (tmin.max(near), tmax.min(far))
}

impl Aabb {
    pub fn new(minimum: Vec3, maximum: Vec3) -> (r: Aabb)
        ensures
            r == (Aabb { minimum, maximum }),
    {
        Aabb { minimum, maximum }
    }

    /// The slab test: true exactly when the parameter interval in which the
    /// ray is inside the box meets the open running interval.
    pub fn hit(&self, r: &Ray, t_min: Fx, t_max: Fx) -> (res: bool)
        ensures
            res == slab_hit(*self, *r, t_min@, t_max@),
    {
        let (mx0, mx1) = slab_axis_exec(
            self.minimum.x,
            self.maximum.x,
            r.origin.x,
            r.direction.x,
            t_min,
            t_max,
        );
        if mx1.le(mx0) {
            return false;
        }
        let (my0, my1) = slab_axis_exec(
            self.minimum.y,
            self.maximum.y,
            r.origin.y,
            r.direction.y,
            mx0,
            mx1,
        );
        if my1.le(my0) {
            return false;
        }
        let (mz0, mz1) = slab_axis_exec(
            self.minimum.z,
            self.maximum.z,
            r.origin.z,
            r.direction.z,
            my0,
            my1,
        );
        mz0.lt(mz1)
    }

    /// The box enclosing both arguments.
    pub fn surrounding_box(box0: &Aabb, box1: &Aabb) -> (r: Aabb)
        ensures
            r == sbox_union(*box0, *box1),
    {
        let small = Vec3 {
            x: box0.minimum.x.min(box1.minimum.x),
            y: box0.minimum.y.min(box1.minimum.y),
            z: box0.minimum.z.min(box1.minimum.z),
        };
        let big = Vec3 {
            x: box0.maximum.x.max(box1.maximum.x),
            y: box0.maximum.y.max(box1.maximum.y),
            z: box0.maximum.z.max(box1.maximum.z),
        };
        Aabb { minimum: small, maximum: big }
    }
}

/// The surrounding box contains both of its arguments.
pub proof fn lemma_surrounding_box_contains(a: Aabb, b: Aabb)
    ensures
        box_contains_box(sbox_union(a, b), a),
        box_contains_box(sbox_union(a, b), b),
{
}

/// The surrounding box is the least box containing both arguments: any box
/// that contains both also contains it.
pub proof fn lemma_surrounding_box_minimal(a: Aabb, b: Aabb, c: Aabb)
    requires
        box_contains_box(c, a),
        box_contains_box(c, b),
    ensures
        box_contains_box(c, sbox_union(a, b)),
{
}

} // verus!
