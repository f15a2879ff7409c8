//! An axis-aligned box, composed of its six rectangle faces as a fixed
//! sub-scene.

use vstd::prelude::*;
use crate::aarect::{XYRect, XZRect, YZRect};
use crate::hittable_list::HittableList;
use crate::surface::Surface;
use crate::vec3::Vec3;

verus! {

/// An axis-aligned box between two corner points.
pub struct AaBox {
    pub box_min: Vec3,
    pub box_max: Vec3,
    pub sides: HittableList,
}

/// The six faces of the box between `p0` and `p1`, in construction order.
pub open spec fn cuboid_sides(p0: Vec3, p1: Vec3, material: usize) -> Seq<Surface> {
    seq![
        Surface::XY(XYRect { x0: p0.x, x1: p1.x, y0: p0.y, y1: p1.y, k: p1.z, material }),
        Surface::XY(XYRect { x0: p0.x, x1: p1.x, y0: p0.y, y1: p1.y, k: p0.z, material }),
        Surface::XZ(XZRect { x0: p0.x, x1: p1.x, z0: p0.z, z1: p1.z, k: p1.y, material }),
        Surface::XZ(XZRect { x0: p0.x, x1: p1.x, z0: p0.z, z1: p1.z, k: p0.y, material }),
        Surface::YZ(YZRect { y0: p0.y, y1: p1.y, z0: p0.z, z1: p1.z, k: p1.x, material }),
        Surface::YZ(YZRect { y0: p0.y, y1: p1.y, z0: p0.z, z1: p1.z, k: p0.x, material }),
    ]
}

impl AaBox {
    /// The box between the corners `p0` and `p1`, all six faces sharing one
    /// material.
    pub fn new(p0: Vec3, p1: Vec3, material: usize) -> (r: AaBox)
        ensures
            r.box_min == p0,
            r.box_max == p1,
            r.sides.objects@ =~= cuboid_sides(p0, p1, material),
    {
        let mut sides = HittableList::empty();
        sides.add(Surface::XY(XYRect::new(p0.x, p1.x, p0.y, p1.y, p1.z, material)));
        sides.add(Surface::XY(XYRect::new(p0.x, p1.x, p0.y, p1.y, p0.z, material)));
        sides.add(Surface::XZ(XZRect::new(p0.x, p1.x, p0.z, p1.z, p1.y, material)));
        sides.add(Surface::XZ(XZRect::new(p0.x, p1.x, p0.z, p1.z, p0.y, material)));
        sides.add(Surface::YZ(YZRect::new(p0.y, p1.y, p0.z, p1.z, p1.x, material)));
        sides.add(Surface::YZ(YZRect::new(p0.y, p1.y, p0.z, p1.z, p0.x, material)));
        AaBox { box_min: p0, box_max: p1, sides }
    }
}

} // verus!
