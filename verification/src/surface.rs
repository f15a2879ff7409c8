//! The closed surface type: everything a ray can intersect, with one
//! recursive specification of the whole intersection protocol.

use vstd::prelude::*;
use crate::aabb::{sbox_union, slab_hit, Aabb};
use crate::bvh::BvhNode;
use crate::fx::{fx, sat, sdiv, smul, Fx, FX_SCALE};
use crate::medium::{ConstantMedium, MEDIUM_STEP_FX};
use crate::hit::{mk_hit, HitRecord};
use crate::hittable_list::HittableList;
use crate::ray::Ray;
use crate::rng::Rng;
use crate::aabox::AaBox;
use crate::aarect::{
    xy_rect_box, xy_rect_hit_spec, xz_rect_box, xz_rect_hit_spec, yz_rect_box, yz_rect_hit_spec,
    XYRect, XZRect, YZRect,
};
use crate::moving_sphere::{moving_sphere_box, moving_sphere_hit_spec, MovingSphere};
use crate::sphere::{sphere_box, sphere_hit_spec, Sphere};
use crate::transform::{rot_in, rot_out, rot_in_exec, rot_out_exec, RotateY, Translate};
use crate::vec3::{sadd_v, snorm, ssub_v, v3, Vec3};
use crate::rng::{rng_next, unit_draw};
use crate::trig::sln;
use crate::aabb::{imax, imin};
use crate::ray::ray_at;

verus! {

/// Anything a ray can intersect: a primitive or a composite.
pub enum Surface {
    Sphere(Sphere),
    MovingSphere(MovingSphere),
    XY(XYRect),
    XZ(XZRect),
    YZ(YZRect),
    Cuboid(AaBox),
    List(HittableList),
    Translate(Translate),
    Rotate(RotateY),
    Medium(ConstantMedium),
    Bvh(BvhNode),
}

/// The intersection protocol: the closest hit with parameter inside
/// `[tmin, tmax]`, or nothing, together with the random state left behind.
pub open spec fn surface_hit_spec(s: Surface, r: Ray, tmin: int, tmax: int, rs: u64) -> (
    Option<HitRecord>,
    u64,
)
    decreases s, 0int,
{
    match s {
        Surface::Sphere(sp) => (sphere_hit_spec(sp, r, tmin, tmax), rs),
        Surface::MovingSphere(ms) => (moving_sphere_hit_spec(ms, r, tmin, tmax), rs),
        Surface::XY(rc) => (xy_rect_hit_spec(rc, r, tmin, tmax), rs),
        Surface::XZ(rc) => (xz_rect_hit_spec(rc, r, tmin, tmax), rs),
        Surface::YZ(rc) => (yz_rect_hit_spec(rc, r, tmin, tmax), rs),
        Surface::Cuboid(ab) => list_hit_from(ab.sides.objects@, 0, r, tmin, tmax, rs, None),
        Surface::List(l) => list_hit_from(l.objects@, 0, r, tmin, tmax, rs, None),
        Surface::Translate(tr) => translate_hit_spec(tr, r, tmin, tmax, rs),
        Surface::Rotate(ry) => rotate_y_hit_spec(ry, r, tmin, tmax, rs),
        Surface::Medium(m) => medium_hit_spec(m, r, tmin, tmax, rs),
        Surface::Bvh(b) => bvh_hit_spec(b, r, tmin, tmax, rs),
    }
}

/// A rotated probe: turn the ray into object space, delegate, turn the hit
/// point and normal back to world space.
pub open spec fn rotate_y_hit_spec(ry: RotateY, r: Ray, tmin: int, tmax: int, rs: u64) -> (
    Option<HitRecord>,
    u64,
)
    decreases ry, 0int,
{
    let s = ry.sin_theta@;
    let c = ry.cos_theta@;
    let rotated = Ray {
        origin: rot_in(s, c, r.origin),
        direction: rot_in(s, c, r.direction),
        time: r.time,
    };
    let probe = surface_hit_spec(*ry.child, rotated, tmin, tmax, rs);
    match probe.0 {
        None => (None, probe.1),
        Some(rec) => (
            Some(
                mk_hit(
                    rot_out(s, c, rec.point),
                    rot_out(s, c, rec.normal),
                    rec.material,
                    rec.t,
                    rec.u,
                    rec.v,
                    rotated,
                ),
            ),
            probe.1,
        ),
    }
}

/// A medium probe: find the two boundary crossings, clamp them to the
/// caller's interval, draw a free-flight distance, and report an interaction
/// only when it falls inside the boundary.
pub open spec fn medium_hit_spec(m: ConstantMedium, r: Ray, tmin: int, tmax: int, rs: u64) -> (
    Option<HitRecord>,
    u64,
)
    decreases m, 0int,
{
    let p1 = surface_hit_spec(*m.boundary, r, i64::MIN as int, i64::MAX as int, rs);
    match p1.0 {
        None => (None, p1.1),
        Some(rec1) => {
            let p2 = surface_hit_spec(
                *m.boundary,
                r,
                sat(rec1.t@ + MEDIUM_STEP_FX as int),
                i64::MAX as int,
                p1.1,
            );
            match p2.0 {
                None => (None, p2.1),
                Some(rec2) => {
                    let t1 = imax(tmin, rec1.t@);
                    let t2 = imin(tmax, rec2.t@);
                    if t1 >= t2 {
                        (None, p2.1)
                    } else {
                        let t1b = imax(t1, 0);
                        let rl = sat(snorm(r.direction));
                        let dist = smul(sat(t2 - t1b), rl);
                        let u = unit_draw(p2.1);
                        let rs3 = rng_next(p2.1);
                        let hd = smul(m.neg_inv_density@, sln(u));
                        if hd > dist {
                            (None, rs3)
                        } else {
                            let t = sat(t1b + sdiv(hd, rl));
                            (
                                Some(
                                    mk_hit(
                                        ray_at(r, t),
                                        v3(FX_SCALE as int, 0, 0),
                                        m.phase_function,
                                        fx(t),
                                        fx(0),
                                        fx(0),
                                        r,
                                    ),
                                ),
                                rs3,
                            )
                        }
                    }
                },
            }
        },
    }
}

/// The fold of a list probe: objects from index `i` on, with the closest
/// parameter so far and the best record so far.
pub open spec fn list_hit_from(
    objs: Seq<Surface>,
    i: int,
    r: Ray,
    tmin: int,
    closest: int,
    rs: u64,
    best: Option<HitRecord>,
) -> (Option<HitRecord>, u64)
    decreases objs, objs.len() - i,
{
    if i < 0 || i >= objs.len() {
        (best, rs)
    } else {
        let probe = surface_hit_spec(objs[i], r, tmin, closest, rs);
        match probe.0 {
            Some(hh) => list_hit_from(objs, i + 1, r, tmin, hh.t@, probe.1, Some(hh)),
            None => list_hit_from(objs, i + 1, r, tmin, closest, probe.1, best),
        }
    }
}

/// A translated probe: shift the ray back, delegate, shift the hit point
/// forward, and rebuild the record against the moved ray.
pub open spec fn translate_hit_spec(tr: Translate, r: Ray, tmin: int, tmax: int, rs: u64) -> (
    Option<HitRecord>,
    u64,
)
    decreases tr, 0int,
{
    let moved = Ray { origin: ssub_v(r.origin, tr.offset), direction: r.direction, time: r.time };
    let probe = surface_hit_spec(*tr.child, moved, tmin, tmax, rs);
    match probe.0 {
        None => (None, probe.1),
        Some(rec) => (
            Some(
                mk_hit(
                    sadd_v(rec.point, tr.offset),
                    rec.normal,
                    rec.material,
                    rec.t,
                    rec.u,
                    rec.v,
                    moved,
                ),
            ),
            probe.1,
        ),
    }
}

/// A tree probe: reject on the cached box, probe the left child, then the
/// right child only within the left hit's parameter.
pub open spec fn bvh_hit_spec(n: BvhNode, r: Ray, tmin: int, tmax: int, rs: u64) -> (
    Option<HitRecord>,
    u64,
)
    decreases n, 0int,
{
    if !slab_hit(n.bbox, r, tmin, tmax) {
        (None, rs)
    } else {
        let lp = surface_hit_spec(*n.left, r, tmin, tmax, rs);
        match lp.0 {
            Some(lrec) => {
                let rp = surface_hit_spec(*n.right, r, tmin, lrec.t@, lp.1);
                match rp.0 {
                    Some(rrec) => (Some(rrec), rp.1),
                    None => (Some(lrec), rp.1),
                }
            },
            None => surface_hit_spec(*n.right, r, tmin, tmax, lp.1),
        }
    }
}

/// Translating a surface by an offset and then by its exact negation
/// intersects identically to the bare surface: the same presence, point,
/// normal, material, parameter and surface coordinates, and the same random
/// state.  The inputs left out are those where the shifted coordinates
/// would saturate, and grazing hits whose stored normal is exactly
/// perpendicular to the ray.
#[verifier::rlimit(100)]
pub proof fn lemma_translate_round_trip(
    outer: Translate,
    inner: Translate,
    r: Ray,
    tmin: int,
    tmax: int,
    rs: u64,
)
    requires
        *outer.child == Surface::Translate(inner),
        outer.offset.x@ == -inner.offset.x@,
        outer.offset.y@ == -inner.offset.y@,
        outer.offset.z@ == -inner.offset.z@,
        -0x1000_0000_0000_0000 <= r.origin.x@ <= 0x1000_0000_0000_0000,
        -0x1000_0000_0000_0000 <= r.origin.y@ <= 0x1000_0000_0000_0000,
        -0x1000_0000_0000_0000 <= r.origin.z@ <= 0x1000_0000_0000_0000,
        -0x1000_0000_0000_0000 <= inner.offset.x@ <= 0x1000_0000_0000_0000,
        -0x1000_0000_0000_0000 <= inner.offset.y@ <= 0x1000_0000_0000_0000,
        -0x1000_0000_0000_0000 <= inner.offset.z@ <= 0x1000_0000_0000_0000,
        match surface_hit_spec(*inner.child, r, tmin, tmax, rs).0 {
            Some(rec) => {
                &&& -0x1000_0000_0000_0000 <= rec.point.x@ <= 0x1000_0000_0000_0000
                &&& -0x1000_0000_0000_0000 <= rec.point.y@ <= 0x1000_0000_0000_0000
                &&& -0x1000_0000_0000_0000 <= rec.point.z@ <= 0x1000_0000_0000_0000
                &&& crate::vec3::sdot(r.direction, rec.normal) < 0
            },
            None => true,
        },
    ensures
        translate_hit_spec(outer, r, tmin, tmax, rs).1 == surface_hit_spec(
            *inner.child,
            r,
            tmin,
            tmax,
            rs,
        ).1,
        match (
            translate_hit_spec(outer, r, tmin, tmax, rs).0,
            surface_hit_spec(*inner.child, r, tmin, tmax, rs).0,
        ) {
            (Some(a), Some(b)) => a.point == b.point && a.normal == b.normal && a.material
                == b.material && a.t == b.t && a.u == b.u && a.v == b.v,
            (None, None) => true,
            _ => false,
        },
{
    let moved1 = Ray {
        origin: ssub_v(r.origin, outer.offset),
        direction: r.direction,
        time: r.time,
    };
    let moved2 = Ray {
        origin: ssub_v(moved1.origin, inner.offset),
        direction: r.direction,
        time: r.time,
    };
    assert(moved2.origin == r.origin);
    assert(moved2 == r);
    let p = surface_hit_spec(*inner.child, r, tmin, tmax, rs);
    assert(surface_hit_spec(*outer.child, moved1, tmin, tmax, rs) == translate_hit_spec(
        inner,
        moved1,
        tmin,
        tmax,
        rs,
    ));
    match p.0 {
        Some(rec) => {
            let rec1 = mk_hit(
                sadd_v(rec.point, inner.offset),
                rec.normal,
                rec.material,
                rec.t,
                rec.u,
                rec.v,
                moved2,
            );
            assert(translate_hit_spec(inner, moved1, tmin, tmax, rs) == (Some(rec1), p.1));
            assert(rec1.normal == rec.normal);
            assert(rec1.point == sadd_v(rec.point, inner.offset));
            let rec2 = mk_hit(
                sadd_v(rec1.point, outer.offset),
                rec1.normal,
                rec1.material,
                rec1.t,
                rec1.u,
                rec1.v,
                moved1,
            );
            assert(translate_hit_spec(outer, r, tmin, tmax, rs) == (Some(rec2), p.1));
            assert(rec2.point.x@ == rec.point.x@);
            assert(rec2.point.y@ == rec.point.y@);
            assert(rec2.point.z@ == rec.point.z@);
            assert(rec2.point == rec.point);
            assert(rec2.normal == rec.normal);
        },
        None => {
            assert(translate_hit_spec(inner, moved1, tmin, tmax, rs) == (
                Option::<HitRecord>::None,
                p.1,
            ));
        },
    }
}

/// The bounding volume over the time span, or nothing when the surface
/// cannot report one.
pub open spec fn surface_box_spec(s: Surface, t0: int, t1: int) -> Option<Aabb>
    decreases s, 0int,
{
    match s {
        Surface::Sphere(sp) => Some(sphere_box(sp)),
        Surface::MovingSphere(ms) => Some(moving_sphere_box(ms, t0, t1)),
        Surface::XY(rc) => Some(xy_rect_box(rc)),
        Surface::XZ(rc) => Some(xz_rect_box(rc)),
        Surface::YZ(rc) => Some(yz_rect_box(rc)),
        Surface::Cuboid(ab) => Some(Aabb { minimum: ab.box_min, maximum: ab.box_max }),
        Surface::List(l) => if l.objects@.len() == 0 {
            None
        } else {
            match surface_box_spec(l.objects@[0], t0, t1) {
                None => None,
                Some(b0) => list_box_from(l.objects@, 1, t0, t1, b0),
            }
        },
        Surface::Translate(tr) => match surface_box_spec(*tr.child, t0, t1) {
            None => None,
            Some(b) => Some(
                Aabb {
                    minimum: sadd_v(b.minimum, tr.offset),
                    maximum: sadd_v(b.maximum, tr.offset),
                },
            ),
        },
        Surface::Rotate(ry) => ry.bbox,
        Surface::Medium(m) => surface_box_spec(*m.boundary, t0, t1),
        Surface::Bvh(b) => Some(b.bbox),
    }
}

/// The fold of the boxes of a list's members from index `i` on.
pub open spec fn list_box_from(objs: Seq<Surface>, i: int, t0: int, t1: int, acc: Aabb) -> Option<
    Aabb,
>
    decreases objs, objs.len() - i,
{
    if i < 0 || i >= objs.len() {
        Some(acc)
    } else {
        match surface_box_spec(objs[i], t0, t1) {
            None => None,
            Some(b) => list_box_from(objs, i + 1, t0, t1, sbox_union(acc, b)),
        }
    }
}

/// Every material index mentioned anywhere in the surface lies below `n`,
/// the length of the scene's material table.
pub open spec fn scene_mat_wf(s: Surface, n: int) -> bool
    decreases s, 0int,
{
    match s {
        Surface::Sphere(sp) => sp.material < n,
        Surface::MovingSphere(ms) => ms.material < n,
        Surface::XY(rc) => rc.material < n,
        Surface::XZ(rc) => rc.material < n,
        Surface::YZ(rc) => rc.material < n,
        Surface::Cuboid(ab) => list_mat_wf(ab.sides.objects@, n),
        Surface::List(l) => list_mat_wf(l.objects@, n),
        Surface::Translate(tr) => scene_mat_wf(*tr.child, n),
        Surface::Rotate(ry) => scene_mat_wf(*ry.child, n),
        Surface::Medium(m) => m.phase_function < n && scene_mat_wf(*m.boundary, n),
        Surface::Bvh(b) => scene_mat_wf(*b.left, n) && scene_mat_wf(*b.right, n),
    }
}

/// Every member of the list satisfies `scene_mat_wf`.
pub open spec fn list_mat_wf(objs: Seq<Surface>, n: int) -> bool
    decreases objs, 1int,
{
    forall|i: int| 0 <= i < objs.len() ==> scene_mat_wf(#[trigger] objs[i], n)
}

/// A hit reported by a well-formed surface carries a material index below
/// the table length.
#[verifier::rlimit(100)]
pub proof fn lemma_hit_material_in_range(
    s: Surface,
    r: Ray,
    tmin: int,
    tmax: int,
    rs: u64,
    n: int,
)
    requires
        scene_mat_wf(s, n),
    ensures
        match surface_hit_spec(s, r, tmin, tmax, rs).0 {
            Some(rec) => rec.material < n,
            None => true,
        },
    decreases s, 1int,
{
    match s {
        Surface::Sphere(_) => {},
        Surface::MovingSphere(_) => {},
        Surface::XY(_) => {},
        Surface::XZ(_) => {},
        Surface::YZ(_) => {},
        Surface::Cuboid(ab) => {
            lemma_list_hit_material(ab.sides.objects@, 0, r, tmin, tmax, rs, None, n);
        },
        Surface::List(l) => {
            lemma_list_hit_material(l.objects@, 0, r, tmin, tmax, rs, None, n);
        },
        Surface::Translate(tr) => {
            let moved = Ray {
                origin: ssub_v(r.origin, tr.offset),
                direction: r.direction,
                time: r.time,
            };
            lemma_hit_material_in_range(*tr.child, moved, tmin, tmax, rs, n);
        },
        Surface::Rotate(ry) => {
            let sv = ry.sin_theta@;
            let cv = ry.cos_theta@;
            let rotated = Ray {
                origin: rot_in(sv, cv, r.origin),
                direction: rot_in(sv, cv, r.direction),
                time: r.time,
            };
            lemma_hit_material_in_range(*ry.child, rotated, tmin, tmax, rs, n);
        },
        Surface::Medium(m) => {
            let p1 = surface_hit_spec(*m.boundary, r, i64::MIN as int, i64::MAX as int, rs);
            lemma_hit_material_in_range(*m.boundary, r, i64::MIN as int, i64::MAX as int, rs, n);
            match p1.0 {
                None => {},
                Some(rec1) => {
                    lemma_hit_material_in_range(
                        *m.boundary,
                        r,
                        sat(rec1.t@ + MEDIUM_STEP_FX as int),
                        i64::MAX as int,
                        p1.1,
                        n,
                    );
                },
            }
        },
        Surface::Bvh(b) => {
            if slab_hit(b.bbox, r, tmin, tmax) {
                let lp = surface_hit_spec(*b.left, r, tmin, tmax, rs);
                lemma_hit_material_in_range(*b.left, r, tmin, tmax, rs, n);
                match lp.0 {
                    Some(lrec) => {
                        lemma_hit_material_in_range(*b.right, r, tmin, lrec.t@, lp.1, n);
                    },
                    None => {
                        lemma_hit_material_in_range(*b.right, r, tmin, tmax, lp.1, n);
                    },
                }
            }
        },
    }
}

/// The list fold preserves the material bound.
pub proof fn lemma_list_hit_material(
    objs: Seq<Surface>,
    i: int,
    r: Ray,
    tmin: int,
    closest: int,
    rs: u64,
    best: Option<HitRecord>,
    n: int,
)
    requires
        list_mat_wf(objs, n),
        match best {
            Some(b) => b.material < n,
            None => true,
        },
    ensures
        match list_hit_from(objs, i, r, tmin, closest, rs, best).0 {
            Some(rec) => rec.material < n,
            None => true,
        },
    decreases objs, objs.len() - i,
{
    if i < 0 || i >= objs.len() {
    } else {
        let probe = surface_hit_spec(objs[i], r, tmin, closest, rs);
        lemma_hit_material_in_range(objs[i], r, tmin, closest, rs, n);
        match probe.0 {
            Some(hh) => {
                lemma_list_hit_material(objs, i + 1, r, tmin, hh.t@, probe.1, Some(hh), n);
            },
            None => {
                lemma_list_hit_material(objs, i + 1, r, tmin, closest, probe.1, best, n);
            },
        }
    }
}

impl Surface {
    /// Probe the surface: the closest hit with parameter in
    /// `[t_min, t_max]`, or nothing.
    pub fn hit(&self, r: &Ray, t_min: Fx, t_max: Fx, rng: &mut Rng) -> (res: Option<HitRecord>)
        ensures
            (res, final(rng).state) == surface_hit_spec(
                *self,
                *r,
                t_min@,
                t_max@,
                old(rng).state,
            ),
        decreases *self, 0int,
    {
        match self {
            Surface::Sphere(sp) => sp.hit(r, t_min, t_max),
            Surface::MovingSphere(ms) => ms.hit(r, t_min, t_max),
            Surface::XY(rc) => rc.hit(r, t_min, t_max),
            Surface::XZ(rc) => rc.hit(r, t_min, t_max),
            Surface::YZ(rc) => rc.hit(r, t_min, t_max),
            Surface::Cuboid(ab) => ab.hit(r, t_min, t_max, rng),
            Surface::List(l) => l.hit(r, t_min, t_max, rng),
            Surface::Translate(tr) => tr.hit(r, t_min, t_max, rng),
            Surface::Rotate(ry) => ry.hit(r, t_min, t_max, rng),
            Surface::Medium(m) => m.hit(r, t_min, t_max, rng),
            Surface::Bvh(b) => b.hit(r, t_min, t_max, rng),
        }
    }

    /// The bounding volume over the time span.
    pub fn bounding_box(&self, time0: Fx, time1: Fx) -> (res: Option<Aabb>)
        ensures
            res == surface_box_spec(*self, time0@, time1@),
        decreases *self, 0int,
    {
        match self {
            Surface::Sphere(sp) => sp.bounding_box(time0, time1),
            Surface::MovingSphere(ms) => ms.bounding_box(time0, time1),
            Surface::XY(rc) => rc.bounding_box(time0, time1),
            Surface::XZ(rc) => rc.bounding_box(time0, time1),
            Surface::YZ(rc) => rc.bounding_box(time0, time1),
            Surface::Cuboid(ab) => ab.bounding_box(time0, time1),
            Surface::List(l) => l.bounding_box(time0, time1),
            Surface::Translate(tr) => {
                match tr.child.bounding_box(time0, time1) {
                    None => None,
                    Some(b) => Some(
                        Aabb { minimum: b.minimum.add(tr.offset), maximum: b.maximum.add(tr.offset) },
                    ),
                }
            },
            Surface::Rotate(ry) => ry.bbox,
            Surface::Medium(m) => m.boundary.bounding_box(time0, time1),
            Surface::Bvh(b) => Some(b.bbox),
        }
    }
}

impl Surface {
    /// Decide at run time whether every material index anywhere in the
    /// surface lies below `n`, so an unverified caller can test a scene
    /// against its material table before rendering.
    #[verifier::rlimit(100)]
    pub fn materials_in_range(&self, n: usize) -> (r: bool)
        ensures
            r == scene_mat_wf(*self, n as int),
        decreases *self, 0int,
    {
        match self {
            Surface::Sphere(sp) => {
                let r0 = sp.material < n;
                proof {
                    assert(r0 == scene_mat_wf(*self, n as int));
                }
                r0
            },
            Surface::MovingSphere(ms) => ms.material < n,
            Surface::XY(rc) => rc.material < n,
            Surface::XZ(rc) => rc.material < n,
            Surface::YZ(rc) => rc.material < n,
            Surface::Cuboid(ab) => {
                let r0 = list_materials_in_range(&ab.sides.objects, 0, n);
                proof {
                    assert(r0 == list_mat_wf(ab.sides.objects@, n as int));
                }
                r0
            },
            Surface::List(l) => {
                let r0 = list_materials_in_range(&l.objects, 0, n);
                proof {
                    assert(r0 == list_mat_wf(l.objects@, n as int));
                }
                r0
            },
            Surface::Translate(tr) => tr.child.materials_in_range(n),
            Surface::Rotate(ry) => ry.child.materials_in_range(n),
            Surface::Medium(m) => m.phase_function < n && m.boundary.materials_in_range(n),
            Surface::Bvh(b) => b.left.materials_in_range(n) && b.right.materials_in_range(n),
        }
    }
}

/// The run-time material-index check over a list's members from `i` on.
fn list_materials_in_range(objs: &Vec<Surface>, i: usize, n: usize) -> (r: bool)
    ensures
        r == (forall|k: int|
            i <= k < objs@.len() ==> scene_mat_wf(#[trigger] objs@[k], n as int)),
    decreases objs@, objs@.len() - i,
{
    if i >= objs.len() {
        true
    } else {
        let head = objs[i].materials_in_range(n);
        if !head {
            false
        } else {
            let rest = list_materials_in_range(objs, i + 1, n);
            proof {
                if rest {
                    assert forall|k: int|
                        i <= k < objs@.len() implies scene_mat_wf(
                        #[trigger] objs@[k],
                        n as int,
                    ) by {}
                }
            }
            rest
        }
    }
}

/// The probe of the members of a list from index `i` on, executable.
fn list_hit_exec(
    objs: &Vec<Surface>,
    i: usize,
    r: &Ray,
    t_min: Fx,
    closest: Fx,
    rng: &mut Rng,
    best: Option<HitRecord>,
) -> (res: Option<HitRecord>)
    ensures
        (res, final(rng).state) == list_hit_from(
            objs@,
            i as int,
            *r,
            t_min@,
            closest@,
            old(rng).state,
            best,
        ),
    decreases objs@, objs@.len() - i,
{
    if i >= objs.len() {
        best
    } else {
        let probe = objs[i].hit(r, t_min, closest, rng);
        match probe {
            Some(hh) => list_hit_exec(objs, i + 1, r, t_min, hh.t, rng, Some(hh)),
            None => list_hit_exec(objs, i + 1, r, t_min, closest, rng, best),
        }
    }
}

/// The fold of the boxes of a list's members from index `i` on, executable.
fn list_box_exec(objs: &Vec<Surface>, i: usize, time0: Fx, time1: Fx, acc: Aabb) -> (res: Option<
    Aabb,
>)
    ensures
        res == list_box_from(objs@, i as int, time0@, time1@, acc),
    decreases objs@, objs@.len() - i,
{
    if i >= objs.len() {
        Some(acc)
    } else {
        match objs[i].bounding_box(time0, time1) {
            None => None,
            Some(b) => list_box_exec(objs, i + 1, time0, time1, Aabb::surrounding_box(&acc, &b)),
        }
    }
}

impl HittableList {
    /// Probe every member in order, keeping the closest hit.
    pub fn hit(&self, r: &Ray, t_min: Fx, t_max: Fx, rng: &mut Rng) -> (res: Option<HitRecord>)
        ensures
            (res, final(rng).state) == list_hit_from(
                self.objects@,
                0,
                *r,
                t_min@,
                t_max@,
                old(rng).state,
                None,
            ),
        decreases *self, 0int,
    {
        list_hit_exec(&self.objects, 0, r, t_min, t_max, rng, None)
    }

    /// The union of the members' boxes; nothing if the list is empty or a
    /// member is unbounded.
    pub fn bounding_box(&self, time0: Fx, time1: Fx) -> (res: Option<Aabb>)
        ensures
            res == surface_box_spec(Surface::List(*self), time0@, time1@),
        decreases *self, 0int,
    {
        if self.objects.len() == 0 {
            return None;
        }
        match self.objects[0].bounding_box(time0, time1) {
            None => None,
            Some(b0) => list_box_exec(&self.objects, 1, time0, time1, b0),
        }
    }
}

impl AaBox {
    /// Probe the six faces as a sub-scene.
    pub fn hit(&self, r: &Ray, t_min: Fx, t_max: Fx, rng: &mut Rng) -> (res: Option<HitRecord>)
        ensures
            (res, final(rng).state) == list_hit_from(
                self.sides.objects@,
                0,
                *r,
                t_min@,
                t_max@,
                old(rng).state,
                None,
            ),
        decreases *self, 0int,
    {
        self.sides.hit(r, t_min, t_max, rng)
    }

    /// The box between the two corners.
    pub fn bounding_box(&self, time0: Fx, time1: Fx) -> (res: Option<Aabb>)
        ensures
            res == Some(Aabb { minimum: self.box_min, maximum: self.box_max }),
    {
        Some(Aabb { minimum: self.box_min, maximum: self.box_max })
    }
}

impl Translate {
    /// Probe the child against the shifted ray, then move the hit forward.
    pub fn hit(&self, r: &Ray, t_min: Fx, t_max: Fx, rng: &mut Rng) -> (res: Option<HitRecord>)
        ensures
            (res, final(rng).state) == translate_hit_spec(
                *self,
                *r,
                t_min@,
                t_max@,
                old(rng).state,
            ),
        decreases *self, 0int,
    {
        let moved = Ray {
            origin: r.origin.sub(self.offset),
            direction: r.direction,
            time: r.time,
        };
        match self.child.hit(&moved, t_min, t_max, rng) {
            None => None,
            Some(rec) => Some(
                HitRecord::new(
                    rec.point.add(self.offset),
                    rec.normal,
                    rec.material,
                    rec.t,
                    rec.u,
                    rec.v,
                    &moved,
                ),
            ),
        }
    }
}

impl RotateY {
    /// Probe the child in object space, then rotate the hit back.
    pub fn hit(&self, r: &Ray, t_min: Fx, t_max: Fx, rng: &mut Rng) -> (res: Option<HitRecord>)
        ensures
            (res, final(rng).state) == rotate_y_hit_spec(
                *self,
                *r,
                t_min@,
                t_max@,
                old(rng).state,
            ),
        decreases *self, 0int,
    {
        let rotated = Ray {
            origin: rot_in_exec(self.sin_theta, self.cos_theta, r.origin),
            direction: rot_in_exec(self.sin_theta, self.cos_theta, r.direction),
            time: r.time,
        };
        match self.child.hit(&rotated, t_min, t_max, rng) {
            None => None,
            Some(rec) => Some(
                HitRecord::new(
                    rot_out_exec(self.sin_theta, self.cos_theta, rec.point),
                    rot_out_exec(self.sin_theta, self.cos_theta, rec.normal),
                    rec.material,
                    rec.t,
                    rec.u,
                    rec.v,
                    &rotated,
                ),
            ),
        }
    }
}

impl ConstantMedium {
    /// Probe the boundary twice for the entry and exit crossings, then draw
    /// an exponential free-flight distance; the ray interacts only when the
    /// draw falls inside the boundary.
    #[verifier::rlimit(100)]
    pub fn hit(&self, r: &Ray, t_min: Fx, t_max: Fx, rng: &mut Rng) -> (res: Option<HitRecord>)
        ensures
            (res, final(rng).state) == medium_hit_spec(*self, *r, t_min@, t_max@, old(rng).state),
        decreases *self, 0int,
    {
        let rec1 = match self.boundary.hit(r, Fx { raw: i64::MIN }, Fx { raw: i64::MAX }, rng) {
            Some(rec) => rec,
            None => {
                return None;
            },
        };
        let rec2 = match self.boundary.hit(
            r,
            rec1.t.add(Fx { raw: MEDIUM_STEP_FX }),
            Fx { raw: i64::MAX },
            rng,
        ) {
            Some(rec) => rec,
            None => {
                return None;
            },
        };

        let t1 = t_min.max(rec1.t);
        let t2 = t_max.min(rec2.t);
        if t2.le(t1) {
            return None;
        }
        let t1b = t1.max(Fx { raw: 0 });

        let ray_length = r.direction.norm();
        let distance_inside_boundary = t2.sub(t1b).mul(ray_length);
        let udraw = rng.next_unit();
        let hit_distance = self.neg_inv_density.mul(crate::trig::ln_fx(udraw));

        if distance_inside_boundary.lt(hit_distance) {
            return None;
        }

        let t = t1b.add(hit_distance.div(ray_length));
        let point = r.at(t);
        let normal = Vec3 { x: Fx { raw: FX_SCALE }, y: Fx { raw: 0 }, z: Fx { raw: 0 } };
        Some(
            HitRecord::new(point, normal, self.phase_function, t, Fx { raw: 0 }, Fx { raw: 0 }, r),
        )
    }
}

impl BvhNode {
    /// Probe the tree: reject on the cached box, then the left child, then
    /// the right child only up to the left hit.
    pub fn hit(&self, r: &Ray, t_min: Fx, t_max: Fx, rng: &mut Rng) -> (res: Option<HitRecord>)
        ensures
            (res, final(rng).state) == bvh_hit_spec(*self, *r, t_min@, t_max@, old(rng).state),
        decreases *self, 0int,
    {
        if !self.bbox.hit(r, t_min, t_max) {
            return None;
        }
        match self.left.hit(r, t_min, t_max, rng) {
            Some(lrec) => {
                match self.right.hit(r, t_min, lrec.t, rng) {
                    Some(rrec) => Some(rrec),
                    None => Some(lrec),
                }
            },
            None => self.right.hit(r, t_min, t_max, rng),
        }
    }

    /// The cached box.
    pub fn bounding_box(&self, time0: Fx, time1: Fx) -> (res: Option<Aabb>)
        ensures
            res == Some(self.bbox),
    {
        Some(self.bbox)
    }
}

} // verus!
