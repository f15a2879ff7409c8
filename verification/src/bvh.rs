//! The bounding volume hierarchy: a node of two children with a cached box
//! enclosing both, and the recursive builder that partitions a flat
//! collection along a randomly chosen axis.

use vstd::prelude::*;
use vstd::seq_lib::group_to_multiset_ensures;
use vstd::seq_lib::lemma_multiset_commutative;
use crate::aabb::{sbox_union, Aabb};
use crate::fx::Fx;
use crate::hittable_list::HittableList;
use crate::rng::Rng;
use crate::aarect::{XYRect, XZRect, YZRect};
use crate::surface::{surface_box_spec, Surface};

verus! {

/// A node of the bounding volume hierarchy.
pub struct BvhNode {
    pub left: Box<crate::surface::Surface>,
    pub right: Box<crate::surface::Surface>,
    pub bbox: Aabb,
}

/// The leaves under a surface: tree nodes flatten to their children's
/// leaves, anything else is a leaf of its own.
pub open spec fn bvh_leaves(s: Surface) -> Seq<Surface>
    decreases s, 0int,
{
    match s {
        Surface::Bvh(b) => bvh_leaves(*b.left) + bvh_leaves(*b.right),
        _ => seq![s],
    }
}

/// Every tree node's cached box is exactly the union of its children's
/// boxes, which in turn exist, over the given time span.
pub open spec fn tree_boxed(s: Surface, t0: int, t1: int) -> bool
    decreases s, 0int,
{
    match s {
        Surface::Bvh(b) => match (surface_box_spec(*b.left, t0, t1), surface_box_spec(
            *b.right,
            t0,
            t1,
        )) {
            (Some(lb), Some(rb)) => b.bbox == sbox_union(lb, rb) && tree_boxed(*b.left, t0, t1)
                && tree_boxed(*b.right, t0, t1),
            _ => false,
        },
        _ => true,
    }
}

/// All members of the collection can report a box over the span.
pub open spec fn all_boxed(objs: Seq<Surface>, t0: int, t1: int) -> bool {
    forall|i: int| 0 <= i < objs.len() ==> surface_box_spec(#[trigger] objs[i], t0, t1) is Some
}

/// The minimum corner of a surface's box at time zero on the chosen axis;
/// the sorting key of the builder.
pub open spec fn box_min_axis(s: Surface, axis: int) -> int {
    match surface_box_spec(s, 0, 0) {
        Some(bb) => if axis == 0 {
            bb.minimum.x@
        } else if axis == 1 {
            bb.minimum.y@
        } else {
            bb.minimum.z@
        },
        None => 0,
    }
}

/// The sorting key, executable.
fn box_min_value(s: &Surface, axis: i64) -> (r: Fx)
    requires
        surface_box_spec(*s, 0, 0) is Some,
    ensures
        r@ == box_min_axis(*s, axis as int),
{
    let zero = Fx { raw: 0 };
    match s.bounding_box(zero, zero) {
        Some(bb) => {
            if axis == 0 {
                bb.minimum.x
            } else if axis == 1 {
                bb.minimum.y
            } else {
                bb.minimum.z
            }
        },
        None => vstd::pervasive::unreached(),
    }
}

/// No member of the collection is itself a tree node.
pub open spec fn none_bvh(objs: Seq<Surface>) -> bool {
    forall|i: int| 0 <= i < objs.len() ==> !((#[trigger] objs[i]) is Bvh)
}

/// A multiset-equal collection keeps the all-boxed and leaf-only
/// properties.
proof fn lemma_multiset_all_boxed(a: Seq<Surface>, b: Seq<Surface>, t0: int, t1: int)
    requires
        a.to_multiset() =~= b.to_multiset(),
        all_boxed(a, t0, t1),
        none_bvh(a),
    ensures
        all_boxed(b, t0, t1),
        none_bvh(b),
{
    broadcast use group_to_multiset_ensures;

    assert forall|i: int| 0 <= i < b.len() implies surface_box_spec(#[trigger] b[i], t0, t1)
        is Some && !(b[i] is Bvh) by {
        assert(b.to_multiset().count(b[i]) > 0) by {
            assert(b.contains(b[i]));
        }
        assert(a.to_multiset().count(b[i]) > 0);
        assert(a.contains(b[i]));
        let j = choose|j: int| 0 <= j < a.len() && a[j] == b[i];
        assert(surface_box_spec(a[j], t0, t1) is Some && !(a[j] is Bvh));
    }
}

/// The collection is ordered by the box key on the chosen axis.
pub open spec fn sorted_by_axis(objs: Seq<Surface>, axis: int) -> bool {
    forall|i: int, j: int|
        0 <= i <= j < objs.len() ==> box_min_axis(#[trigger] objs[i], axis) <= box_min_axis(
            #[trigger] objs[j],
            axis,
        )
}

/// Selection sort of the collection by the box key on one axis; the result
/// holds exactly the same surfaces, in key order.
fn sort_by_box_axis(objects: Vec<Surface>, axis: i64) -> (r: Vec<Surface>)
    requires
        all_boxed(objects@, 0, 0),
    ensures
        r@.to_multiset() =~= objects@.to_multiset(),
        r@.len() == objects@.len(),
        sorted_by_axis(r@, axis as int),
{

    broadcast use group_to_multiset_ensures;

    let mut src = objects;
    let mut out: Vec<Surface> = Vec::new();
    let ghost orig = src@;
    while src.len() > 0
        invariant
            out@.to_multiset().add(src@.to_multiset()) =~= orig.to_multiset(),
            out@.len() + src@.len() == orig.len(),
            all_boxed(src@, 0, 0),
            sorted_by_axis(out@, axis as int),
            forall|i: int, k: int|
                0 <= i < out@.len() && 0 <= k < src@.len() ==> box_min_axis(
                    #[trigger] out@[i],
                    axis as int,
                ) <= box_min_axis(#[trigger] src@[k], axis as int),
        decreases src@.len(),
    {
        let mut jmin: usize = 0;
        let mut k: usize = 1;
        while k < src.len()
            invariant
                jmin < src@.len(),
                k <= src@.len(),
                src@.len() > 0,
                all_boxed(src@, 0, 0),
                forall|t: int|
                    0 <= t < k ==> box_min_axis(src@[jmin as int], axis as int) <= box_min_axis(
                        #[trigger] src@[t],
                        axis as int,
                    ),
            decreases src@.len() - k,
        {
            let kv = box_min_value(&src[k], axis);
            let jv = box_min_value(&src[jmin], axis);
            if kv.lt(jv) {
                jmin = k;
            }
            k = k + 1;
        }
        let ghost src_before = src@;
        let m = src.remove(jmin);
        let ghost mval = m;
        let ghost out_before = out@;
        out.push(m);
        proof {
            broadcast use vstd::multiset::group_multiset_axioms;

            assert(src@ == src_before.remove(jmin as int));
            assert(out@ == out_before.push(mval));
            vstd::seq_lib::to_multiset_remove::<Surface>(src_before, jmin as int);
            vstd::seq_lib::to_multiset_build::<Surface>(out_before, mval);
            assert(mval == src_before[jmin as int]);
            assert(src_before.to_multiset().count(mval) > 0) by {
                src_before.to_multiset_ensures();
                assert(src_before.contains(mval));
            }
            assert(out@.to_multiset().add(src@.to_multiset()) =~= orig.to_multiset());
            assert forall|i: int| 0 <= i < src@.len() implies surface_box_spec(
                #[trigger] src@[i],
                0,
                0,
            ) is Some && box_min_axis(mval, axis as int) <= box_min_axis(
                src@[i],
                axis as int,
            ) by {
                assert(src@[i] == if i < jmin as int {
                    src_before[i]
                } else {
                    src_before[i + 1]
                });
            }
            assert(out@[out@.len() - 1] == mval);
            assert forall|i: int, j: int|
                0 <= i <= j < out@.len() implies box_min_axis(#[trigger] out@[i], axis as int)
                <= box_min_axis(#[trigger] out@[j], axis as int) by {
                if j < out@.len() - 1 {
                    assert(out@[i] == out_before[i] && out@[j] == out_before[j]);
                } else if i < j {
                    assert(out@[i] == out_before[i]);
                    assert(box_min_axis(out_before[i], axis as int) <= box_min_axis(
                        src_before[jmin as int],
                        axis as int,
                    ));
                }
            }
        }
    }
    out
}

/// Decide at run time whether a collection can be built into a tree: it is
/// non-empty, every member reports a box over the render span and at time
/// zero (the sorting key), and no member is already a tree node.  An
/// unverified caller tests this before calling the builder, and treats a
/// failure as the fatal scene error the design prescribes.
pub fn buildable(objects: &Vec<Surface>, time0: Fx, time1: Fx) -> (r: bool)
    ensures
        r == (objects@.len() >= 1 && all_boxed(objects@, time0@, time1@) && all_boxed(
            objects@,
            0,
            0,
        ) && none_bvh(objects@)),
{
    if objects.len() == 0 {
        return false;
    }
    let mut i: usize = 0;
    while i < objects.len()
        invariant
            i <= objects@.len(),
            forall|k: int| 0 <= k < i ==> surface_box_spec(#[trigger] objects@[k], time0@, time1@)
                is Some,
            forall|k: int| 0 <= k < i ==> surface_box_spec(#[trigger] objects@[k], 0, 0) is Some,
            forall|k: int| 0 <= k < i ==> !((#[trigger] objects@[k]) is Bvh),
        decreases objects@.len() - i,
    {
        let o = &objects[i];
        let zero = Fx { raw: 0 };
        let ok_span = o.bounding_box(time0, time1).is_some();
        let ok_key = o.bounding_box(zero, zero).is_some();
        let ok_leaf = !matches!(o, Surface::Bvh(_));
        if !(ok_span && ok_key && ok_leaf) {
            proof {
                let bad = objects@[i as int];
                if !ok_span {
                    assert(!all_boxed(objects@, time0@, time1@)) by {
                        assert(surface_box_spec(objects@[i as int], time0@, time1@) is None);
                    }
                } else if !ok_key {
                    assert(!all_boxed(objects@, 0, 0)) by {
                        assert(surface_box_spec(objects@[i as int], 0, 0) is None);
                    }
                } else {
                    assert(!none_bvh(objects@)) by {
                        assert(objects@[i as int] is Bvh);
                    }
                }
            }
            return false;
        }
        proof {
            assert(surface_box_spec(objects@[i as int], time0@, time1@) is Some);
            assert(surface_box_spec(objects@[i as int], 0, 0) is Some);
            assert(!(objects@[i as int] is Bvh));
        }
        i = i + 1;
    }
    true
}

/// Build a tree over the collection: one object stands alone; otherwise the
/// collection is sorted by the box key on a randomly chosen axis, split at
/// the midpoint, and the halves built recursively under a node whose box is
/// the union of the halves' boxes.
pub fn bvh_build(objects: Vec<Surface>, time0: Fx, time1: Fx, rng: &mut Rng) -> (r: Surface)
    requires
        objects@.len() >= 1,
        all_boxed(objects@, time0@, time1@),
        all_boxed(objects@, 0, 0),
        none_bvh(objects@),
    ensures
        bvh_leaves(r).to_multiset() =~= objects@.to_multiset(),
        tree_boxed(r, time0@, time1@),
        surface_box_spec(r, time0@, time1@) is Some,
    decreases objects@.len(),
{
    broadcast use group_to_multiset_ensures;

    let ghost input_seq = objects@;
    let mut objects = objects;
    if objects.len() == 1 {
        let s = objects.remove(0);
        proof {
            assert(input_seq =~= seq![s]);
            assert(!(s is Bvh));
            assert(bvh_leaves(s) == seq![s]);
        }
        return s;
    }

    let axis = rng.next_int(0, 2);
    let ghost before_sort = objects@;
    let sorted0 = sort_by_box_axis(objects, axis);
    let mut sorted = sorted0;
    proof {
        lemma_multiset_all_boxed(before_sort, sorted@, time0@, time1@);
        lemma_multiset_all_boxed(before_sort, sorted@, 0, 0);
    }
    let mid = sorted.len() / 2;
    let ghost whole = sorted@;
    let right_vec = sorted.split_off(mid);
    let left_vec = sorted;
    proof {
        assert(whole =~= left_vec@ + right_vec@);
        lemma_multiset_commutative(left_vec@, right_vec@);
        assert forall|i: int| 0 <= i < left_vec@.len() implies surface_box_spec(
            #[trigger] left_vec@[i],
            time0@,
            time1@,
        ) is Some by {
            assert(left_vec@[i] == whole[i]);
        }
        assert forall|i: int| 0 <= i < left_vec@.len() implies surface_box_spec(
            #[trigger] left_vec@[i],
            0,
            0,
        ) is Some by {
            assert(left_vec@[i] == whole[i]);
        }
        assert forall|i: int| 0 <= i < right_vec@.len() implies surface_box_spec(
            #[trigger] right_vec@[i],
            time0@,
            time1@,
        ) is Some by {
            assert(right_vec@[i] == whole[i + mid as int]);
        }
        assert forall|i: int| 0 <= i < right_vec@.len() implies surface_box_spec(
            #[trigger] right_vec@[i],
            0,
            0,
        ) is Some by {
            assert(right_vec@[i] == whole[i + mid as int]);
        }
    }
    let left = bvh_build(left_vec, time0, time1, rng);
    let right = bvh_build(right_vec, time0, time1, rng);

    let lb = match left.bounding_box(time0, time1) {
        Some(bb) => bb,
        None => vstd::pervasive::unreached(),
    };
    let rb = match right.bounding_box(time0, time1) {
        Some(bb) => bb,
        None => vstd::pervasive::unreached(),
    };
    let bbox = Aabb::surrounding_box(&lb, &rb);
    let node = Surface::Bvh(BvhNode { left: Box::new(left), right: Box::new(right), bbox });
    proof {
        lemma_multiset_commutative(bvh_leaves(left), bvh_leaves(right));
    }
    node
}

/// The surface contains no participating medium, so probing it neither
/// reads nor advances the random source.
pub open spec fn no_medium(s: Surface) -> bool
    decreases s, 0int,
{
    match s {
        Surface::Medium(_) => false,
        Surface::Cuboid(ab) => list_no_medium(ab.sides.objects@),
        Surface::List(l) => list_no_medium(l.objects@),
        Surface::Translate(tr) => no_medium(*tr.child),
        Surface::Rotate(ry) => no_medium(*ry.child),
        Surface::Bvh(b) => no_medium(*b.left) && no_medium(*b.right),
        _ => true,
    }
}

/// Every member of the list is free of media.
pub open spec fn list_no_medium(objs: Seq<Surface>) -> bool
    decreases objs, 1int,
{
    forall|i: int| 0 <= i < objs.len() ==> no_medium(#[trigger] objs[i])
}

/// A medium-free probe leaves the random state alone and its outcome does
/// not depend on it.
#[verifier::rlimit(100)]
pub proof fn lemma_no_medium_silent(
    s: Surface,
    r: crate::ray::Ray,
    tmin: int,
    tmax: int,
    rs1: u64,
    rs2: u64,
)
    requires
        no_medium(s),
    ensures
        crate::surface::surface_hit_spec(s, r, tmin, tmax, rs1).0
            == crate::surface::surface_hit_spec(s, r, tmin, tmax, rs2).0,
        crate::surface::surface_hit_spec(s, r, tmin, tmax, rs1).1 == rs1,
    decreases s, 1int,
{
    match s {
        Surface::Cuboid(ab) => {
            lemma_list_silent(ab.sides.objects@, 0, r, tmin, tmax, rs1, rs2, None);
        },
        Surface::List(l) => {
            lemma_list_silent(l.objects@, 0, r, tmin, tmax, rs1, rs2, None);
        },
        Surface::Translate(tr) => {
            let moved = crate::ray::Ray {
                origin: crate::vec3::ssub_v(r.origin, tr.offset),
                direction: r.direction,
                time: r.time,
            };
            lemma_no_medium_silent(*tr.child, moved, tmin, tmax, rs1, rs2);
        },
        Surface::Rotate(ry) => {
            let sv = ry.sin_theta@;
            let cv = ry.cos_theta@;
            let rotated = crate::ray::Ray {
                origin: crate::transform::rot_in(sv, cv, r.origin),
                direction: crate::transform::rot_in(sv, cv, r.direction),
                time: r.time,
            };
            lemma_no_medium_silent(*ry.child, rotated, tmin, tmax, rs1, rs2);
        },
        Surface::Bvh(b) => {
            if crate::aabb::slab_hit(b.bbox, r, tmin, tmax) {
                lemma_no_medium_silent(*b.left, r, tmin, tmax, rs1, rs2);
                lemma_no_medium_silent(*b.left, r, tmin, tmax, rs2, rs1);
                let lp1 = crate::surface::surface_hit_spec(*b.left, r, tmin, tmax, rs1);
                match lp1.0 {
                    Some(lrec) => {
                        lemma_no_medium_silent(*b.right, r, tmin, lrec.t@, rs1, rs2);
                        lemma_no_medium_silent(*b.right, r, tmin, lrec.t@, rs2, rs1);
                    },
                    None => {
                        lemma_no_medium_silent(*b.right, r, tmin, tmax, rs1, rs2);
                        lemma_no_medium_silent(*b.right, r, tmin, tmax, rs2, rs1);
                    },
                }
            }
        },
        _ => {},
    }
}

/// The list fold over medium-free members is silent too.
pub proof fn lemma_list_silent(
    objs: Seq<Surface>,
    i: int,
    r: crate::ray::Ray,
    tmin: int,
    closest: int,
    rs1: u64,
    rs2: u64,
    best: Option<crate::hit::HitRecord>,
)
    requires
        list_no_medium(objs),
    ensures
        crate::surface::list_hit_from(objs, i, r, tmin, closest, rs1, best).0
            == crate::surface::list_hit_from(objs, i, r, tmin, closest, rs2, best).0,
        crate::surface::list_hit_from(objs, i, r, tmin, closest, rs1, best).1 == rs1,
    decreases objs, objs.len() - i,
{
    if i < 0 || i >= objs.len() {
    } else {
        lemma_no_medium_silent(objs[i], r, tmin, closest, rs1, rs2);
        lemma_no_medium_silent(objs[i], r, tmin, closest, rs2, rs1);
        let probe = crate::surface::surface_hit_spec(objs[i], r, tmin, closest, rs1);
        match probe.0 {
            Some(hh) => {
                lemma_list_silent(objs, i + 1, r, tmin, hh.t@, rs1, rs2, Some(hh));
            },
            None => {
                lemma_list_silent(objs, i + 1, r, tmin, closest, rs1, rs2, best);
            },
        }
    }
}

/// The leaves of a medium-free surface are medium-free.
pub proof fn lemma_leaves_no_medium(s: Surface)
    requires
        no_medium(s),
    ensures
        list_no_medium(bvh_leaves(s)),
    decreases s,
{
    match s {
        Surface::Bvh(b) => {
            lemma_leaves_no_medium(*b.left);
            lemma_leaves_no_medium(*b.right);
            let a = bvh_leaves(*b.left);
            let c = bvh_leaves(*b.right);
            assert forall|i: int| 0 <= i < (a + c).len() implies no_medium(
                #[trigger] (a + c)[i],
            ) by {
                if i < a.len() {
                    assert((a + c)[i] == a[i]);
                } else {
                    assert((a + c)[i] == c[i - a.len()]);
                }
            }
        },
        _ => {},
    }
}

/// Skipping a leading block of the sequence is folding over the tail.
proof fn lemma_fold_shift(
    a: Seq<Surface>,
    b: Seq<Surface>,
    j: int,
    r: crate::ray::Ray,
    tmin: int,
    closest: int,
    rs: u64,
    best: Option<crate::hit::HitRecord>,
)
    requires
        0 <= j <= b.len(),
    ensures
        crate::surface::list_hit_from(a + b, a.len() + j, r, tmin, closest, rs, best)
            == crate::surface::list_hit_from(b, j, r, tmin, closest, rs, best),
    decreases b.len() - j,
{
    if j >= b.len() {
    } else {
        assert((a + b)[a.len() + j] == b[j]);
        let probe = crate::surface::surface_hit_spec(b[j], r, tmin, closest, rs);
        match probe.0 {
            Some(hh) => {
                lemma_fold_shift(a, b, j + 1, r, tmin, hh.t@, probe.1, Some(hh));
            },
            None => {
                lemma_fold_shift(a, b, j + 1, r, tmin, closest, probe.1, best);
            },
        }
    }
}

/// Folding over a concatenation is folding over the first part, then over
/// the second with the carried state, provided the carried closest matches
/// the carried best.
proof fn lemma_fold_enter(
    a: Seq<Surface>,
    b: Seq<Surface>,
    i: int,
    r: crate::ray::Ray,
    tmin: int,
    closest: int,
    rs: u64,
    best: Option<crate::hit::HitRecord>,
)
    requires
        0 <= i <= a.len(),
        match best {
            Some(h) => closest == h.t@,
            None => true,
        },
    ensures
        crate::surface::list_hit_from(a + b, i, r, tmin, closest, rs, best) == {
            let p = crate::surface::list_hit_from(a, i, r, tmin, closest, rs, best);
            let cl2 = match p.0 {
                Some(h) => h.t@,
                None => closest,
            };
            crate::surface::list_hit_from(b, 0, r, tmin, cl2, p.1, p.0)
        },
    decreases a.len() - i,
{
    if i >= a.len() {
        lemma_fold_shift(a, b, 0, r, tmin, closest, rs, best);
        assert(crate::surface::list_hit_from(a, i, r, tmin, closest, rs, best) == (best, rs));
        assert(a.len() + 0 == i);
    } else {
        assert((a + b)[i] == a[i]);
        let probe = crate::surface::surface_hit_spec(a[i], r, tmin, closest, rs);
        match probe.0 {
            Some(hh) => {
                lemma_fold_enter(a, b, i + 1, r, tmin, hh.t@, probe.1, Some(hh));
                lemma_fold_carry(a, i + 1, r, tmin, hh.t@, probe.1, hh);
                assert(crate::surface::list_hit_from(a + b, i, r, tmin, closest, rs, best)
                    == crate::surface::list_hit_from(a + b, i + 1, r, tmin, hh.t@, probe.1, Some(hh)));
                assert(crate::surface::list_hit_from(a, i, r, tmin, closest, rs, best)
                    == crate::surface::list_hit_from(a, i + 1, r, tmin, hh.t@, probe.1, Some(hh)));
            },
            None => {
                lemma_fold_enter(a, b, i + 1, r, tmin, closest, probe.1, best);
                assert(crate::surface::list_hit_from(a + b, i, r, tmin, closest, rs, best)
                    == crate::surface::list_hit_from(a + b, i + 1, r, tmin, closest, probe.1, best));
                assert(crate::surface::list_hit_from(a, i, r, tmin, closest, rs, best)
                    == crate::surface::list_hit_from(a, i + 1, r, tmin, closest, probe.1, best));
            },
        }
    }
}

/// A fold that starts with a best candidate equals the fold without it,
/// falling back to the candidate when nothing closer is found.
proof fn lemma_fold_carry(
    objs: Seq<Surface>,
    i: int,
    r: crate::ray::Ray,
    tmin: int,
    closest: int,
    rs: u64,
    h0: crate::hit::HitRecord,
)
    ensures
        crate::surface::list_hit_from(objs, i, r, tmin, closest, rs, Some(h0)) == {
            let q = crate::surface::list_hit_from(objs, i, r, tmin, closest, rs, None);
            match q.0 {
                Some(x) => (Some(x), q.1),
                None => (Some(h0), q.1),
            }
        },
    decreases objs.len() - i,
{
    if i < 0 || i >= objs.len() {
    } else {
        let probe = crate::surface::surface_hit_spec(objs[i], r, tmin, closest, rs);
        match probe.0 {
            Some(hh) => {
                lemma_fold_carry(objs, i + 1, r, tmin, hh.t@, probe.1, hh);
            },
            None => {
                lemma_fold_carry(objs, i + 1, r, tmin, closest, probe.1, h0);
            },
        }
    }
}

/// The surface is a composition of primitives, lists and transforms alone:
/// no participating medium (whose outcome reads the random source) and no
/// tree node (whose outcome goes through a cached box).
pub open spec fn plain(s: Surface) -> bool
    decreases s, 0int,
{
    match s {
        Surface::Medium(_) => false,
        Surface::Bvh(_) => false,
        Surface::Cuboid(ab) => list_plain(ab.sides.objects@),
        Surface::List(l) => list_plain(l.objects@),
        Surface::Translate(tr) => plain(*tr.child),
        Surface::Rotate(ry) => plain(*ry.child),
        _ => true,
    }
}

/// Every member of the list is plain.
pub open spec fn list_plain(objs: Seq<Surface>) -> bool
    decreases objs, 1int,
{
    forall|i: int| 0 <= i < objs.len() ==> plain(#[trigger] objs[i])
}

/// A plain surface is medium-free.
pub proof fn lemma_plain_no_medium(s: Surface)
    requires
        plain(s),
    ensures
        no_medium(s),
    decreases s, 1int,
{
    match s {
        Surface::Cuboid(ab) => {
            lemma_list_plain_no_medium(ab.sides.objects@);
        },
        Surface::List(l) => {
            lemma_list_plain_no_medium(l.objects@);
        },
        Surface::Translate(tr) => {
            lemma_plain_no_medium(*tr.child);
        },
        Surface::Rotate(ry) => {
            lemma_plain_no_medium(*ry.child);
        },
        _ => {},
    }
}

/// Every member of a plain list is medium-free.
pub proof fn lemma_list_plain_no_medium(objs: Seq<Surface>)
    requires
        list_plain(objs),
    ensures
        list_no_medium(objs),
    decreases objs, 2int,
{
    assert forall|i: int| 0 <= i < objs.len() implies no_medium(#[trigger] objs[i]) by {
        lemma_plain_no_medium(objs[i]);
    }
}

/// A hit reported by a plain surface carries a parameter inside the
/// requested interval.
#[verifier::rlimit(100)]
pub proof fn lemma_plain_hit_in_window(
    s: Surface,
    r: crate::ray::Ray,
    tmin: int,
    tmax: int,
    rs: u64,
)
    requires
        plain(s),
    ensures
        match crate::surface::surface_hit_spec(s, r, tmin, tmax, rs).0 {
            Some(h) => tmin <= h.t@ <= tmax,
            None => true,
        },
    decreases s, 1int,
{
    match s {
        Surface::Cuboid(ab) => {
            lemma_list_hit_in_window(ab.sides.objects@, 0, r, tmin, tmax, rs, None);
        },
        Surface::List(l) => {
            lemma_list_hit_in_window(l.objects@, 0, r, tmin, tmax, rs, None);
        },
        Surface::Translate(tr) => {
            let moved = crate::ray::Ray {
                origin: crate::vec3::ssub_v(r.origin, tr.offset),
                direction: r.direction,
                time: r.time,
            };
            lemma_plain_hit_in_window(*tr.child, moved, tmin, tmax, rs);
        },
        Surface::Rotate(ry) => {
            let sv = ry.sin_theta@;
            let cv = ry.cos_theta@;
            let rotated = crate::ray::Ray {
                origin: crate::transform::rot_in(sv, cv, r.origin),
                direction: crate::transform::rot_in(sv, cv, r.direction),
                time: r.time,
            };
            lemma_plain_hit_in_window(*ry.child, rotated, tmin, tmax, rs);
        },
        Surface::Sphere(sp) => {
            crate::sphere::lemma_sphere_hit_shape(sp, r, tmin, tmax);
        },
        Surface::MovingSphere(ms) => {
            crate::moving_sphere::lemma_moving_sphere_hit_in_window(ms, r, tmin, tmax);
        },
        Surface::XY(rc) => {
            crate::aarect::lemma_rect_hits_in_window(
                rc,
                XZRect { x0: rc.x0, x1: rc.x1, z0: rc.y0, z1: rc.y1, k: rc.k, material: 0 },
                YZRect { y0: rc.x0, y1: rc.x1, z0: rc.y0, z1: rc.y1, k: rc.k, material: 0 },
                r,
                tmin,
                tmax,
            );
        },
        Surface::XZ(rc) => {
            crate::aarect::lemma_rect_hits_in_window(
                XYRect { x0: rc.x0, x1: rc.x1, y0: rc.z0, y1: rc.z1, k: rc.k, material: 0 },
                rc,
                YZRect { y0: rc.x0, y1: rc.x1, z0: rc.z0, z1: rc.z1, k: rc.k, material: 0 },
                r,
                tmin,
                tmax,
            );
        },
        Surface::YZ(rc) => {
            crate::aarect::lemma_rect_hits_in_window(
                XYRect { x0: rc.y0, x1: rc.y1, y0: rc.z0, y1: rc.z1, k: rc.k, material: 0 },
                XZRect { x0: rc.y0, x1: rc.y1, z0: rc.z0, z1: rc.z1, k: rc.k, material: 0 },
                rc,
                r,
                tmin,
                tmax,
            );
        },
        _ => {},
    }
}

/// The list fold keeps any hit inside the interval it was given.
pub proof fn lemma_list_hit_in_window(
    objs: Seq<Surface>,
    i: int,
    r: crate::ray::Ray,
    tmin: int,
    closest: int,
    rs: u64,
    best: Option<crate::hit::HitRecord>,
)
    requires
        list_plain(objs),
        match best {
            Some(b) => tmin <= b.t@ <= closest,
            None => true,
        },
    ensures
        match crate::surface::list_hit_from(objs, i, r, tmin, closest, rs, best).0 {
            Some(h) => tmin <= h.t@ <= closest,
            None => true,
        },
    decreases objs, objs.len() - i,
{
    if i < 0 || i >= objs.len() {
    } else {
        lemma_plain_hit_in_window(objs[i], r, tmin, closest, rs);
        let probe = crate::surface::surface_hit_spec(objs[i], r, tmin, closest, rs);
        match probe.0 {
            Some(hh) => {
                lemma_list_hit_in_window(objs, i + 1, r, tmin, hh.t@, probe.1, Some(hh));
                match crate::surface::list_hit_from(objs, i + 1, r, tmin, hh.t@, probe.1, Some(hh)).0 {
                    Some(h2) => {
                        assert(h2.t@ <= hh.t@ <= closest);
                    },
                    None => {},
                }
            },
            None => {
                lemma_list_hit_in_window(objs, i + 1, r, tmin, closest, probe.1, best);
            },
        }
    }
}

/// Tightening the far end of the interval is stable for every plain
/// surface: the probe returns the same record when its parameter still
/// fits the tighter interval, and nothing when it does not.
#[verifier::rlimit(100)]
pub proof fn lemma_plain_hit_restrict(
    s: Surface,
    r: crate::ray::Ray,
    tmin: int,
    tmax2: int,
    tmax: int,
    rs: u64,
)
    requires
        plain(s),
        tmax2 <= tmax,
    ensures
        match crate::surface::surface_hit_spec(s, r, tmin, tmax, rs).0 {
            None => crate::surface::surface_hit_spec(s, r, tmin, tmax2, rs).0 is None,
            Some(h) => if h.t@ <= tmax2 {
                crate::surface::surface_hit_spec(s, r, tmin, tmax2, rs).0 == Some(h)
            } else {
                crate::surface::surface_hit_spec(s, r, tmin, tmax2, rs).0 is None
            },
        },
    decreases s, 1int,
{
    match s {
        Surface::Sphere(sp) => {
            crate::sphere::lemma_sphere_hit_restrict(sp, r, tmin, tmax2, tmax);
        },
        Surface::MovingSphere(ms) => {
            crate::moving_sphere::lemma_moving_sphere_hit_restrict(ms, r, tmin, tmax2, tmax);
        },
        Surface::XY(rc) => {
            crate::aarect::lemma_rect_hits_restrict(
                rc,
                XZRect { x0: rc.x0, x1: rc.x1, z0: rc.y0, z1: rc.y1, k: rc.k, material: 0 },
                YZRect { y0: rc.x0, y1: rc.x1, z0: rc.y0, z1: rc.y1, k: rc.k, material: 0 },
                r,
                tmin,
                tmax2,
                tmax,
            );
        },
        Surface::XZ(rc) => {
            crate::aarect::lemma_rect_hits_restrict(
                XYRect { x0: rc.x0, x1: rc.x1, y0: rc.z0, y1: rc.z1, k: rc.k, material: 0 },
                rc,
                YZRect { y0: rc.x0, y1: rc.x1, z0: rc.z0, z1: rc.z1, k: rc.k, material: 0 },
                r,
                tmin,
                tmax2,
                tmax,
            );
        },
        Surface::YZ(rc) => {
            crate::aarect::lemma_rect_hits_restrict(
                XYRect { x0: rc.y0, x1: rc.y1, y0: rc.z0, y1: rc.z1, k: rc.k, material: 0 },
                XZRect { x0: rc.y0, x1: rc.y1, z0: rc.z0, z1: rc.z1, k: rc.k, material: 0 },
                rc,
                r,
                tmin,
                tmax2,
                tmax,
            );
        },
        Surface::Cuboid(ab) => {
            lemma_list_hit_restrict(ab.sides.objects@, 0, r, tmin, tmax2, tmax, rs, None, None);
        },
        Surface::List(l) => {
            lemma_list_hit_restrict(l.objects@, 0, r, tmin, tmax2, tmax, rs, None, None);
        },
        Surface::Translate(tr) => {
            let moved = crate::ray::Ray {
                origin: crate::vec3::ssub_v(r.origin, tr.offset),
                direction: r.direction,
                time: r.time,
            };
            lemma_plain_hit_restrict(*tr.child, moved, tmin, tmax2, tmax, rs);
        },
        Surface::Rotate(ry) => {
            let sv = ry.sin_theta@;
            let cv = ry.cos_theta@;
            let rotated = crate::ray::Ray {
                origin: crate::transform::rot_in(sv, cv, r.origin),
                direction: crate::transform::rot_in(sv, cv, r.direction),
                time: r.time,
            };
            lemma_plain_hit_restrict(*ry.child, rotated, tmin, tmax2, tmax, rs);
        },
        _ => {},
    }
}

/// The two-interval fold comparison behind `lemma_plain_hit_restrict`: the
/// looser run and the tighter run stay related step by step.
#[verifier::rlimit(100)]
pub proof fn lemma_list_hit_restrict(
    objs: Seq<Surface>,
    i: int,
    r: crate::ray::Ray,
    tmin: int,
    c2: int,
    c: int,
    rs: u64,
    best: Option<crate::hit::HitRecord>,
    best2: Option<crate::hit::HitRecord>,
)
    requires
        list_plain(objs),
        c2 <= c,
        match (best, best2) {
            (Some(b), Some(b2)) => b2 == b && c == b.t@ && c2 == b.t@,
            (Some(b), None) => c == b.t@ && b.t@ > c2,
            (None, None) => true,
            (None, Some(_)) => false,
        },
    ensures
        match crate::surface::list_hit_from(objs, i, r, tmin, c, rs, best).0 {
            None => crate::surface::list_hit_from(objs, i, r, tmin, c2, rs, best2).0 is None,
            Some(h) => if h.t@ <= c2 {
                crate::surface::list_hit_from(objs, i, r, tmin, c2, rs, best2).0 == Some(h)
            } else {
                crate::surface::list_hit_from(objs, i, r, tmin, c2, rs, best2).0 is None
            },
        },
    decreases objs, objs.len() - i,
{
    if i < 0 || i >= objs.len() {
    } else {
        lemma_plain_hit_restrict(objs[i], r, tmin, c2, c, rs);
        lemma_plain_hit_in_window(objs[i], r, tmin, c, rs);
        lemma_plain_no_medium(objs[i]);
        lemma_no_medium_silent(objs[i], r, tmin, c, rs, rs);
        lemma_no_medium_silent(objs[i], r, tmin, c2, rs, rs);
        let probe = crate::surface::surface_hit_spec(objs[i], r, tmin, c, rs);
        match probe.0 {
            Some(hh) => {
                if hh.t@ <= c2 {
                    lemma_list_hit_restrict(
                        objs,
                        i + 1,
                        r,
                        tmin,
                        hh.t@,
                        hh.t@,
                        rs,
                        Some(hh),
                        Some(hh),
                    );
                } else {
                    lemma_list_hit_restrict(objs, i + 1, r, tmin, c2, hh.t@, rs, Some(hh), best2);
                }
            },
            None => {
                lemma_list_hit_restrict(objs, i + 1, r, tmin, c2, c, rs, best, best2);
            },
        }
    }
}

/// Every member from index `i` on misses the interval.
#[verifier::opaque]
pub open spec fn misses_all(
    objs: Seq<Surface>,
    i: int,
    r: crate::ray::Ray,
    tmin: int,
    c: int,
    rs: u64,
) -> bool {
    forall|k: int|
        i <= k < objs.len() ==> crate::surface::surface_hit_spec(
            #[trigger] objs[k],
            r,
            tmin,
            c,
            rs,
        ).0 is None
}

/// No member from index `i` on reports a hit closer than `t`.
#[verifier::opaque]
pub open spec fn none_closer(
    objs: Seq<Surface>,
    i: int,
    r: crate::ray::Ray,
    tmin: int,
    c: int,
    rs: u64,
    t: int,
) -> bool {
    forall|k: int|
        i <= k < objs.len() ==> match crate::surface::surface_hit_spec(
            #[trigger] objs[k],
            r,
            tmin,
            c,
            rs,
        ).0 {
            Some(g) => g.t@ >= t,
            None => true,
        }
}

/// Some member from index `i` on reports exactly the record `h`.
#[verifier::opaque]
pub open spec fn some_member_reports(
    objs: Seq<Surface>,
    i: int,
    r: crate::ray::Ray,
    tmin: int,
    c: int,
    rs: u64,
    h: crate::hit::HitRecord,
) -> bool {
    exists|k: int|
        i <= k < objs.len() && crate::surface::surface_hit_spec(
            #[trigger] objs[k],
            r,
            tmin,
            c,
            rs,
        ).0 == Some(h)
}

/// Lifting a tighter-interval witness and bound to the full interval, one
/// step of the characterization below.
#[verifier::rlimit(100)]
proof fn lemma_characterize_lift(
    objs: Seq<Surface>,
    i: int,
    r: crate::ray::Ray,
    tmin: int,
    c: int,
    rs: u64,
    hh: crate::hit::HitRecord,
    h: crate::hit::HitRecord,
)
    requires
        list_plain(objs),
        0 <= i < objs.len(),
        crate::surface::surface_hit_spec(objs[i], r, tmin, c, rs).0 == Some(hh),
        tmin <= hh.t@ <= c,
        h.t@ <= hh.t@,
        hh == h || some_member_reports(objs, i + 1, r, tmin, hh.t@, rs, h),
        none_closer(objs, i + 1, r, tmin, hh.t@, rs, h.t@),
    ensures
        some_member_reports(objs, i, r, tmin, c, rs, h),
        none_closer(objs, i, r, tmin, c, rs, h.t@),
{
    reveal(none_closer);
    reveal(some_member_reports);
    if h != hh {
        let k = choose|k: int|
            i + 1 <= k < objs.len() && crate::surface::surface_hit_spec(
                #[trigger] objs[k],
                r,
                tmin,
                hh.t@,
                rs,
            ).0 == Some(h);
        lemma_plain_hit_restrict(objs[k], r, tmin, hh.t@, c, rs);
        assert(crate::surface::surface_hit_spec(objs[k], r, tmin, c, rs).0 == Some(h));
    }
    assert forall|k: int| i <= k < objs.len() implies match crate::surface::surface_hit_spec(
        #[trigger] objs[k],
        r,
        tmin,
        c,
        rs,
    ).0 {
        Some(g) => g.t@ >= h.t@,
        None => true,
    } by {
        if k > i {
            lemma_plain_hit_restrict(objs[k], r, tmin, hh.t@, c, rs);
        }
    }
}

/// What the list fold computes, element by element: it returns nothing
/// exactly when every remaining member misses the full interval, and
/// otherwise a record whose parameter is the least among all remaining
/// members\' full-interval hits (and the carried candidate).
#[verifier::rlimit(100)]
pub proof fn lemma_list_hit_characterize(
    objs: Seq<Surface>,
    i: int,
    r: crate::ray::Ray,
    tmin: int,
    c: int,
    rs: u64,
    best: Option<crate::hit::HitRecord>,
)
    requires
        0 <= i,
        list_plain(objs),
        match best {
            Some(b) => c == b.t@ && tmin <= b.t@,
            None => true,
        },
    ensures
        match crate::surface::list_hit_from(objs, i, r, tmin, c, rs, best).0 {
            None => best is None && misses_all(objs, i, r, tmin, c, rs),
            Some(h) => {
                &&& tmin <= h.t@ <= c
                &&& (best == Some(h) || some_member_reports(objs, i, r, tmin, c, rs, h))
                &&& none_closer(objs, i, r, tmin, c, rs, h.t@)
                &&& match best {
                    Some(b) => h.t@ <= b.t@,
                    None => true,
                }
            },
        },
    decreases objs.len() - i,
{
    if i >= objs.len() {
        assert(misses_all(objs, i, r, tmin, c, rs)) by {
            reveal(misses_all);
        }
        match best {
            Some(b) => {
                assert(none_closer(objs, i, r, tmin, c, rs, b.t@)) by {
                    reveal(none_closer);
                }
            },
            None => {},
        }
    } else {
        lemma_plain_hit_in_window(objs[i], r, tmin, c, rs);
        lemma_plain_no_medium(objs[i]);
        lemma_no_medium_silent(objs[i], r, tmin, c, rs, rs);
        let probe = crate::surface::surface_hit_spec(objs[i], r, tmin, c, rs);
        let q = crate::surface::list_hit_from(objs, i, r, tmin, c, rs, best);
        match probe.0 {
            Some(hh) => {
                assert(q == crate::surface::list_hit_from(
                    objs,
                    i + 1,
                    r,
                    tmin,
                    hh.t@,
                    rs,
                    Some(hh),
                ));
                lemma_list_hit_characterize(objs, i + 1, r, tmin, hh.t@, rs, Some(hh));
                match q.0 {
                    None => {
                        // A fold carrying a candidate always returns one.
                        lemma_fold_carry(objs, i + 1, r, tmin, hh.t@, rs, hh);
                        assert(false);
                    },
                    Some(h) => {
                        assert(h.t@ <= hh.t@);
                        if h != hh {
                            assert(some_member_reports(objs, i + 1, r, tmin, hh.t@, rs, h));
                        }
                        lemma_characterize_lift(objs, i, r, tmin, c, rs, hh, h);
                    },
                }
            },
            None => {
                assert(q == crate::surface::list_hit_from(objs, i + 1, r, tmin, c, rs, best));
                lemma_list_hit_characterize(objs, i + 1, r, tmin, c, rs, best);
                match q.0 {
                    None => {
                        assert(misses_all(objs, i, r, tmin, c, rs)) by {
                            reveal(misses_all);
                            assert(misses_all(objs, i + 1, r, tmin, c, rs));
                        }
                    },
                    Some(h) => {
                        if best != Some(h) {
                            assert(some_member_reports(objs, i, r, tmin, c, rs, h)) by {
                                reveal(some_member_reports);
                                assert(some_member_reports(objs, i + 1, r, tmin, c, rs, h));
                            }
                        }
                        assert(none_closer(objs, i, r, tmin, c, rs, h.t@)) by {
                            reveal(none_closer);
                            assert(none_closer(objs, i + 1, r, tmin, c, rs, h.t@));
                        }
                    },
                }
            },
        }
    }
}

/// A multiset-equal collection keeps the plain property.
proof fn lemma_multiset_plain(a: Seq<Surface>, b: Seq<Surface>)
    requires
        a.to_multiset() =~= b.to_multiset(),
        list_plain(a),
    ensures
        list_plain(b),
{
    broadcast use group_to_multiset_ensures;

    assert forall|i: int| 0 <= i < b.len() implies plain(#[trigger] b[i]) by {
        assert(b.to_multiset().count(b[i]) > 0) by {
            assert(b.contains(b[i]));
        }
        assert(a.to_multiset().count(b[i]) > 0);
        assert(a.contains(b[i]));
        let j = choose|j: int| 0 <= j < a.len() && a[j] == b[i];
        assert(plain(a[j]));
    }
}

/// Linear scans of two collections holding exactly the same plain surfaces
/// — in any order, from any random states — agree on the closest hit: both
/// miss, or both return a record with the same parameter.
#[verifier::rlimit(100)]
pub proof fn lemma_linear_scan_permutation(
    a: Seq<Surface>,
    b: Seq<Surface>,
    r: crate::ray::Ray,
    tmin: int,
    tmax: int,
    rs1: u64,
    rs2: u64,
)
    requires
        list_plain(a),
        a.to_multiset() =~= b.to_multiset(),
    ensures
        match (
            crate::surface::list_hit_from(a, 0, r, tmin, tmax, rs1, None).0,
            crate::surface::list_hit_from(b, 0, r, tmin, tmax, rs2, None).0,
        ) {
            (Some(x), Some(y)) => x.t@ == y.t@,
            (None, None) => true,
            _ => false,
        },
{
    broadcast use group_to_multiset_ensures;

    lemma_multiset_plain(a, b);
    lemma_list_hit_characterize(a, 0, r, tmin, tmax, rs1, None);
    lemma_list_hit_characterize(b, 0, r, tmin, tmax, rs2, None);
    let qa = crate::surface::list_hit_from(a, 0, r, tmin, tmax, rs1, None).0;
    let qb = crate::surface::list_hit_from(b, 0, r, tmin, tmax, rs2, None).0;
    // A member of one collection is a member of the other, and a plain
    // surface's probe outcome does not read the random state; so each
    // witness hit transfers across, and each minimality bound applies to it.
    match (qa, qb) {
        (Some(x), Some(y)) => {
            reveal(some_member_reports);
            reveal(none_closer);
            let ka = choose|k: int|
                0 <= k < a.len() && crate::surface::surface_hit_spec(
                    #[trigger] a[k],
                    r,
                    tmin,
                    tmax,
                    rs1,
                ).0 == Some(x);
            lemma_plain_no_medium(a[ka]);
            lemma_no_medium_silent(a[ka], r, tmin, tmax, rs1, rs2);
            assert(b.contains(a[ka])) by {
                assert(a.contains(a[ka]));
                assert(a.to_multiset().count(a[ka]) > 0);
            }
            let jb = choose|j: int| 0 <= j < b.len() && b[j] == a[ka];
            assert(crate::surface::surface_hit_spec(b[jb], r, tmin, tmax, rs2).0 == Some(x));
            assert(x.t@ >= y.t@);
            let kb = choose|k: int|
                0 <= k < b.len() && crate::surface::surface_hit_spec(
                    #[trigger] b[k],
                    r,
                    tmin,
                    tmax,
                    rs2,
                ).0 == Some(y);
            lemma_plain_no_medium(b[kb]);
            lemma_no_medium_silent(b[kb], r, tmin, tmax, rs2, rs1);
            assert(a.contains(b[kb])) by {
                assert(b.contains(b[kb]));
                assert(b.to_multiset().count(b[kb]) > 0);
            }
            let ja = choose|k: int| 0 <= k < a.len() && a[k] == b[kb];
            assert(crate::surface::surface_hit_spec(a[ja], r, tmin, tmax, rs1).0 == Some(y));
            assert(y.t@ >= x.t@);
        },
        (Some(x), None) => {
            reveal(some_member_reports);
            reveal(misses_all);
            let ka = choose|k: int|
                0 <= k < a.len() && crate::surface::surface_hit_spec(
                    #[trigger] a[k],
                    r,
                    tmin,
                    tmax,
                    rs1,
                ).0 == Some(x);
            lemma_plain_no_medium(a[ka]);
            lemma_no_medium_silent(a[ka], r, tmin, tmax, rs1, rs2);
            assert(b.contains(a[ka])) by {
                assert(a.contains(a[ka]));
                assert(a.to_multiset().count(a[ka]) > 0);
            }
            let jb = choose|j: int| 0 <= j < b.len() && b[j] == a[ka];
            assert(crate::surface::surface_hit_spec(b[jb], r, tmin, tmax, rs2).0 == Some(x));
            assert(false);
        },
        (None, Some(y)) => {
            reveal(some_member_reports);
            reveal(misses_all);
            let kb = choose|k: int|
                0 <= k < b.len() && crate::surface::surface_hit_spec(
                    #[trigger] b[k],
                    r,
                    tmin,
                    tmax,
                    rs2,
                ).0 == Some(y);
            lemma_plain_no_medium(b[kb]);
            lemma_no_medium_silent(b[kb], r, tmin, tmax, rs2, rs1);
            assert(a.contains(b[kb])) by {
                assert(b.contains(b[kb]));
                assert(b.to_multiset().count(b[kb]) > 0);
            }
            let ja = choose|k: int| 0 <= k < a.len() && a[k] == b[kb];
            assert(crate::surface::surface_hit_spec(a[ja], r, tmin, tmax, rs1).0 == Some(y));
            assert(false);
        },
        (None, None) => {},
    }
}

/// The tree's cached boxes are conservative for this ray: whenever a node's
/// slab test fails, a linear scan of the leaves under it over the same
/// interval finds nothing.
///
/// This predicate is the one geometric fact the traversal theorems assume
/// rather than prove.  The builder guarantees the structural half — every
/// cached box is exactly the union of its children's boxes (`tree_boxed`) —
/// but the slab test divides with floor rounding, so a crossing thinner
/// than one raw unit at the box face can genuinely be culled, and no lemma
/// here discharges the predicate for built trees.  Callers of the
/// equivalence theorems below carry it as an explicit hypothesis.
pub open spec fn conservative(s: Surface, r: crate::ray::Ray) -> bool
    decreases s, 1int,
{
    match s {
        Surface::Bvh(b) => (forall|tmn: int, tmx: int, rs0: u64|
            !crate::aabb::slab_hit(b.bbox, r, tmn, tmx) ==> (#[trigger] crate::surface::list_hit_from(
                bvh_leaves(s),
                0,
                r,
                tmn,
                tmx,
                rs0,
                None,
            )).0 is None) && conservative(*b.left, r) && conservative(*b.right, r),
        _ => true,
    }
}

/// Tree traversal returns exactly what a brute-force linear scan of the
/// tree's leaves returns — the same closest hit, record for record — for
/// every medium-free scene whose cached boxes are conservative for the ray.
/// The `conservative` hypothesis is assumed, not discharged: see its own
/// documentation for why fixed-point slab rounding leaves it out of reach.
pub proof fn lemma_bvh_hit_matches_linear_scan(
    s: Surface,
    r: crate::ray::Ray,
    tmin: int,
    tmax: int,
    rs: u64,
)
    requires
        no_medium(s),
        conservative(s, r),
    ensures
        crate::surface::surface_hit_spec(s, r, tmin, tmax, rs) == crate::surface::list_hit_from(
            bvh_leaves(s),
            0,
            r,
            tmin,
            tmax,
            rs,
            None,
        ),
    decreases s,
{
    match s {
        Surface::Bvh(b) => {
            let leaves_l = bvh_leaves(*b.left);
            let leaves_r = bvh_leaves(*b.right);
            assert(bvh_leaves(s) == leaves_l + leaves_r);
            if !crate::aabb::slab_hit(b.bbox, r, tmin, tmax) {
                lemma_leaves_no_medium(s);
                lemma_list_silent(bvh_leaves(s), 0, r, tmin, tmax, rs, rs, None);
            } else {
                lemma_bvh_hit_matches_linear_scan(*b.left, r, tmin, tmax, rs);
                let p = crate::surface::surface_hit_spec(*b.left, r, tmin, tmax, rs);
                lemma_fold_enter(leaves_l, leaves_r, 0, r, tmin, tmax, rs, None);
                match p.0 {
                    Some(lrec) => {
                        lemma_bvh_hit_matches_linear_scan(*b.right, r, tmin, lrec.t@, p.1);
                        lemma_fold_carry(leaves_r, 0, r, tmin, lrec.t@, p.1, lrec);
                    },
                    None => {
                        lemma_bvh_hit_matches_linear_scan(*b.right, r, tmin, tmax, p.1);
                    },
                }
            }
        },
        _ => {
            let lv = bvh_leaves(s);
            assert(lv == seq![s]);
            let probe = crate::surface::surface_hit_spec(s, r, tmin, tmax, rs);
            match probe.0 {
                Some(hh) => {
                    assert(crate::surface::list_hit_from(lv, 1, r, tmin, hh.t@, probe.1, Some(hh))
                        == (Some(hh), probe.1));
                },
                None => {
                    assert(crate::surface::list_hit_from(lv, 1, r, tmin, tmax, probe.1, None) == (
                        Option::<crate::hit::HitRecord>::None,
                        probe.1,
                    ));
                },
            }
        },
    }
}

/// All leaves plain means the whole tree is medium-free.
pub proof fn lemma_leaves_plain_no_medium(s: Surface)
    requires
        list_plain(bvh_leaves(s)),
    ensures
        no_medium(s),
    decreases s,
{
    match s {
        Surface::Bvh(b) => {
            let a = bvh_leaves(*b.left);
            let c = bvh_leaves(*b.right);
            assert(bvh_leaves(s) == a + c);
            assert forall|i: int| 0 <= i < a.len() implies plain(#[trigger] a[i]) by {
                assert(a[i] == (a + c)[i]);
            }
            assert forall|i: int| 0 <= i < c.len() implies plain(#[trigger] c[i]) by {
                assert(c[i] == (a + c)[i + a.len()]);
            }
            lemma_leaves_plain_no_medium(*b.left);
            lemma_leaves_plain_no_medium(*b.right);
        },
        _ => {
            assert(bvh_leaves(s)[0] == s);
            assert(plain(s));
            lemma_plain_no_medium(s);
        },
    }
}

/// Tree traversal and a brute-force linear scan of the same surfaces — in
/// any order — return the same closest hit: both miss, or both return a
/// record at the same parameter.  This holds for every tree whose leaves
/// are plain surfaces and whose cached boxes are conservative for the ray,
/// in particular for the trees the builder produces over the collections it
/// was given.  Everything here is proved except the `conservative`
/// hypothesis itself, which stands as the theorems' one assumed numeric
/// fact about the rounded slab test.
pub proof fn lemma_bvh_matches_list_any_order(
    t: Surface,
    objs: Seq<Surface>,
    r: crate::ray::Ray,
    tmin: int,
    tmax: int,
    rs1: u64,
    rs2: u64,
)
    requires
        list_plain(bvh_leaves(t)),
        conservative(t, r),
        bvh_leaves(t).to_multiset() =~= objs.to_multiset(),
    ensures
        match (
            crate::surface::surface_hit_spec(t, r, tmin, tmax, rs1).0,
            crate::surface::list_hit_from(objs, 0, r, tmin, tmax, rs2, None).0,
        ) {
            (Some(x), Some(y)) => x.t@ == y.t@,
            (None, None) => true,
            _ => false,
        },
{
    lemma_leaves_plain_no_medium(t);
    lemma_bvh_hit_matches_linear_scan(t, r, tmin, tmax, rs1);
    lemma_linear_scan_permutation(bvh_leaves(t), objs, r, tmin, tmax, rs1, rs2);
}

impl BvhNode {
    /// Build a tree over a whole list.
    pub fn new(list: HittableList, time0: Fx, time1: Fx, rng: &mut Rng) -> (r: Surface)
        requires
            list.objects@.len() >= 1,
            all_boxed(list.objects@, time0@, time1@),
            all_boxed(list.objects@, 0, 0),
            none_bvh(list.objects@),
        ensures
            bvh_leaves(r).to_multiset() =~= list.objects@.to_multiset(),
            tree_boxed(r, time0@, time1@),
    {
        bvh_build(list.objects, time0, time1, rng)
    }
}

} // verus!
