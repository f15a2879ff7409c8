//! The Perlin gradient-noise field: fixed permutation tables and unit
//! gradient vectors, generated once from the explicit random source and
//! immutable thereafter.

use vstd::prelude::*;
use vstd::seq_lib::group_to_multiset_ensures;
use crate::fx::{dfl, fx, sat, smul, Fx, FX_SCALE};
use crate::rng::Rng;
use crate::vec3::{sdot, sscale_v, sunit_v, v3, Vec3};

verus! {

/// Entries in each permutation table and gradient table.
pub const POINT_COUNT: usize = 256;

/// The immutable noise field.  Permutation entries are bytes, so every value
/// indexes the tables safely by construction.
pub struct Perlin {
    pub ranvec: Vec<Vec3>,
    pub perm_x: Vec<u8>,
    pub perm_y: Vec<u8>,
    pub perm_z: Vec<u8>,
}

/// Well-formedness: all four tables hold exactly `POINT_COUNT` entries.
pub open spec fn perlin_wf(pl: Perlin) -> bool {
    &&& pl.ranvec@.len() == POINT_COUNT
    &&& pl.perm_x@.len() == POINT_COUNT
    &&& pl.perm_y@.len() == POINT_COUNT
    &&& pl.perm_z@.len() == POINT_COUNT
}

/// The bytes zero through 255 in order: what each permutation table is a
/// shuffle of.
pub open spec fn byte_identity() -> Seq<u8> {
    Seq::new(POINT_COUNT as nat, |i: int| i as u8)
}

/// A gradient entry: the norm scaling of some nonzero ball point, with all
/// components within twice the unit scale.
pub open spec fn gradient_ok(g: Vec3) -> bool {
    &&& exists|v: Vec3| sdot(v, v) > 0 && g == sunit_v(v)
    &&& -2 * (FX_SCALE as int) <= g.x@ <= 2 * (FX_SCALE as int)
    &&& -2 * (FX_SCALE as int) <= g.y@ <= 2 * (FX_SCALE as int)
    &&& -2 * (FX_SCALE as int) <= g.z@ <= 2 * (FX_SCALE as int)
}

/// Every gradient in the table satisfies `gradient_ok`.
pub open spec fn perlin_gradients_ok(pl: Perlin) -> bool {
    forall|i: int| 0 <= i < pl.ranvec@.len() ==> gradient_ok(#[trigger] pl.ranvec@[i])
}

/// Each permutation table holds exactly the bytes zero through 255, once
/// each: a true permutation.
pub open spec fn perlin_perms_ok(pl: Perlin) -> bool {
    &&& pl.perm_x@.to_multiset() == byte_identity().to_multiset()
    &&& pl.perm_y@.to_multiset() == byte_identity().to_multiset()
    &&& pl.perm_z@.to_multiset() == byte_identity().to_multiset()
}

/// The low eight bits of a lattice coordinate, as a table index.
pub open spec fn mask255(x: int) -> int {
    ((x as i64) & 255) as int
}

/// The low eight bits, executable.
fn mask255_exec(x: i64) -> (r: usize)
    ensures
        r as int == mask255(x as int),
        r < 256,
{
    proof {
        assert(0 <= (x & 255) < 256) by (bit_vector);
    }
    (x & 255) as usize
}

/// The gradient vector assigned to one corner of the lattice cell at
/// `(i, j, k)` offset by `(di, dj, dk)`.
pub open spec fn corner_vec(pl: Perlin, i: int, j: int, k: int, di: int, dj: int, dk: int) -> Vec3
    recommends
        perlin_wf(pl),
{
    let ix = pl.perm_x@[mask255(i + di)];
    let iy = pl.perm_y@[mask255(j + dj)];
    let iz = pl.perm_z@[mask255(k + dk)];
    pl.ranvec@[(ix ^ iy ^ iz) as int]
}

/// The smoothstep weight `t * t * (3 - 2 t)` in fixed point.
pub open spec fn smoothstep(t: int) -> int {
    smul(smul(t, t), sat(3 * FX_SCALE as int - sat(2 * t)))
}

/// One trilinear term: the three axis factors times the gradient's dot
/// product with the offset from the corner.
pub open spec fn interp_term(fi: int, fj: int, fk: int, g: Vec3, wv: Vec3) -> int {
    smul(smul(smul(fi, fj), fk), sdot(g, wv))
}

/// The full trilinear interpolation of the eight corner gradients.
pub open spec fn perlin_interp_spec(pl: Perlin, i: int, j: int, k: int, u: int, v: int, w: int)
    -> int
    recommends
        perlin_wf(pl),
{
    let uu = smoothstep(u);
    let vv = smoothstep(v);
    let ww = smoothstep(w);
    let s = FX_SCALE as int;
    let t000 = interp_term(sat(s - uu), sat(s - vv), sat(s - ww),
        corner_vec(pl, i, j, k, 0, 0, 0), v3(u, v, w));
    let t001 = interp_term(sat(s - uu), sat(s - vv), ww,
        corner_vec(pl, i, j, k, 0, 0, 1), v3(u, v, sat(w - s)));
    let t010 = interp_term(sat(s - uu), vv, sat(s - ww),
        corner_vec(pl, i, j, k, 0, 1, 0), v3(u, sat(v - s), w));
    let t011 = interp_term(sat(s - uu), vv, ww,
        corner_vec(pl, i, j, k, 0, 1, 1), v3(u, sat(v - s), sat(w - s)));
    let t100 = interp_term(uu, sat(s - vv), sat(s - ww),
        corner_vec(pl, i, j, k, 1, 0, 0), v3(sat(u - s), v, w));
    let t101 = interp_term(uu, sat(s - vv), ww,
        corner_vec(pl, i, j, k, 1, 0, 1), v3(sat(u - s), v, sat(w - s)));
    let t110 = interp_term(uu, vv, sat(s - ww),
        corner_vec(pl, i, j, k, 1, 1, 0), v3(sat(u - s), sat(v - s), w));
    let t111 = interp_term(uu, vv, ww,
        corner_vec(pl, i, j, k, 1, 1, 1), v3(sat(u - s), sat(v - s), sat(w - s)));
    sat(sat(sat(sat(sat(sat(sat(t000 + t001) + t010) + t011) + t100) + t101) + t110) + t111)
}

/// The noise value at a point: fractional offsets, lattice coordinates, and
/// the interpolation above.
pub open spec fn noise_spec(pl: Perlin, p: Vec3) -> int
    recommends
        perlin_wf(pl),
{
    let s = FX_SCALE as int;
    let u = p.x@ - dfl(p.x@, s) * s;
    let v = p.y@ - dfl(p.y@, s) * s;
    let w = p.z@ - dfl(p.z@, s) * s;
    perlin_interp_spec(pl, dfl(p.x@, s), dfl(p.y@, s), dfl(p.z@, s), u, v, w)
}

/// The turbulence fold: octaves left to go, the running point, weight and
/// accumulator.
pub open spec fn turb_from(pl: Perlin, p: Vec3, weight: int, depth: nat, acc: int) -> int
    recommends
        perlin_wf(pl),
    decreases depth,
{
    if depth == 0 {
        acc
    } else {
        let acc2 = sat(acc + smul(weight, noise_spec(pl, p)));
        turb_from(
            pl,
            sscale_v(p, 2 * FX_SCALE as int),
            smul(weight, 32768),
            (depth - 1) as nat,
            acc2,
        )
    }
}

/// Seven octaves of noise with halving weight and doubling frequency, then
/// the absolute value.
pub open spec fn turb_spec(pl: Perlin, p: Vec3) -> int
    recommends
        perlin_wf(pl),
{
    let a = turb_from(pl, p, FX_SCALE as int, 7, 0);
    if a >= 0 {
        a
    } else {
        sat(-a)
    }
}

/// A fixed-point product of two factors in `[0, 1]` stays in `[0, 1]`.
proof fn lemma_smul_in_unit(x: int, y: int)
    requires
        0 <= x <= FX_SCALE as int,
        0 <= y <= FX_SCALE as int,
    ensures
        0 <= smul(x, y) <= FX_SCALE as int,
{
    let s = FX_SCALE as int;
    assert(0 <= x * y <= s * s) by (nonlinear_arith)
        requires
            0 <= x <= s,
            0 <= y <= s,
    ;
    vstd::arithmetic::div_mod::lemma_div_pos_is_pos(x * y, s);
    vstd::arithmetic::div_mod::lemma_div_is_ordered(x * y, s * s, s);
    crate::fx::lemma_smul_units(s);
}

/// The smoothstep weight of a fraction stays in `[0, 1]`: the cubic
/// `t^2 (3 - 2t)` is at most one on the unit interval, because
/// `1 - t^2 (3 - 2t) == (1 - t)^2 (1 + 2t)`.
proof fn lemma_smoothstep_range(t: int)
    requires
        0 <= t < FX_SCALE as int,
    ensures
        0 <= smoothstep(t) <= FX_SCALE as int,
{
    let s = FX_SCALE as int;
    lemma_smul_in_unit(t, t);
    let a = smul(t, t);
    let m = sat(3 * s - sat(2 * t));
    assert(m == 3 * s - 2 * t);
    assert(s < m <= 3 * s);
    vstd::arithmetic::div_mod::lemma_fundamental_div_mod(t * t, s);
    assert(s * a <= t * t) by (nonlinear_arith)
        requires
            t * t == s * dfl(t * t, s) + (t * t) % s,
            (t * t) % s >= 0,
            a == dfl(t * t, s),
    ;
    assert((s - t) * (s - t) * (s + 2 * t) == s * s * s - 3 * s * (t * t) + 2 * (t * t * t))
        by (nonlinear_arith);
    assert((s - t) * (s - t) * (s + 2 * t) >= 0) by (nonlinear_arith)
        requires
            0 <= t < s,
    ;
    assert(a * m <= s * s) by (nonlinear_arith)
        requires
            s * a <= t * t,
            m == 3 * s - 2 * t,
            s * s * s - 3 * s * (t * t) + 2 * (t * t * t) >= 0,
            0 <= t < s,
            0 <= a,
            s == 65536,
    ;
    assert(a * m >= 0) by (nonlinear_arith)
        requires
            a >= 0,
            m > 0,
    ;
    vstd::arithmetic::div_mod::lemma_div_pos_is_pos(a * m, s);
    vstd::arithmetic::div_mod::lemma_div_is_ordered(a * m, s * s, s);
    crate::fx::lemma_smul_units(s);
}

/// The dot product of a table gradient with a corner offset from the unit
/// cell is bounded by a few units.
proof fn lemma_corner_dot_bound(g: Vec3, w: Vec3)
    requires
        gradient_ok(g),
        -(FX_SCALE as int) <= w.x@ <= FX_SCALE as int,
        -(FX_SCALE as int) <= w.y@ <= FX_SCALE as int,
        -(FX_SCALE as int) <= w.z@ <= FX_SCALE as int,
    ensures
        -(6 * FX_SCALE as int + 3) <= sdot(g, w) <= 6 * FX_SCALE as int + 3,
{
    lemma_small_product_bound(g.x@, w.x@);
    lemma_small_product_bound(g.y@, w.y@);
    lemma_small_product_bound(g.z@, w.z@);
}

/// One gradient-offset component product is bounded by two units and a
/// step.
proof fn lemma_small_product_bound(a: int, b: int)
    requires
        -2 * (FX_SCALE as int) <= a <= 2 * (FX_SCALE as int),
        -(FX_SCALE as int) <= b <= FX_SCALE as int,
    ensures
        -(2 * FX_SCALE as int + 1) <= smul(a, b) <= 2 * FX_SCALE as int + 1,
{
    let s = FX_SCALE as int;
    assert(-2 * (s * s) <= a * b <= 2 * (s * s)) by (nonlinear_arith)
        requires
            -2 * s <= a <= 2 * s,
            -s <= b <= s,
    ;
    let q = dfl(a * b, s);
    vstd::arithmetic::div_mod::lemma_fundamental_div_mod(a * b, s);
    assert(-(2 * s + 1) <= q <= 2 * s + 1) by (nonlinear_arith)
        requires
            a * b == s * q + (a * b) % s,
            0 <= (a * b) % s < s,
            -2 * (s * s) <= a * b <= 2 * (s * s),
            s == 65536,
    ;
}

/// One trilinear term is bounded by its dot product plus a rounding step.
proof fn lemma_term_bound(f1: int, f2: int, f3: int, g: Vec3, w: Vec3)
    requires
        0 <= f1 <= FX_SCALE as int,
        0 <= f2 <= FX_SCALE as int,
        0 <= f3 <= FX_SCALE as int,
        gradient_ok(g),
        -(FX_SCALE as int) <= w.x@ <= FX_SCALE as int,
        -(FX_SCALE as int) <= w.y@ <= FX_SCALE as int,
        -(FX_SCALE as int) <= w.z@ <= FX_SCALE as int,
    ensures
        -(6 * FX_SCALE as int + 4) <= interp_term(f1, f2, f3, g, w) <= 6 * FX_SCALE as int + 4,
{
    let s = FX_SCALE as int;
    lemma_smul_in_unit(f1, f2);
    lemma_smul_in_unit(smul(f1, f2), f3);
    lemma_corner_dot_bound(g, w);
    let f = smul(smul(f1, f2), f3);
    let d = sdot(g, w);
    assert(-(s * (6 * s + 3)) <= f * d <= s * (6 * s + 3)) by (nonlinear_arith)
        requires
            0 <= f <= s,
            -(6 * s + 3) <= d <= 6 * s + 3,
    ;
    let q = dfl(f * d, s);
    vstd::arithmetic::div_mod::lemma_fundamental_div_mod(f * d, s);
    assert(-(6 * s + 4) <= q <= 6 * s + 4) by (nonlinear_arith)
        requires
            f * d == s * q + (f * d) % s,
            0 <= (f * d) % s < s,
            -(s * (6 * s + 3)) <= f * d <= s * (6 * s + 3),
            s == 65536,
    ;
}

/// The noise value of a well-formed field is bounded: no interpolated
/// gradient sum leaves `[-49, 49]` units.  In real arithmetic the bound is
/// the square root of three; the fixed-point envelope is coarser because
/// the gradients and the trilinear weights are bounded component by
/// component rather than by their true norms.
#[verifier::rlimit(100)]
pub proof fn lemma_noise_in_range(pl: Perlin, p: Vec3)
    requires
        perlin_wf(pl),
        perlin_gradients_ok(pl),
    ensures
        -49 * (FX_SCALE as int) <= noise_spec(pl, p) <= 49 * (FX_SCALE as int),
{
    let s = FX_SCALE as int;
    let u = p.x@ - dfl(p.x@, s) * s;
    let v = p.y@ - dfl(p.y@, s) * s;
    let w = p.z@ - dfl(p.z@, s) * s;
    vstd::arithmetic::div_mod::lemma_fundamental_div_mod(p.x@, s);
    vstd::arithmetic::div_mod::lemma_fundamental_div_mod(p.y@, s);
    vstd::arithmetic::div_mod::lemma_fundamental_div_mod(p.z@, s);
    assert(0 <= u < s && 0 <= v < s && 0 <= w < s);
    lemma_smoothstep_range(u);
    lemma_smoothstep_range(v);
    lemma_smoothstep_range(w);
    let i = dfl(p.x@, s);
    let j = dfl(p.y@, s);
    let k = dfl(p.z@, s);
    assert forall|di: int, dj: int, dk: int|
        0 <= di <= 1 && 0 <= dj <= 1 && 0 <= dk <= 1 implies gradient_ok(
        #[trigger] corner_vec(pl, i, j, k, di, dj, dk),
    ) by {
        let ix = pl.perm_x@[mask255(i + di)];
        let iy = pl.perm_y@[mask255(j + dj)];
        let iz = pl.perm_z@[mask255(k + dk)];
        assert(((ix ^ iy ^ iz) as int) < 256) by (bit_vector)
            requires
                ix < 256 && iy < 256 && iz < 256,
        ;
        assert(gradient_ok(pl.ranvec@[(ix ^ iy ^ iz) as int]));
    }
    let uu = smoothstep(u);
    let vv = smoothstep(v);
    let ww = smoothstep(w);
    lemma_term_bound(sat(s - uu), sat(s - vv), sat(s - ww), corner_vec(pl, i, j, k, 0, 0, 0),
        v3(u, v, w));
    lemma_term_bound(sat(s - uu), sat(s - vv), ww, corner_vec(pl, i, j, k, 0, 0, 1),
        v3(u, v, sat(w - s)));
    lemma_term_bound(sat(s - uu), vv, sat(s - ww), corner_vec(pl, i, j, k, 0, 1, 0),
        v3(u, sat(v - s), w));
    lemma_term_bound(sat(s - uu), vv, ww, corner_vec(pl, i, j, k, 0, 1, 1),
        v3(u, sat(v - s), sat(w - s)));
    lemma_term_bound(uu, sat(s - vv), sat(s - ww), corner_vec(pl, i, j, k, 1, 0, 0),
        v3(sat(u - s), v, w));
    lemma_term_bound(uu, sat(s - vv), ww, corner_vec(pl, i, j, k, 1, 0, 1),
        v3(sat(u - s), v, sat(w - s)));
    lemma_term_bound(uu, vv, sat(s - ww), corner_vec(pl, i, j, k, 1, 1, 0),
        v3(sat(u - s), sat(v - s), w));
    lemma_term_bound(uu, vv, ww, corner_vec(pl, i, j, k, 1, 1, 1),
        v3(sat(u - s), sat(v - s), sat(w - s)));
}

impl Perlin {
    /// Generate the field from the random source: 256 unit gradients — each
    /// the guarded norm scaling of a ball draw — and three tables that are
    /// true shuffles of the bytes zero through 255.
    pub fn new(rng: &mut Rng) -> (r: Perlin)
        ensures
            perlin_wf(r),
            perlin_gradients_ok(r),
            perlin_perms_ok(r),
    {
        let mut ranvec: Vec<Vec3> = Vec::new();
        for idx in 0..POINT_COUNT
            invariant
                ranvec@.len() == idx,
                forall|k: int| 0 <= k < idx ==> gradient_ok(#[trigger] ranvec@[k]),
        {
            let g = rng.next_unit_vector();
            ranvec.push(g);
        }
        let perm_x = Self::perlin_generate_perm(rng);
        let perm_y = Self::perlin_generate_perm(rng);
        let perm_z = Self::perlin_generate_perm(rng);
        Perlin { ranvec, perm_x, perm_y, perm_z }
    }

    /// A shuffled table of the bytes `0..=255`: it holds exactly those
    /// bytes, once each.
    fn perlin_generate_perm(rng: &mut Rng) -> (r: Vec<u8>)
        ensures
            r@.len() == POINT_COUNT,
            r@.to_multiset() == byte_identity().to_multiset(),
    {
        let mut p: Vec<u8> = Vec::new();
        for idx in 0..POINT_COUNT
            invariant
                p@.len() == idx,
                forall|k: int| 0 <= k < idx ==> p@[k] == k as u8,
        {
            p.push(idx as u8);
        }
        proof {
            assert(p@ =~= byte_identity());
        }
        Self::permute(&mut p, rng);
        p
    }

    /// Fisher-Yates shuffle, driven by the explicit random source; the
    /// collection of entries is untouched, only their order changes.
    fn permute(p: &mut Vec<u8>, rng: &mut Rng)
        requires
            old(p)@.len() == POINT_COUNT,
        ensures
            final(p)@.len() == POINT_COUNT,
            final(p)@.to_multiset() == old(p)@.to_multiset(),
    {
        broadcast use group_to_multiset_ensures;
        broadcast use vstd::multiset::group_multiset_axioms;

        let ghost orig = p@;
        let mut i: usize = POINT_COUNT;
        while i > 1
            invariant
                p@.len() == POINT_COUNT,
                i <= POINT_COUNT,
                p@.to_multiset() == orig.to_multiset(),
            decreases i,
        {
            i = i - 1;
            let target = rng.next_int(0, (i as i64)) as usize;
            let a = p[i];
            let b = p[target];
            let ghost before = p@;
            p.set(i, b);
            let ghost mid = p@;
            p.set(target, a);
            proof {
                vstd::seq_lib::to_multiset_update(before, i as int, b);
                vstd::seq_lib::to_multiset_update(mid, target as int, a);
                assert(mid == before.update(i as int, b));
                assert(p@ == mid.update(target as int, a));
                if target == i as int {
                    assert(p@ =~= before);
                } else {
                    assert(mid[target as int] == before[target as int]);
                    assert(before[target as int] == b);
                    before.to_multiset_ensures();
                    mid.to_multiset_ensures();
                    assert(before.contains(a)) by {
                        assert(before[i as int] == a);
                    }
                    assert(mid.contains(b)) by {
                        assert(mid[target as int] == b);
                    }
                    assert(before.to_multiset().count(a) > 0);
                    assert(mid.to_multiset().count(b) > 0);
                    assert(p@.to_multiset() =~= before.to_multiset());
                }
            }
        }
    }

    /// The interpolated gradient noise at `p`.
    #[verifier::rlimit(100)]
    pub fn noise(&self, p: &Vec3) -> (r: Fx)
        requires
            perlin_wf(*self),
        ensures
            r == fx(noise_spec(*self, *p)),
    {
        let u = p.x.fract();
        let v = p.y.fract();
        let w = p.z.fract();
        let i = p.x.floor_units();
        let j = p.y.floor_units();
        let k = p.z.floor_units();
        proof {
            vstd::arithmetic::div_mod::lemma_fundamental_div_mod(p.x@, FX_SCALE as int);
            vstd::arithmetic::div_mod::lemma_fundamental_div_mod(p.y@, FX_SCALE as int);
            vstd::arithmetic::div_mod::lemma_fundamental_div_mod(p.z@, FX_SCALE as int);
        }
        let s = Fx { raw: FX_SCALE };

        let uu = u.mul(u).mul(Fx { raw: 3 * FX_SCALE }.sub(u.scale_int(2)));
        let vv = v.mul(v).mul(Fx { raw: 3 * FX_SCALE }.sub(v.scale_int(2)));
        let ww = w.mul(w).mul(Fx { raw: 3 * FX_SCALE }.sub(w.scale_int(2)));

        let t000 = s.sub(uu).mul(s.sub(vv)).mul(s.sub(ww)).mul(
            self.corner(i, j, k, 0, 0, 0).dot(Vec3 { x: u, y: v, z: w }));
        let t001 = s.sub(uu).mul(s.sub(vv)).mul(ww).mul(
            self.corner(i, j, k, 0, 0, 1).dot(Vec3 { x: u, y: v, z: w.sub(s) }));
        let t010 = s.sub(uu).mul(vv).mul(s.sub(ww)).mul(
            self.corner(i, j, k, 0, 1, 0).dot(Vec3 { x: u, y: v.sub(s), z: w }));
        let t011 = s.sub(uu).mul(vv).mul(ww).mul(
            self.corner(i, j, k, 0, 1, 1).dot(Vec3 { x: u, y: v.sub(s), z: w.sub(s) }));
        let t100 = uu.mul(s.sub(vv)).mul(s.sub(ww)).mul(
            self.corner(i, j, k, 1, 0, 0).dot(Vec3 { x: u.sub(s), y: v, z: w }));
        let t101 = uu.mul(s.sub(vv)).mul(ww).mul(
            self.corner(i, j, k, 1, 0, 1).dot(Vec3 { x: u.sub(s), y: v, z: w.sub(s) }));
        let t110 = uu.mul(vv).mul(s.sub(ww)).mul(
            self.corner(i, j, k, 1, 1, 0).dot(Vec3 { x: u.sub(s), y: v.sub(s), z: w }));
        let t111 = uu.mul(vv).mul(ww).mul(
            self.corner(i, j, k, 1, 1, 1).dot(Vec3 { x: u.sub(s), y: v.sub(s), z: w.sub(s) }));

        t000.add(t001).add(t010).add(t011).add(t100).add(t101).add(t110).add(t111)
    }

    /// The gradient at one corner of the cell.
    fn corner(&self, i: i64, j: i64, k: i64, di: i64, dj: i64, dk: i64) -> (g: Vec3)
        requires
            perlin_wf(*self),
            -0x2_0000_0000_0000 <= i <= 0x2_0000_0000_0000,
            -0x2_0000_0000_0000 <= j <= 0x2_0000_0000_0000,
            -0x2_0000_0000_0000 <= k <= 0x2_0000_0000_0000,
            0 <= di <= 1,
            0 <= dj <= 1,
            0 <= dk <= 1,
        ensures
            g == corner_vec(*self, i as int, j as int, k as int, di as int, dj as int, dk as int),
    {
        let ix = self.perm_x[mask255_exec(i + di)];
        let iy = self.perm_y[mask255_exec(j + dj)];
        let iz = self.perm_z[mask255_exec(k + dk)];
        self.ranvec[(ix ^ iy ^ iz) as usize]
    }

    /// Seven octaves of noise with halving amplitude and doubling frequency,
    /// folded into a turbulence magnitude.
    pub fn turb(&self, p: &Vec3) -> (r: Fx)
        requires
            perlin_wf(*self),
        ensures
            r == fx(turb_spec(*self, *p)),
    {
        let a = self.turb_rec(*p, Fx { raw: FX_SCALE }, 7, Fx { raw: 0 });
        a.abs()
    }

    fn turb_rec(&self, p: Vec3, weight: Fx, depth: u32, acc: Fx) -> (r: Fx)
        requires
            perlin_wf(*self),
        ensures
            r == fx(turb_from(*self, p, weight@, depth as nat, acc@)),
        decreases depth,
    {
        if depth == 0 {
            acc
        } else {
            let acc2 = acc.add(weight.mul(self.noise(&p)));
            self.turb_rec(
                p.scale(Fx { raw: 2 * FX_SCALE }),
                weight.mul(Fx { raw: 32768 }),
                depth - 1,
                acc2,
            )
        }
    }
}

} // verus!
