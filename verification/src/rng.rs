//! The explicit random source of the renderer: a deterministic, seedable
//! xorshift generator, handed to every sampling routine so that each pixel's
//! estimate is reproducible from its seed.

use vstd::prelude::*;
use crate::fx::{dfl, fx, sat, smul, Fx, FX_SCALE};
use crate::vec3::{sdot, sunit_v, v3, Vec3};

verus! {

/// One xorshift step of the 64-bit state.
pub open spec fn rng_next(s: u64) -> u64 {
    let a = s ^ (s << 13);
    let b = a ^ (a >> 7);
    b ^ (b << 17)
}

/// The fixed-point unit-interval value drawn when the state steps from `s`.
pub open spec fn unit_draw(s: u64) -> int {
    (rng_next(s) as int) % (FX_SCALE as int)
}

/// The value drawn from `[min, max)` when the state steps from `s`.
pub open spec fn range_draw(s: u64, min: int, max: int) -> int {
    sat(min + smul(sat(max - min), unit_draw(s)))
}

/// The vector drawn component by component from `[min, max)` out of state
/// `s`, with the state after the three draws.
pub open spec fn vec_range_draw(s: u64, min: int, max: int) -> (Vec3, u64) {
    let s1 = rng_next(s);
    let s2 = rng_next(s1);
    let s3 = rng_next(s2);
    (v3(range_draw(s, min, max), range_draw(s1, min, max), range_draw(s2, min, max)), s3)
}

/// Rejection sampling of a point inside the unit ball, with a bounded number
/// of retries; when the budget runs out the draw falls back to a fixed point
/// inside the ball.
pub open spec fn sphere_draw(s: u64, tries: nat) -> (Vec3, u64)
    decreases tries,
{
    let (p, s1) = vec_range_draw(s, -(FX_SCALE as int), FX_SCALE as int);
    if sdot(p, p) <= FX_SCALE as int {
        (p, s1)
    } else if tries == 0 {
        (v3(16384, 0, 0), s1)
    } else {
        sphere_draw(s1, (tries - 1) as nat)
    }
}

/// Rejection sampling of a point inside the unit disk of the xy-plane, with
/// the same bounded-retry policy as `sphere_draw`.
pub open spec fn disk_draw(s: u64, tries: nat) -> (Vec3, u64)
    decreases tries,
{
    let s1 = rng_next(s);
    let s2 = rng_next(s1);
    let p = v3(
        range_draw(s, -(FX_SCALE as int), FX_SCALE as int),
        range_draw(s1, -(FX_SCALE as int), FX_SCALE as int),
        0,
    );
    if sdot(p, p) <= FX_SCALE as int {
        (p, s2)
    } else if tries == 0 {
        (v3(16384, 0, 0), s2)
    } else {
        disk_draw(s2, (tries - 1) as nat)
    }
}

/// The fixed fallback point of the bounded rejection samplers lies inside
/// the unit ball.
proof fn lemma_fallback_in_ball()
    ensures
        sdot(v3(16384, 0, 0), v3(16384, 0, 0)) <= FX_SCALE as int,
{
    assert(FX_SCALE as int == 65536int);
    assert(16384int * 16384int == 268435456int) by (nonlinear_arith);
    assert(4096int * 65536int + 0int == 268435456int) by (nonlinear_arith);
    vstd::arithmetic::div_mod::lemma_fundamental_div_mod_converse(
        268435456int,
        65536int,
        4096int,
        0int,
    );
    assert(dfl(16384int * 16384int, FX_SCALE as int) == 4096);
    vstd::arithmetic::div_mod::lemma_fundamental_div_mod_converse(0int, 65536int, 0int, 0int);
    assert(dfl(0int, FX_SCALE as int) == 0);
    let a = v3(16384, 0, 0);
    assert(a.x@ == 16384);
    assert(a.y@ == 0);
    assert(smul(16384, 16384) == 4096);
    assert(smul(0, 0) == 0);
    assert(sdot(a, a) == 4096);
}

/// The unit scaling of a ball draw, guarded: a zero draw falls back to a
/// fixed axis unit vector instead of saturating the division by a zero
/// norm.
pub open spec fn unit_vec_draw_of(p: Vec3) -> Vec3 {
    if sdot(p, p) == 0 {
        v3(FX_SCALE as int, 0, 0)
    } else {
        sunit_v(p)
    }
}

/// Every component of a ball draw lies within one unit of scale: rejection
/// draws come from the cube of side two, and the fallback is axis-aligned.
pub proof fn lemma_sphere_draw_comps(s: u64, tries: nat)
    ensures
        ({
            let p = sphere_draw(s, tries).0;
            &&& -(FX_SCALE as int) <= p.x@ <= FX_SCALE as int
            &&& -(FX_SCALE as int) <= p.y@ <= FX_SCALE as int
            &&& -(FX_SCALE as int) <= p.z@ <= FX_SCALE as int
        }),
    decreases tries,
{
    let sc = FX_SCALE as int;
    let s1 = rng_next(s);
    let s2 = rng_next(s1);
    lemma_range_draw_unit_cube(s);
    lemma_range_draw_unit_cube(s1);
    lemma_range_draw_unit_cube(s2);
    let p = vec_range_draw(s, -sc, sc).0;
    if sdot(p, p) <= sc {
    } else if tries == 0 {
    } else {
        lemma_sphere_draw_comps(rng_next(s2), (tries - 1) as nat);
    }
}

/// A draw from `[-1, 1)` is exact: twice the unit draw, shifted.
proof fn lemma_range_draw_unit_cube(s: u64)
    ensures
        -(FX_SCALE as int) <= range_draw(s, -(FX_SCALE as int), FX_SCALE as int) < FX_SCALE as int,
{
    let sc = FX_SCALE as int;
    let u = unit_draw(s);
    assert(0 <= u < sc);
    assert(2 * sc * u == (2 * u) * sc) by (nonlinear_arith);
    vstd::arithmetic::div_mod::lemma_fundamental_div_mod_converse(2 * sc * u, sc, 2 * u, 0);
    assert(smul(sat(sc - (-sc)), u) == 2 * u);
}

/// The deterministic random source.
#[derive(Clone, Copy, PartialEq, Eq, Structural, Debug)]
pub struct Rng {
    pub state: u64,
}

impl Rng {
    /// A generator seeded with `seed`; a zero seed is replaced, since the
    /// all-zero state is a fixed point of the xorshift step.
    pub fn new(seed: u64) -> (r: Rng)
        ensures
            r.state == (if seed == 0 { 0x9e3779b97f4a7c15u64 } else { seed }),
    {
        if seed == 0 {
            Rng { state: 0x9e3779b97f4a7c15 }
        } else {
            Rng { state: seed }
        }
    }

    /// Step the state and return it.
    pub fn next_u64(&mut self) -> (r: u64)
        ensures
            final(self).state == rng_next(old(self).state),
            r == final(self).state,
    {
        let s0 = self.state;
        let a = s0 ^ (s0 << 13u64);
        let b = a ^ (a >> 7u64);
        let c = b ^ (b << 17u64);
        self.state = c;
        c
    }

    /// A fixed-point value in `[0, 1)`.
    pub fn next_unit(&mut self) -> (r: Fx)
        ensures
            final(self).state == rng_next(old(self).state),
            r == fx(unit_draw(old(self).state)),
    {
        let v = self.next_u64();
        Fx { raw: (v % 65536) as i64 }
    }

    /// A fixed-point value in `[min, max)`, as `min + (max - min) * u`.
    pub fn next_range(&mut self, min: Fx, max: Fx) -> (r: Fx)
        ensures
            final(self).state == rng_next(old(self).state),
            r == fx(range_draw(old(self).state, min@, max@)),
    {
        let u = self.next_unit();
        min.add(max.sub(min).mul(u))
    }

    /// A plain integer in `[min, max]`, both ends included.
    pub fn next_int(&mut self, min: i64, max: i64) -> (r: i64)
        requires
            min <= max,
            max - min < 0x7fff_ffff,
        ensures
            final(self).state == rng_next(old(self).state),
            min <= r <= max,
            r as int == min + ((rng_next(old(self).state) as int) % (max - min + 1)),
    {
        let v = self.next_u64();
        let span: u64 = (max - min + 1) as u64;
        min + ((v % span) as i64)
    }

    /// A vector whose components are three successive draws from
    /// `[min, max)`.
    pub fn next_vec_range(&mut self, min: Fx, max: Fx) -> (r: Vec3)
        ensures
            (r, final(self).state) == vec_range_draw(old(self).state, min@, max@),
    {
        let x = self.next_range(min, max);
        let y = self.next_range(min, max);
        let z = self.next_range(min, max);
        Vec3 { x, y, z }
    }

    /// A point inside the unit ball.
    pub fn next_in_unit_sphere(&mut self) -> (r: Vec3)
        ensures
            (r, final(self).state) == sphere_draw(old(self).state, 32),
            sdot(r, r) <= FX_SCALE as int,
    {
        let r = self.sphere_attempts(32);
        r
    }

    fn sphere_attempts(&mut self, tries: u32) -> (r: Vec3)
        ensures
            (r, final(self).state) == sphere_draw(old(self).state, tries as nat),
            sdot(r, r) <= FX_SCALE as int,
        decreases tries,
    {
        let one = Fx { raw: FX_SCALE };
        let p = self.next_vec_range(one.neg(), one);
        let q = p.dot(p);
        if q.raw <= FX_SCALE {
            p
        } else if tries == 0 {
            proof {
                lemma_fallback_in_ball();
            }
            Vec3 { x: Fx { raw: 16384 }, y: Fx { raw: 0 }, z: Fx { raw: 0 } }
        } else {
            self.sphere_attempts(tries - 1)
        }
    }

    /// A point inside the unit ball scaled to unit length; a zero draw —
    /// whose norm would divide to a saturated vector — falls back to a
    /// fixed axis unit vector.  Every result is the norm scaling of some
    /// nonzero ball point, with components within twice the unit scale.
    pub fn next_unit_vector(&mut self) -> (r: Vec3)
        ensures
            r == unit_vec_draw_of(sphere_draw(old(self).state, 32).0),
            final(self).state == sphere_draw(old(self).state, 32).1,
            -2 * (FX_SCALE as int) <= r.x@ <= 2 * (FX_SCALE as int),
            -2 * (FX_SCALE as int) <= r.y@ <= 2 * (FX_SCALE as int),
            -2 * (FX_SCALE as int) <= r.z@ <= 2 * (FX_SCALE as int),
            exists|v: Vec3| sdot(v, v) > 0 && r == sunit_v(v),
    {
        proof {
            lemma_sphere_draw_comps(self.state, 32);
        }
        let p = self.next_in_unit_sphere();
        if p.dot(p).raw == 0 {
            proof {
                crate::vec3::lemma_unit_axis_fixpoint();
                let w = v3(FX_SCALE as int, 0, 0);
                assert(sdot(w, w) > 0 && v3(FX_SCALE as int, 0, 0) == sunit_v(w));
            }
            Vec3 { x: Fx { raw: FX_SCALE }, y: Fx { raw: 0 }, z: Fx { raw: 0 } }
        } else {
            proof {
                crate::vec3::lemma_sdot_self_nonneg(p);
                crate::vec3::lemma_unit_ball_comps(p);
            }
            p.unit()
        }
    }

    /// A point inside the unit disk of the xy-plane.
    pub fn next_in_unit_disk(&mut self) -> (r: Vec3)
        ensures
            (r, final(self).state) == disk_draw(old(self).state, 32),
            sdot(r, r) <= FX_SCALE as int,
    {
        let r = self.disk_attempts(32);
        r
    }

    fn disk_attempts(&mut self, tries: u32) -> (r: Vec3)
        ensures
            (r, final(self).state) == disk_draw(old(self).state, tries as nat),
            sdot(r, r) <= FX_SCALE as int,
        decreases tries,
    {
        let one = Fx { raw: FX_SCALE };
        let x = self.next_range(one.neg(), one);
        let y = self.next_range(one.neg(), one);
        let p = Vec3 { x, y, z: Fx { raw: 0 } };
        let q = p.dot(p);
        if q.raw <= FX_SCALE {
            p
        } else if tries == 0 {
            proof {
                lemma_fallback_in_ball();
            }
            Vec3 { x: Fx { raw: 16384 }, y: Fx { raw: 0 }, z: Fx { raw: 0 } }
        } else {
            self.disk_attempts(tries - 1)
        }
    }
}

} // verus!
