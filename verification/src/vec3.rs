//! Three-component fixed-point vectors, used interchangeably as positions,
//! directions and linear-light colours.

use vstd::prelude::*;
use crate::fx::{dfl, fx, smul, sdiv, ssqrt, sat, Fx};

verus! {

/// A vector of three fixed-point scalars.
#[derive(Clone, Copy, PartialEq, Eq, Structural, Debug)]
pub struct Vec3 {
    pub x: Fx,
    pub y: Fx,
    pub z: Fx,
}

/// The vector with saturated raw components `(x, y, z)`; the spec-level
/// constructor the vector contracts are phrased with.
pub open spec fn v3(x: int, y: int, z: int) -> Vec3 {
    Vec3 { x: fx(x), y: fx(y), z: fx(z) }
}

/// Component-wise sum.
pub open spec fn sadd_v(a: Vec3, b: Vec3) -> Vec3 {
    v3(a.x@ + b.x@, a.y@ + b.y@, a.z@ + b.z@)
}

/// Component-wise difference.
pub open spec fn ssub_v(a: Vec3, b: Vec3) -> Vec3 {
    v3(a.x@ - b.x@, a.y@ - b.y@, a.z@ - b.z@)
}

/// Component-wise negation.
pub open spec fn sneg_v(a: Vec3) -> Vec3 {
    v3(-a.x@, -a.y@, -a.z@)
}

/// The vector scaled by the fixed-point factor `k`.
pub open spec fn sscale_v(a: Vec3, k: int) -> Vec3 {
    v3(smul(a.x@, k), smul(a.y@, k), smul(a.z@, k))
}

/// Component-wise (Hadamard) product.
pub open spec fn scomp_mul(a: Vec3, b: Vec3) -> Vec3 {
    v3(smul(a.x@, b.x@), smul(a.y@, b.y@), smul(a.z@, b.z@))
}

/// Each component divided by the fixed-point scalar `k`.
pub open spec fn sdiv_v(a: Vec3, k: int) -> Vec3 {
    v3(sdiv(a.x@, k), sdiv(a.y@, k), sdiv(a.z@, k))
}

/// The fixed-point dot product, saturated at each accumulation step.
pub open spec fn sdot(a: Vec3, b: Vec3) -> int {
    sat(sat(smul(a.x@, b.x@) + smul(a.y@, b.y@)) + smul(a.z@, b.z@))
}

/// The fixed-point cross product.
pub open spec fn scross(a: Vec3, b: Vec3) -> Vec3 {
    v3(
        sat(smul(a.y@, b.z@) - smul(a.z@, b.y@)),
        sat(smul(a.z@, b.x@) - smul(a.x@, b.z@)),
        sat(smul(a.x@, b.y@) - smul(a.y@, b.x@)),
    )
}

/// The fixed-point Euclidean norm.
pub open spec fn snorm(a: Vec3) -> int {
    ssqrt(sdot(a, a))
}

/// The vector divided by its own norm.
pub open spec fn sunit_v(a: Vec3) -> Vec3 {
    sdiv_v(a, snorm(a))
}

/// The dot product of a vector with itself is never negative.
pub proof fn lemma_sdot_self_nonneg(v: Vec3)
    ensures
        sdot(v, v) >= 0,
{
    lemma_smul_self_nonneg(v.x@);
    lemma_smul_self_nonneg(v.y@);
    lemma_smul_self_nonneg(v.z@);
}

/// The fixed-point square of a scalar is never negative.
proof fn lemma_smul_self_nonneg(x: int)
    ensures
        smul(x, x) >= 0,
{
    assert(x * x >= 0) by (nonlinear_arith);
    vstd::arithmetic::div_mod::lemma_div_pos_is_pos(x * x, crate::fx::FX_SCALE as int);
}

/// Scaling a nonzero vector drawn from the unit cube by its own norm keeps
/// every component within twice the unit scale: the division cannot blow
/// up, because the norm of a vector with a positive square is at least one
/// raw step and the floor root loses less than a factor of two.
pub proof fn lemma_unit_ball_comps(a: Vec3)
    requires
        -(crate::fx::FX_SCALE as int) <= a.x@ <= crate::fx::FX_SCALE as int,
        -(crate::fx::FX_SCALE as int) <= a.y@ <= crate::fx::FX_SCALE as int,
        -(crate::fx::FX_SCALE as int) <= a.z@ <= crate::fx::FX_SCALE as int,
        sdot(a, a) >= 1,
    ensures
        -2 * (crate::fx::FX_SCALE as int) <= sunit_v(a).x@ <= 2 * (crate::fx::FX_SCALE as int),
        -2 * (crate::fx::FX_SCALE as int) <= sunit_v(a).y@ <= 2 * (crate::fx::FX_SCALE as int),
        -2 * (crate::fx::FX_SCALE as int) <= sunit_v(a).z@ <= 2 * (crate::fx::FX_SCALE as int),
{
    let s = crate::fx::FX_SCALE as int;
    let d = sdot(a, a);
    lemma_square_in_unit_range(a.x@);
    lemma_square_in_unit_range(a.y@);
    lemma_square_in_unit_range(a.z@);
    assert(d <= 3 * s);
    crate::fx::lemma_isqrt_exists(d * s);
    let n = crate::fx::isqrt_s(d * s);
    assert(d * s >= 65536);
    assert(n >= 256) by (nonlinear_arith)
        requires
            n >= 0,
            d * s >= 65536,
            d * s < (n + 1) * (n + 1),
    ;
    assert(101 * (n * n) >= 100 * (d * s)) by (nonlinear_arith)
        requires
            n >= 256,
            d * s < (n + 1) * (n + 1),
    ;
    lemma_unit_comp(a.x@, d, n);
    lemma_unit_comp(a.y@, d, n);
    lemma_unit_comp(a.z@, d, n);
}

/// One component of the norm-scaled vector stays within twice the unit
/// scale.
proof fn lemma_unit_comp(x: int, d: int, n: int)
    requires
        -(crate::fx::FX_SCALE as int) <= x <= crate::fx::FX_SCALE as int,
        1 <= d,
        dfl(x * x, crate::fx::FX_SCALE as int) <= d,
        n >= 256,
        101 * (n * n) >= 100 * (d * (crate::fx::FX_SCALE as int)),
    ensures
        -2 * (crate::fx::FX_SCALE as int) <= crate::fx::sdiv(x, n) <= 2 * (
        crate::fx::FX_SCALE as int),
{
    let s = crate::fx::FX_SCALE as int;
    assert(x * x >= 0) by (nonlinear_arith);
    vstd::arithmetic::div_mod::lemma_fundamental_div_mod(x * x, s);
    assert(x * x < (d + 1) * s) by (nonlinear_arith)
        requires
            x * x == s * dfl(x * x, s) + (x * x) % s,
            (x * x) % s < s,
            dfl(x * x, s) <= d,
            s == 65536,
    ;
    assert(x * x < 4 * (n * n)) by (nonlinear_arith)
        requires
            x * x < (d + 1) * s,
            101 * (n * n) >= 100 * (d * s),
            d >= 1,
            s == 65536,
    ;
    assert(-2 * n < x && x < 2 * n) by (nonlinear_arith)
        requires
            x * x < 4 * (n * n),
            n > 0,
    ;
    let q = dfl(x * s, n);
    vstd::arithmetic::div_mod::lemma_fundamental_div_mod(x * s, n);
    assert(-2 * s <= q <= 2 * s) by (nonlinear_arith)
        requires
            x * s == n * q + (x * s) % n,
            0 <= (x * s) % n < n,
            -2 * n < x && x < 2 * n,
            n > 0,
            s == 65536,
    ;
}

/// A component drawn from the unit cube contributes a non-negative square
/// of at most one to the dot product.
proof fn lemma_square_in_unit_range(x: int)
    requires
        -(crate::fx::FX_SCALE as int) <= x <= crate::fx::FX_SCALE as int,
    ensures
        0 <= smul(x, x) <= crate::fx::FX_SCALE as int,
{
    let s = crate::fx::FX_SCALE as int;
    assert(0 <= x * x <= s * s) by (nonlinear_arith)
        requires
            -s <= x <= s,
    ;
    vstd::arithmetic::div_mod::lemma_div_pos_is_pos(x * x, s);
    vstd::arithmetic::div_mod::lemma_div_is_ordered(x * x, s * s, s);
    crate::fx::lemma_smul_units(s);
}

/// The positive x-axis unit vector is its own norm scaling, with a dot
/// product of exactly one.
pub proof fn lemma_unit_axis_fixpoint()
    ensures
        sdot(v3(crate::fx::FX_SCALE as int, 0, 0), v3(crate::fx::FX_SCALE as int, 0, 0))
            == crate::fx::FX_SCALE as int,
        sunit_v(v3(crate::fx::FX_SCALE as int, 0, 0)) == v3(crate::fx::FX_SCALE as int, 0, 0),
{
    let s = crate::fx::FX_SCALE as int;
    crate::fx::lemma_smul_units(s);
    crate::fx::lemma_smul_units(0);
    let a = v3(s, 0, 0);
    assert(sdot(a, a) == s);
    crate::fx::lemma_isqrt_exists(s * s);
    assert(crate::fx::is_isqrt(s * s, s)) by (nonlinear_arith)
        requires
            s == 65536,
    ;
    crate::fx::lemma_isqrt_unique(s * s, s, crate::fx::isqrt_s(s * s));
    assert(snorm(a) == s);
    vstd::arithmetic::div_mod::lemma_fundamental_div_mod_converse(s * s, s, s, 0);
    assert(s * s == s * s + 0) by (nonlinear_arith);
    vstd::arithmetic::div_mod::lemma_fundamental_div_mod_converse(0, s, 0, 0);
    assert(0 * s == 0) by (nonlinear_arith);
    assert(crate::fx::sdiv(s, s) == s);
    assert(crate::fx::sdiv(0, s) == 0);
}

/// The vector is a signed unit basis vector: exactly one component is plus
/// or minus one, the others zero.
pub open spec fn axis_unit(n: Vec3) -> bool {
    let s = crate::fx::FX_SCALE as int;
    ||| n == v3(s, 0, 0)
    ||| n == v3(-s, 0, 0)
    ||| n == v3(0, s, 0)
    ||| n == v3(0, -s, 0)
    ||| n == v3(0, 0, s)
    ||| n == v3(0, 0, -s)
}

impl Vec3 {
    pub fn new(x: Fx, y: Fx, z: Fx) -> (r: Vec3)
        ensures
            r == (Vec3 { x, y, z }),
    {
        Vec3 { x, y, z }
    }

    /// The vector with all three components equal to `s`.
    pub fn splat(s: Fx) -> (r: Vec3)
        ensures
            r == (Vec3 { x: s, y: s, z: s }),
    {
        Vec3 { x: s, y: s, z: s }
    }

    pub fn add(self, o: Vec3) -> (r: Vec3)
        ensures
            r == sadd_v(self, o),
    {
        Vec3 { x: self.x.add(o.x), y: self.y.add(o.y), z: self.z.add(o.z) }
    }

    pub fn sub(self, o: Vec3) -> (r: Vec3)
        ensures
            r == ssub_v(self, o),
    {
        Vec3 { x: self.x.sub(o.x), y: self.y.sub(o.y), z: self.z.sub(o.z) }
    }

    pub fn neg(self) -> (r: Vec3)
        ensures
            r == sneg_v(self),
    {
        Vec3 { x: self.x.neg(), y: self.y.neg(), z: self.z.neg() }
    }

    pub fn scale(self, k: Fx) -> (r: Vec3)
        ensures
            r == sscale_v(self, k@),
    {
        Vec3 { x: self.x.mul(k), y: self.y.mul(k), z: self.z.mul(k) }
    }

    pub fn comp_mul(self, o: Vec3) -> (r: Vec3)
        ensures
            r == scomp_mul(self, o),
    {
        Vec3 { x: self.x.mul(o.x), y: self.y.mul(o.y), z: self.z.mul(o.z) }
    }

    pub fn div_scalar(self, k: Fx) -> (r: Vec3)
        ensures
            r == sdiv_v(self, k@),
    {
        Vec3 { x: self.x.div(k), y: self.y.div(k), z: self.z.div(k) }
    }

    pub fn dot(self, o: Vec3) -> (r: Fx)
        ensures
            r == fx(sdot(self, o)),
    {
        self.x.mul(o.x).add(self.y.mul(o.y)).add(self.z.mul(o.z))
    }

    pub fn cross(self, o: Vec3) -> (r: Vec3)
        ensures
            r == scross(self, o),
    {
        Vec3 {
            x: self.y.mul(o.z).sub(self.z.mul(o.y)),
            y: self.z.mul(o.x).sub(self.x.mul(o.z)),
            z: self.x.mul(o.y).sub(self.y.mul(o.x)),
        }
    }

    /// The squared Euclidean norm.
    pub fn norm_squared(self) -> (r: Fx)
        ensures
            r == fx(sdot(self, self)),
    {
        self.dot(self)
    }

    /// The Euclidean norm.
    pub fn norm(self) -> (r: Fx)
        ensures
            r == fx(snorm(self)),
    {
        self.norm_squared().sqrt()
    }

    /// The vector divided by its own norm; a zero vector saturates, as the
    /// scalar division does.
    pub fn unit(self) -> (r: Vec3)
        ensures
            r == sunit_v(self),
    {
        proof {
            crate::fx::lemma_ssqrt_bounds(sdot(self, self));
        }
        self.div_scalar(self.norm())
    }
}

} // verus!
