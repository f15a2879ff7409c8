//! Fixed-point approximations of the transcendental functions the renderer
//! needs: sine and cosine (checker and marble textures, rotations, the
//! camera's field of view), the arc functions for spherical surface
//! coordinates, and a logarithm for free-flight sampling in a medium.
//!
//! Each executable function returns exactly the value of its spec-level
//! mirror; the mirrors are the closed formulas below, written over the
//! saturating fixed-point operations.

use vstd::prelude::*;
use vstd::arithmetic::power2::pow2;
use vstd::arithmetic::div_mod::lemma_fundamental_div_mod;
use crate::fx::{dfl, fx, sat, sdiv, smul, Fx, FX_SCALE};

verus! {

/// Pi in fixed point.
pub const PI_FX: i64 = 205887;

/// Pi / 2 in fixed point.
pub const HALF_PI_FX: i64 = 102943;

/// Pi / 4 in fixed point.
pub const QUARTER_PI_FX: i64 = 51471;

/// 5 * pi^2 in fixed point, the denominator constant of the rational sine
/// approximation.
pub const FIVE_PI_SQ_FX: i64 = 3234071;

/// 0.273 in fixed point, the slope constant of the arctangent approximation.
pub const ATAN_K_FX: i64 = 17891;

/// ln 2 in fixed point.
pub const LN2_FX: i64 = 45426;

/// Radians per degree in fixed point.
pub const DEG_TO_RAD_FX: i64 = 1143;

/// The rational sine approximation on `[0, pi]`:
/// `16 t (pi - t) / (5 pi^2 - 4 t (pi - t))`.
pub open spec fn sin_core(t: int) -> int {
    let a = smul(t, sat(PI_FX as int - t));
    sdiv(sat(16 * a), sat(FIVE_PI_SQ_FX as int - sat(4 * a)))
}

/// Full-range fixed-point sine: the argument reduced into `[-pi, pi)`, then
/// the odd extension of the core approximation.
pub open spec fn ssin(x: int) -> int {
    let k = dfl(x + PI_FX as int, 2 * PI_FX as int);
    let t = x - 2 * PI_FX as int * k;
    if t < 0 {
        sat(-sin_core(-t))
    } else {
        sin_core(t)
    }
}

/// Fixed-point cosine, as the sine of the shifted argument.
pub open spec fn scos(x: int) -> int {
    ssin(sat(x + HALF_PI_FX as int))
}

/// Fixed-point tangent.
pub open spec fn stan(x: int) -> int {
    sdiv(ssin(x), scos(x))
}

/// The arctangent approximation on `[-1, 1]`:
/// `q * (pi/4 + 0.273 * (1 - |q|))`.
pub open spec fn atan_core(q: int) -> int {
    let aq = if q >= 0 {
        q
    } else {
        sat(-q)
    };
    smul(q, sat(QUARTER_PI_FX as int + smul(ATAN_K_FX as int, sat(FX_SCALE as int - aq))))
}

/// Fixed-point two-argument arctangent, in `(-pi, pi]`.
pub open spec fn satan2(y: int, x: int) -> int {
    let ay = if y >= 0 {
        y
    } else {
        sat(-y)
    };
    let ax = if x >= 0 {
        x
    } else {
        sat(-x)
    };
    if ay == 0 && ax == 0 {
        0
    } else if ax >= ay {
        let base = atan_core(sdiv(y, x));
        if x > 0 {
            base
        } else if y >= 0 {
            sat(base + PI_FX as int)
        } else {
            sat(base - PI_FX as int)
        }
    } else {
        let base = atan_core(sdiv(x, y));
        if y > 0 {
            sat(HALF_PI_FX as int - base)
        } else {
            sat(-HALF_PI_FX as int - base)
        }
    }
}

/// Fixed-point arc cosine, via the arctangent of the complementary leg.
pub open spec fn sacos(c: int) -> int {
    satan2(sat(crate::fx::ssqrt(sat(FX_SCALE as int - smul(c, c)))), c)
}

/// The floor base-two logarithm of a positive integer.
pub open spec fn slog2(x: int) -> int
    decreases x,
{
    if x < 2 {
        0
    } else {
        1 + slog2(x / 2)
    }
}

/// Fixed-point natural logarithm of a scalar in units of one, linearly
/// interpolated inside each octave; non-positive arguments saturate to the
/// lower end of the range, standing in for minus infinity.
pub open spec fn sln(x: int) -> int {
    if x <= 0 {
        i64::MIN as int
    } else {
        let p = slog2(x);
        let m = pow2(p as nat) as int;
        sat(sat(LN2_FX as int * (p - 16)) + smul(LN2_FX as int, sdiv(sat(x - m), m)))
    }
}

/// The rational sine core, executable.
fn sin_core_exec(t: Fx) -> (r: Fx)
    ensures
        r == fx(sin_core(t@)),
{
    let a = t.mul(Fx { raw: PI_FX }.sub(t));
    let num = a.scale_int(16);
    let den = Fx { raw: FIVE_PI_SQ_FX }.sub(a.scale_int(4));
    num.div(den)
}

/// Fixed-point sine.
pub fn sin_fx(x: Fx) -> (r: Fx)
    ensures
        r == fx(ssin(x@)),
{
    let n: i128 = (x.raw as i128) + (PI_FX as i128);
    let k: i128 = crate::fx::floor_div_wide(n, (2 * PI_FX) as i128);
    proof {
        lemma_fundamental_div_mod(x.raw as int + PI_FX as int, 2 * PI_FX as int);
    }
    let t128: i128 = (x.raw as i128) - ((2 * PI_FX) as i128) * k;
    let t: i64 = t128 as i64;
    if t < 0 {
        sin_core_exec(Fx { raw: -t }).neg()
    } else {
        sin_core_exec(Fx { raw: t })
    }
}

/// Fixed-point cosine.
pub fn cos_fx(x: Fx) -> (r: Fx)
    ensures
        r == fx(scos(x@)),
{
    sin_fx(x.add(Fx { raw: HALF_PI_FX }))
}

/// Fixed-point tangent.
pub fn tan_fx(x: Fx) -> (r: Fx)
    ensures
        r == fx(stan(x@)),
{
    sin_fx(x).div(cos_fx(x))
}

/// The arctangent core, executable.
fn atan_core_exec(q: Fx) -> (r: Fx)
    ensures
        r == fx(atan_core(q@)),
{
    let aq = q.abs();
    q.mul(Fx { raw: QUARTER_PI_FX }.add(Fx { raw: ATAN_K_FX }.mul(Fx { raw: FX_SCALE }.sub(aq))))
}

/// Fixed-point two-argument arctangent.
pub fn atan2_fx(y: Fx, x: Fx) -> (r: Fx)
    ensures
        r == fx(satan2(y@, x@)),
{
    let ay = y.abs();
    let ax = x.abs();
    if ay.raw == 0 && ax.raw == 0 {
        Fx { raw: 0 }
    } else if ax.raw >= ay.raw {
        let base = atan_core_exec(y.div(x));
        if x.raw > 0 {
            base
        } else if y.raw >= 0 {
            base.add(Fx { raw: PI_FX })
        } else {
            base.sub(Fx { raw: PI_FX })
        }
    } else {
        let base = atan_core_exec(x.div(y));
        if y.raw > 0 {
            Fx { raw: HALF_PI_FX }.sub(base)
        } else {
            Fx { raw: -HALF_PI_FX }.sub(base)
        }
    }
}

/// Fixed-point arc cosine.
pub fn acos_fx(c: Fx) -> (r: Fx)
    ensures
        r == fx(sacos(c@)),
{
    let s = Fx { raw: FX_SCALE }.sub(c.mul(c)).sqrt();
    atan2_fx(s, c)
}

/// The floor base-two logarithm together with the matching power of two.
fn log2_floor(x: u64) -> (r: (u64, u64))
    requires
        1 <= x,
    ensures
        r.0 as int == slog2(x as int),
        r.1 as int == pow2(r.0 as nat) as int,
        r.1 <= x,
        r.0 < 64,
    decreases x,
{
    if x < 2 {
        proof {
            vstd::arithmetic::power2::lemma2_to64();
        }
        (0, 1)
    } else {
        let (p, m) = log2_floor(x / 2);
        proof {
            assert(pow2((p + 1) as nat) == 2 * pow2(p as nat)) by {
                vstd::arithmetic::power2::lemma_pow2_unfold((p + 1) as nat);
            }
            assert(2 * (x as int / 2) <= x as int) by {
                lemma_fundamental_div_mod(x as int, 2);
            }
            assert(pow2(p as nat) * 2 < 0x1_0000_0000_0000_0000) by {
                assert(pow2(p as nat) <= x as int / 2);
            }
            if p + 1 == 64 {
                vstd::arithmetic::power2::lemma_pow2_adds(63, 1);
                vstd::arithmetic::power2::lemma2_to64();
                assert(pow2(64) == pow2(63) * pow2(1));
                assert(false);
            }
        }
        (p + 1, m * 2)
    }
}

/// Fixed-point natural logarithm; non-positive arguments give the lower
/// saturation bound.
pub fn ln_fx(x: Fx) -> (r: Fx)
    ensures
        r == fx(sln(x@)),
{
    if x.raw <= 0 {
        Fx { raw: i64::MIN }
    } else {
        let (p, m) = log2_floor(x.raw as u64);
        let base = Fx { raw: LN2_FX }.scale_int((p as i64) - 16);
        let frac = Fx { raw: x.raw - (m as i64) }.div(Fx { raw: m as i64 });
        base.add(Fx { raw: LN2_FX }.mul(frac))
    }
}

} // verus!
