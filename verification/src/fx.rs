//! The scalar type of the renderer: a signed fixed-point number with
//! `FX_SCALE` units to one, stored in an `i64`.
//!
//! Every operation is total.  Results that would leave the representable
//! range saturate at the ends of the `i64` range, and division by zero
//! saturates in the direction of the numerator's sign, which plays the role
//! the IEEE infinities play in a floating-point slab test.  Each operation's
//! contract states the exact integer it returns.

use vstd::prelude::*;
use vstd::arithmetic::div_mod::{lemma_fundamental_div_mod, lemma_fundamental_div_mod_converse};

verus! {

/// Number of raw units to one; the fixed-point scale.
pub const FX_SCALE: i64 = 65536;

/// Saturation of a mathematical integer into the `i64` range.
pub open spec fn sat(x: int) -> int {
    if x > i64::MAX as int {
        i64::MAX as int
    } else if x < i64::MIN as int {
        i64::MIN as int
    } else {
        x
    }
}

/// Floor division (rounding toward minus infinity), defined for `d != 0`.
pub open spec fn dfl(n: int, d: int) -> int {
    if d < 0 {
        (-n) / (-d)
    } else {
        n / d
    }
}

/// The saturating fixed-point product.
pub open spec fn smul(a: int, b: int) -> int {
    sat(dfl(a * b, FX_SCALE as int))
}

/// The saturating fixed-point quotient; a zero divisor saturates in the
/// direction of the numerator's sign.
pub open spec fn sdiv(a: int, b: int) -> int {
    if b == 0 {
        if a >= 0 {
            i64::MAX as int
        } else {
            i64::MIN as int
        }
    } else {
        sat(dfl(a * (FX_SCALE as int), b))
    }
}

/// `r` is the integer square root of `n`: the largest integer whose square
/// does not exceed `n`.
pub open spec fn is_isqrt(n: int, r: int) -> bool {
    r >= 0 && r * r <= n && n < (r + 1) * (r + 1)
}

/// The integer square root, as a value.
pub open spec fn isqrt_s(n: int) -> int {
    choose|r: int| is_isqrt(n, r)
}

/// The fixed-point square root: the floor square root of `x * FX_SCALE`,
/// with every non-positive argument mapped to zero.
pub open spec fn ssqrt(x: int) -> int {
    if x <= 0 {
        0
    } else {
        isqrt_s(x * (FX_SCALE as int))
    }
}

pub proof fn lemma_isqrt_exists(n: int)
    requires
        n >= 0,
    ensures
        is_isqrt(n, isqrt_s(n)),
    decreases n,
{
    if n == 0 {
        assert(is_isqrt(0, 0));
    } else {
        lemma_isqrt_exists(n - 1);
        let r = isqrt_s(n - 1);
        if (r + 1) * (r + 1) <= n {
            assert(n < (r + 2) * (r + 2)) by (nonlinear_arith)
                requires
                    n - 1 < (r + 1) * (r + 1),
                    r >= 0,
            ;
            assert(is_isqrt(n, r + 1));
        } else {
            assert(is_isqrt(n, r));
        }
    }
}

pub proof fn lemma_isqrt_unique(n: int, r1: int, r2: int)
    requires
        is_isqrt(n, r1),
        is_isqrt(n, r2),
    ensures
        r1 == r2,
{
    assert(r1 == r2) by (nonlinear_arith)
        requires
            r1 >= 0 && r1 * r1 <= n && n < (r1 + 1) * (r1 + 1),
            r2 >= 0 && r2 * r2 <= n && n < (r2 + 1) * (r2 + 1),
    ;
}

/// The fixed-point square root of an in-range argument is far below the
/// saturation bounds.
pub proof fn lemma_ssqrt_bounds(x: int)
    requires
        x <= i64::MAX as int,
    ensures
        0 <= ssqrt(x) < 0x1_0000_0000_0000,
        sat(ssqrt(x)) == ssqrt(x),
{
    if x > 0 {
        lemma_isqrt_exists(x * (FX_SCALE as int));
        let q = isqrt_s(x * (FX_SCALE as int));
        assert(q < 0x1_0000_0000_0000) by (nonlinear_arith)
            requires
                q >= 0,
                q * q <= x * (FX_SCALE as int),
                x <= 0x7fff_ffff_ffff_ffff,
        ;
    }
}

/// Multiplying by one, minus one or zero in fixed point is exact.
pub proof fn lemma_smul_units(x: int)
    requires
        i64::MIN as int <= x <= i64::MAX as int,
    ensures
        smul(x, FX_SCALE as int) == x,
        smul(FX_SCALE as int, x) == x,
        smul(x, -(FX_SCALE as int)) == sat(-x),
        smul(-(FX_SCALE as int), x) == sat(-x),
        smul(x, 0) == 0,
        smul(0, x) == 0,
{
    let s = FX_SCALE as int;
    lemma_fundamental_div_mod_converse(x * s, s, x, 0);
    assert(x * s == x * s + 0) by (nonlinear_arith);
    assert(x * s == s * x) by (nonlinear_arith);
    assert(x * (-s) == -(x * s)) by (nonlinear_arith);
    assert((-s) * x == -(x * s)) by (nonlinear_arith);
    assert(-(x * (-s)) == x * s) by (nonlinear_arith);
    assert(-(-(x * s)) == x * s) by (nonlinear_arith);
    assert(x * 0 == 0) by (nonlinear_arith);
    assert(0 * x == 0) by (nonlinear_arith);
    lemma_fundamental_div_mod_converse(0, s, 0, 0);
}

/// The saturating quotient grows with its numerator, for a non-negative
/// divisor; a zero divisor orders by the numerators' signs.
pub proof fn lemma_sdiv_monotone(n1: int, n2: int, d: int)
    requires
        n1 <= n2,
        d >= 0,
    ensures
        sdiv(n1, d) <= sdiv(n2, d),
{
    let s = FX_SCALE as int;
    if d == 0 {
    } else {
        assert(n1 * s <= n2 * s) by (nonlinear_arith)
            requires
                n1 <= n2,
                s > 0,
        ;
        vstd::arithmetic::div_mod::lemma_div_is_ordered(n1 * s, n2 * s, d);
    }
}

/// The fixed-point square root of an exactly representable square is exact:
/// if `S` divides `c * c`, the root of `c * c / S` is `c` again.
pub proof fn lemma_ssqrt_exact_square(c: int)
    requires
        0 < c <= 0x20_0000_0000,
        (c * c) % (FX_SCALE as int) == 0,
    ensures
        ssqrt(smul(c, c)) == c,
{
    let s = FX_SCALE as int;
    assert(c * c > 0) by (nonlinear_arith)
        requires
            c > 0,
    ;
    lemma_fundamental_div_mod(c * c, s);
    let q = (c * c) / s;
    assert(q * s == c * c) by (nonlinear_arith)
        requires
            c * c == s * q + 0,
    ;
    assert(q > 0) by (nonlinear_arith)
        requires
            q * s == c * c,
            c * c > 0,
            s > 0,
    ;
    assert(q <= 0x400_0000_0000_0000int) by (nonlinear_arith)
        requires
            q * s == c * c,
            q > 0,
            s == 65536,
            0 < c <= 0x20_0000_0000,
    ;
    assert(smul(c, c) == q);
    assert(is_isqrt(q * s, c)) by (nonlinear_arith)
        requires
            q * s == c * c,
            c > 0,
    ;
    lemma_isqrt_exists(q * s);
    lemma_isqrt_unique(q * s, c, isqrt_s(q * s));
}

/// A fixed-point scalar; the represented value is `raw / FX_SCALE`.
#[derive(Clone, Copy, PartialEq, Eq, Structural, Debug)]
pub struct Fx {
    pub raw: i64,
}

impl View for Fx {
    type V = int;

    open spec fn view(&self) -> int {
        self.raw as int
    }
}

/// The scalar with saturated raw value `v`; the spec-level constructor that
/// every contract in the crate is phrased with.
pub open spec fn fx(v: int) -> Fx {
    Fx { raw: sat(v) as i64 }
}

/// Exact product of two `i64` values, carried out in `i128`.
fn wide_mul(a: i64, b: i64) -> (p: i128)
    ensures
        p as int == (a as int) * (b as int),
        -0x4000_0000_0000_0000_0000_0000_0000_0000 <= p as int
            <= 0x4000_0000_0000_0000_0000_0000_0000_0000,
{
    proof {
        assert((a as int) * (b as int) <= 0x4000_0000_0000_0000_0000_0000_0000_0000
            && (a as int) * (b as int) >= -0x4000_0000_0000_0000_0000_0000_0000_0000)
            by (nonlinear_arith)
            requires
                -0x8000_0000_0000_0000 <= a as int <= 0x7fff_ffff_ffff_ffff,
                -0x8000_0000_0000_0000 <= b as int <= 0x7fff_ffff_ffff_ffff,
        ;
    }
    (a as i128) * (b as i128)
}

/// Saturate an `i128` intermediate into an `i64`.
fn sat_i128(x: i128) -> (r: i64)
    ensures
        r as int == sat(x as int),
{
    if x > i64::MAX as i128 {
        i64::MAX
    } else if x < i64::MIN as i128 {
        i64::MIN
    } else {
        x as i64
    }
}

/// Floor division on `i128`, via unsigned magnitudes.
pub fn floor_div_wide(n: i128, d: i128) -> (q: i128)
    requires
        d != 0,
        n > i128::MIN,
        d > i128::MIN,
    ensures
        q as int == dfl(n as int, d as int),
{
    let nn: u128 = if n < 0 {
        (-n) as u128
    } else {
        n as u128
    };
    let dd: u128 = if d < 0 {
        (-d) as u128
    } else {
        d as u128
    };
    let q0: u128 = nn / dd;
    let r0: u128 = nn % dd;
    proof {
        lemma_fundamental_div_mod(nn as int, dd as int);
        assert(q0 as int == nn as int / dd as int);
        assert(r0 as int == nn as int % dd as int);
        assert(nn as int == dd as int * (q0 as int) + r0 as int);
        assert(r0 as int >= 0);
        assert((r0 as int) < (dd as int));
        assert(q0 as int <= nn as int) by (nonlinear_arith)
            requires
                nn as int == dd as int * (q0 as int) + r0 as int,
                dd as int >= 1,
                r0 as int >= 0,
                q0 as int >= 0,
        ;
    }
    let neg = (n < 0) != (d < 0);
    if neg {
        let qq: i128 = -(q0 as i128);
        let q: i128 = if r0 > 0 {
            qq - 1
        } else {
            qq
        };
        proof {
            let ni = n as int;
            let di = d as int;
            let m = dfl(ni, di);
            // In both mixed-sign cases the floor quotient is determined by
            // the magnitude quotient and whether the remainder vanishes.
            if di > 0 {
                // ni < 0 here.
                if r0 as int == 0 {
                    assert(ni == (-(q0 as int)) * di + 0) by (nonlinear_arith)
                        requires
                            -ni == di * (q0 as int),
                    ;
                    lemma_fundamental_div_mod_converse(ni, di, -(q0 as int), 0);
                } else {
                    assert(ni == di * (-(q0 as int) - 1) + (di - r0 as int)) by (nonlinear_arith)
                        requires
                            -ni == di * (q0 as int) + r0 as int,
                    ;
                    lemma_fundamental_div_mod_converse(ni, di, -(q0 as int) - 1, di - r0 as int);
                }
            } else {
                // di < 0, ni > 0; dfl(ni, di) == (-ni) / (-di).
                if r0 as int == 0 {
                    assert(-ni == (-(q0 as int)) * (-di) + 0) by (nonlinear_arith)
                        requires
                            ni == (-di) * (q0 as int),
                    ;
                    lemma_fundamental_div_mod_converse(-ni, -di, -(q0 as int), 0);
                } else {
                    assert(-ni == (-di) * (-(q0 as int) - 1) + ((-di) - r0 as int))
                        by (nonlinear_arith)
                        requires
                            ni == (-di) * (q0 as int) + r0 as int,
                    ;
                    lemma_fundamental_div_mod_converse(
                        -ni,
                        -di,
                        -(q0 as int) - 1,
                        (-di) - r0 as int,
                    );
                }
            }
        }
        q
    } else {
        proof {
            let ni = n as int;
            let di = d as int;
            if di > 0 {
                lemma_fundamental_div_mod_converse(ni, di, q0 as int, r0 as int);
            } else {
                lemma_fundamental_div_mod_converse(-ni, -di, q0 as int, r0 as int);
            }
        }
        q0 as i128
    }
}

impl Fx {
    /// The scalar holding exactly `raw` units.
    pub fn from_raw(raw: i64) -> (r: Fx)
        ensures
            r == (Fx { raw }),
    {
        Fx { raw }
    }

    /// The scalar representing the integer `n`, saturated.
    pub fn from_int(n: i64) -> (r: Fx)
        ensures
            r == fx(n * FX_SCALE as int),
    {
        Fx { raw: sat_i128(wide_mul(n, FX_SCALE)) }
    }

    /// Zero.
    pub fn zero() -> (r: Fx)
        ensures
            r == fx(0),
    {
        Fx { raw: 0 }
    }

    /// One.
    pub fn one() -> (r: Fx)
        ensures
            r == fx(FX_SCALE as int),
    {
        Fx { raw: FX_SCALE }
    }

    /// Saturating sum.
    pub fn add(self, o: Fx) -> (r: Fx)
        ensures
            r == fx(self@ + o@),
    {
        Fx { raw: sat_i128((self.raw as i128) + (o.raw as i128)) }
    }

    /// Saturating difference.
    pub fn sub(self, o: Fx) -> (r: Fx)
        ensures
            r == fx(self@ - o@),
    {
        Fx { raw: sat_i128((self.raw as i128) - (o.raw as i128)) }
    }

    /// Saturating negation.
    pub fn neg(self) -> (r: Fx)
        ensures
            r == fx(-self@),
    {
        Fx { raw: sat_i128(-(self.raw as i128)) }
    }

    /// Saturating fixed-point product.
    pub fn mul(self, o: Fx) -> (r: Fx)
        ensures
            r == fx(smul(self@, o@)),
    {
        let p: i128 = wide_mul(self.raw, o.raw);
        let q = floor_div_wide(p, FX_SCALE as i128);
        Fx { raw: sat_i128(q) }
    }

    /// Saturating fixed-point quotient; a zero divisor yields the saturation
    /// bound carrying the numerator's sign.
    pub fn div(self, o: Fx) -> (r: Fx)
        ensures
            r == fx(sdiv(self@, o@)),
    {
        if o.raw == 0 {
            if self.raw >= 0 {
                Fx { raw: i64::MAX }
            } else {
                Fx { raw: i64::MIN }
            }
        } else {
            let p: i128 = wide_mul(self.raw, FX_SCALE);
            let q = floor_div_wide(p, o.raw as i128);
            Fx { raw: sat_i128(q) }
        }
    }

    /// The smaller operand.
    pub fn min(self, o: Fx) -> (r: Fx)
        ensures
            r == (if self@ <= o@ { self } else { o }),
    {
        if self.raw <= o.raw {
            self
        } else {
            o
        }
    }

    /// The larger operand.
    pub fn max(self, o: Fx) -> (r: Fx)
        ensures
            r == (if self@ >= o@ { self } else { o }),
    {
        if self.raw >= o.raw {
            self
        } else {
            o
        }
    }

    /// Saturating absolute value.
    pub fn abs(self) -> (r: Fx)
        ensures
            r == (if self@ >= 0 { self } else { fx(-self@) }),
    {
        if self.raw >= 0 {
            self
        } else {
            Fx { raw: sat_i128(-(self.raw as i128)) }
        }
    }

    /// Strictly-less comparison.
    pub fn lt(self, o: Fx) -> (r: bool)
        ensures
            r == (self@ < o@),
    {
        self.raw < o.raw
    }

    /// Less-or-equal comparison.
    pub fn le(self, o: Fx) -> (r: bool)
        ensures
            r == (self@ <= o@),
    {
        self.raw <= o.raw
    }

    /// True when the scalar is negative.
    pub fn is_neg(self) -> (r: bool)
        ensures
            r == (self@ < 0),
    {
        self.raw < 0
    }

    /// Saturating product with a plain integer.
    pub fn scale_int(self, k: i64) -> (r: Fx)
        ensures
            r == fx(self@ * (k as int)),
    {
        Fx { raw: sat_i128(wide_mul(self.raw, k)) }
    }

    /// The floor square root in fixed point; non-positive arguments give zero.
    pub fn sqrt(self) -> (r: Fx)
        ensures
            r == fx(ssqrt(self@)),
    {
        if self.raw <= 0 {
            Fx { raw: 0 }
        } else {
            let n: u128 = (wide_mul(self.raw, FX_SCALE)) as u128;
            proof {
                assert((self.raw as int) * (FX_SCALE as int) < 0x1_0000_0000_0000_0000_0000
                    && (self.raw as int) * (FX_SCALE as int) > 0) by (nonlinear_arith)
                    requires
                        0 < self.raw as int <= 0x7fff_ffff_ffff_ffff,
                ;
            }
            let mut lo: u128 = 0;
            let mut hi: u128 = 0x100_0000_0000;
            proof {
                assert((0x100_0000_0000 as int) * (0x100_0000_0000 as int)
                    == 0x1_0000_0000_0000_0000_0000) by (nonlinear_arith);
            }
            while lo + 1 < hi
                invariant
                    (lo as int) * (lo as int) <= n as int,
                    (n as int) < (hi as int) * (hi as int),
                    lo < hi <= 0x100_0000_0000,
                decreases hi - lo,
            {
                let mid: u128 = lo + (hi - lo) / 2;
                proof {
                    assert((mid as int) * (mid as int) <= (0x100_0000_0000 as int) * (
                    0x100_0000_0000 as int)) by (nonlinear_arith)
                        requires
                            0 <= mid as int <= 0x100_0000_0000,
                    ;
                    assert((0x100_0000_0000 as int) * (0x100_0000_0000 as int)
                        == 0x1_0000_0000_0000_0000_0000) by (nonlinear_arith);
                }
                if mid * mid <= n {
                    lo = mid;
                } else {
                    hi = mid;
                }
            }
            proof {
                assert(is_isqrt(n as int, lo as int));
                lemma_isqrt_exists(n as int);
                lemma_isqrt_unique(n as int, lo as int, isqrt_s(n as int));
            }
            Fx { raw: lo as i64 }
        }
    }

    /// The number of whole units below the scalar: the floor of the
    /// represented value, as a plain integer.
    pub fn floor_units(self) -> (i: i64)
        ensures
            i as int == dfl(self@, FX_SCALE as int),
    {
        let q = floor_div_wide(self.raw as i128, FX_SCALE as i128);
        proof {
            lemma_fundamental_div_mod(self.raw as int, FX_SCALE as int);
        }
        q as i64
    }

    /// The fractional part: the scalar minus its floor, in `[0, 1)`.
    pub fn fract(self) -> (r: Fx)
        ensures
            r@ == self@ - dfl(self@, FX_SCALE as int) * (FX_SCALE as int),
            0 <= r@ < FX_SCALE as int,
    {
        let q = floor_div_wide(self.raw as i128, FX_SCALE as i128);
        proof {
            lemma_fundamental_div_mod(self.raw as int, FX_SCALE as int);
        }
        let rem: i128 = (self.raw as i128) - q * (FX_SCALE as i128);
        Fx { raw: rem as i64 }
    }

    /// The nearest whole number of units, rounding halves up.
    pub fn round_units(self) -> (i: i64)
        ensures
            i as int == dfl(self@ + 32768, FX_SCALE as int),
    {
        let q = floor_div_wide((self.raw as i128) + 32768, FX_SCALE as i128);
        proof {
            lemma_fundamental_div_mod(self.raw as int + 32768, FX_SCALE as int);
        }
        q as i64
    }
}

} // verus!
