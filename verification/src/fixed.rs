//! The sample type: signed 64-bit fixed-point numbers with 32 fractional
//! bits, together with saturating arithmetic whose exact integer meaning
//! every contract in the crate is stated over.
//!
//! A value `Fx { bits }` stands for the real number `bits / 2^32`.
//! Arithmetic rounds toward minus infinity (floor) and saturates at the
//! ends of the representable range instead of wrapping or failing, which
//! mirrors how real-time code must keep producing samples.

use vstd::prelude::*;

verus! {

use vstd::arithmetic::div_mod::lemma_fundamental_div_mod_converse_div;
use vstd::arithmetic::mul::lemma_mul_unary_negation;
use vstd::arithmetic::mul::lemma_mul_upper_bound;
use vstd::arithmetic::mul::lemma_mul_inequality;

/// Number of fractional bits is 32, so one whole unit is this many bits.
pub const SCALE: i64 = 0x1_0000_0000;

/// Minus one whole unit in raw bits.
pub const SCALE_NEG: i64 = -0x1_0000_0000;

/// Half a unit in raw bits; used for rounding to nearest.
pub const HALF_SCALE: i64 = 0x8000_0000;

/// Largest representable raw value.
pub const FX_MAX_BITS: i64 = 0x7fff_ffff_ffff_ffff;

/// Smallest representable raw value.
pub const FX_MIN_BITS: i64 = -0x7fff_ffff_ffff_ffff - 1;

/// A fixed-point sample: `bits / 2^32`.
#[derive(Clone, Copy, PartialEq, Eq, Structural, Debug)]
pub struct Fx {
    pub bits: i64,
}

/// Clamp an unbounded integer into the representable raw range.
pub open spec fn i64_sat(x: int) -> int {
    if x > FX_MAX_BITS as int {
        FX_MAX_BITS as int
    } else if x < FX_MIN_BITS as int {
        FX_MIN_BITS as int
    } else {
        x
    }
}

/// Floor division (round toward minus infinity) for a nonzero divisor.
/// Spec-level `/` is Euclidean, which is floor only for positive
/// divisors; this flips the signs so the divisor is always positive.
pub open spec fn fdiv(a: int, b: int) -> int
    recommends
        b != 0,
{
    if b > 0 {
        a / b
    } else {
        (-a) / (-b)
    }
}

/// Raw meaning of saturating addition.
pub open spec fn fx_add_v(a: int, b: int) -> int {
    i64_sat(a + b)
}

/// Raw meaning of saturating subtraction.
pub open spec fn fx_sub_v(a: int, b: int) -> int {
    i64_sat(a - b)
}

/// Raw meaning of saturating negation.
pub open spec fn fx_neg_v(a: int) -> int {
    i64_sat(-a)
}

/// Raw meaning of saturating absolute value.
pub open spec fn fx_abs_v(a: int) -> int {
    if a < 0 {
        i64_sat(-a)
    } else {
        a
    }
}

/// Raw meaning of fixed-point multiplication: the exact product has 64
/// fractional bits, so the result is the product floored back to 32.
pub open spec fn fx_mul_v(a: int, b: int) -> int {
    i64_sat(fdiv(a * b, SCALE as int))
}

/// Raw meaning of fixed-point division. A zero divisor saturates by the
/// sign of the dividend, the closest analogue of an infinite quotient
/// that a total function can return.
pub open spec fn fx_div_v(a: int, b: int) -> int {
    if b == 0 {
        if a > 0 {
            FX_MAX_BITS as int
        } else if a < 0 {
            FX_MIN_BITS as int
        } else {
            0
        }
    } else {
        i64_sat(fdiv(a * SCALE as int, b))
    }
}

/// Raw meaning of rounding down to a whole number of units.
pub open spec fn fx_floor_v(a: int) -> int {
    SCALE as int * (a / SCALE as int)
}

/// Raw meaning of rounding up to a whole number of units.
pub open spec fn fx_ceil_v(a: int) -> int {
    i64_sat(SCALE as int * (-((-a) / SCALE as int)))
}

/// Raw meaning of rounding to the nearest whole number of units, halves
/// away from zero.
pub open spec fn fx_round_v(a: int) -> int {
    if a >= 0 {
        i64_sat(SCALE as int * ((a + HALF_SCALE as int) / SCALE as int))
    } else {
        i64_sat(-(SCALE as int * (((-a) + HALF_SCALE as int) / SCALE as int)))
    }
}

/// Raw meaning of converting a whole number into fixed point.
pub open spec fn fx_int_v(x: int) -> int {
    i64_sat(x * SCALE as int)
}

/// Saturating addition at the value level.
pub open spec fn fxs_add(a: Fx, b: Fx) -> Fx {
    Fx { bits: fx_add_v(a.bits as int, b.bits as int) as i64 }
}

/// Saturating subtraction at the value level.
pub open spec fn fxs_sub(a: Fx, b: Fx) -> Fx {
    Fx { bits: fx_sub_v(a.bits as int, b.bits as int) as i64 }
}

/// Saturating negation at the value level.
pub open spec fn fxs_neg(a: Fx) -> Fx {
    Fx { bits: fx_neg_v(a.bits as int) as i64 }
}

/// Fixed-point multiplication at the value level.
pub open spec fn fxs_mul(a: Fx, b: Fx) -> Fx {
    Fx { bits: fx_mul_v(a.bits as int, b.bits as int) as i64 }
}

/// Fixed-point division at the value level.
pub open spec fn fxs_div(a: Fx, b: Fx) -> Fx {
    Fx { bits: fx_div_v(a.bits as int, b.bits as int) as i64 }
}

/// Absolute value at the value level.
pub open spec fn fxs_abs(a: Fx) -> Fx {
    Fx { bits: fx_abs_v(a.bits as int) as i64 }
}

/// Floor at the value level.
pub open spec fn fxs_floor(a: Fx) -> Fx {
    Fx { bits: fx_floor_v(a.bits as int) as i64 }
}

/// Square root at the value level.
pub open spec fn fxs_sqrt(a: Fx) -> Fx {
    Fx { bits: fx_sqrt_v(a.bits as int) as i64 }
}

/// Sine at the value level.
pub open spec fn fxs_sin(a: Fx) -> Fx {
    Fx { bits: fx_sin_v(a.bits as int) as i64 }
}

/// Cosine at the value level.
pub open spec fn fxs_cos(a: Fx) -> Fx {
    Fx { bits: fx_cos_v(a.bits as int) as i64 }
}

/// Two whole units, at the value level.
pub open spec fn fxs_int_two() -> Fx {
    Fx { bits: 0x2_0000_0000 }
}

/// Twenty whole units, at the value level.
pub open spec fn fxs_int_twenty() -> Fx {
    Fx { bits: 0x14_0000_0000 }
}

/// The magnitude of a raw value, as an unsigned word.
fn mag64(x: i64) -> (m: u64)
    ensures
        m as int == fx_abs_int(x as int),
{
    if x >= 0 {
        x as u64
    } else {
        let w: i128 = x as i128;
        (-w) as u64
    }
}

/// Absolute value over unbounded integers.
pub open spec fn fx_abs_int(x: int) -> int {
    if x < 0 {
        -x
    } else {
        x
    }
}

/// Rebuild a saturated signed raw value from a sign and a magnitude.
fn sat_from_parts(neg: bool, m: u128) -> (r: i64)
    ensures
        r as int == i64_sat(if neg {
            -(m as int)
        } else {
            m as int
        }),
{
    if neg {
        if m >= 0x8000_0000_0000_0000u128 {
            FX_MIN_BITS
        } else {
            let w: i128 = -(m as i128);
            w as i64
        }
    } else {
        if m > 0x7fff_ffff_ffff_ffffu128 {
            FX_MAX_BITS
        } else {
            m as i64
        }
    }
}

/// Saturating addition.
pub fn fx_add(a: Fx, b: Fx) -> (r: Fx)
    ensures
        r.bits as int == fx_add_v(a.bits as int, b.bits as int),
        r == fxs_add(a, b),
{
    if b.bits >= 0 {
        if a.bits > FX_MAX_BITS - b.bits {
            Fx { bits: FX_MAX_BITS }
        } else {
            Fx { bits: a.bits + b.bits }
        }
    } else {
        if a.bits < FX_MIN_BITS - b.bits {
            Fx { bits: FX_MIN_BITS }
        } else {
            Fx { bits: a.bits + b.bits }
        }
    }
}

/// Saturating subtraction.
pub fn fx_sub(a: Fx, b: Fx) -> (r: Fx)
    ensures
        r.bits as int == fx_sub_v(a.bits as int, b.bits as int),
        r == fxs_sub(a, b),
{
    if b.bits >= 0 {
        if a.bits < FX_MIN_BITS + b.bits {
            Fx { bits: FX_MIN_BITS }
        } else {
            Fx { bits: a.bits - b.bits }
        }
    } else {
        if a.bits > FX_MAX_BITS + b.bits {
            Fx { bits: FX_MAX_BITS }
        } else {
            Fx { bits: a.bits - b.bits }
        }
    }
}

/// Saturating negation.
pub fn fx_neg(a: Fx) -> (r: Fx)
    ensures
        r.bits as int == fx_neg_v(a.bits as int),
        r == fxs_neg(a),
{
    if a.bits == FX_MIN_BITS {
        Fx { bits: FX_MAX_BITS }
    } else {
        Fx { bits: -a.bits }
    }
}

/// The sign of the product of two raw values, and their product as a
/// sign and magnitude pair.
proof fn lemma_signed_product(a: int, b: int)
    ensures
        a >= 0 && b >= 0 ==> a * b == fx_abs_int(a) * fx_abs_int(b),
        a >= 0 && b < 0 ==> a * b == -(fx_abs_int(a) * fx_abs_int(b)),
        a < 0 && b >= 0 ==> a * b == -(fx_abs_int(a) * fx_abs_int(b)),
        a < 0 && b < 0 ==> a * b == fx_abs_int(a) * fx_abs_int(b),
{
    if a >= 0 && b < 0 {
        lemma_mul_unary_negation(a, b);
        assert(a * (-b) == -(a * b));
    } else if a < 0 && b >= 0 {
        lemma_mul_unary_negation(a, b);
        assert((-a) * b == -(a * b));
    } else if a < 0 && b < 0 {
        lemma_mul_unary_negation(a, b);
        lemma_mul_unary_negation(-a, b);
        assert((-a) * (-b) == -((-a) * b));
        assert((-a) * b == -(a * b));
    }
}

/// Floor division of a signed value, given as sign and magnitude, by a
/// positive divisor, expressed through the Euclidean quotient of the
/// magnitudes.
proof fn lemma_fdiv_parts(neg: bool, p: int, d: int)
    requires
        p >= 0,
        d > 0,
    ensures
        !neg ==> fdiv(p, d) == p / d,
        neg ==> fdiv(-p, d) == if p % d == 0 {
            -(p / d)
        } else {
            -(p / d + 1)
        },
{
    let q = p / d;
    let r = p % d;
    vstd::arithmetic::div_mod::lemma_fundamental_div_mod(p, d);
    if neg {
        if r == 0 {
            assert(-p == (-q) * d + 0) by {
                lemma_mul_unary_negation(q, d);
            }
            lemma_fundamental_div_mod_converse_div(-p, d, -q, 0);
        } else {
            assert(-p == (-q - 1) * d + (d - r)) by {
                lemma_mul_unary_negation(q, d);
                assert((-q - 1) * d == (-q) * d + (-1) * d) by {
                    vstd::arithmetic::mul::lemma_mul_is_distributive_add_other_way(d, -q, -1);
                }
            }
            lemma_fundamental_div_mod_converse_div(-p, d, -q - 1, d - r);
        }
    }
}

/// Saturating fixed-point multiplication.
pub fn fx_mul(a: Fx, b: Fx) -> (r: Fx)
    ensures
        r.bits as int == fx_mul_v(a.bits as int, b.bits as int),
        r == fxs_mul(a, b),
{
    let ghost av: int = a.bits as int;
    let ghost bv: int = b.bits as int;
    let neg: bool = (a.bits < 0) != (b.bits < 0);
    let ma: u64 = mag64(a.bits);
    let mb: u64 = mag64(b.bits);
    proof {
        lemma_mul_upper_bound(ma as int, 0x8000_0000_0000_0000, mb as int, 0x8000_0000_0000_0000);
    }
    let p: u128 = (ma as u128) * (mb as u128);
    let q: u128 = p / 0x1_0000_0000u128;
    let rem: u128 = p % 0x1_0000_0000u128;
    let mag: u128 = if neg && rem != 0 {
        q + 1
    } else {
        q
    };
    proof {
        lemma_signed_product(av, bv);
        lemma_fdiv_parts(neg, p as int, SCALE as int);
        if neg {
            assert(av * bv == -(p as int));
        } else {
            assert(av * bv == p as int);
        }
    }
    Fx { bits: sat_from_parts(neg, mag) }
}

/// Saturating fixed-point division. A zero divisor saturates by the
/// sign of the dividend.
pub fn fx_div(a: Fx, b: Fx) -> (r: Fx)
    ensures
        r.bits as int == fx_div_v(a.bits as int, b.bits as int),
        r == fxs_div(a, b),
{
    if b.bits == 0 {
        if a.bits > 0 {
            Fx { bits: FX_MAX_BITS }
        } else if a.bits < 0 {
            Fx { bits: FX_MIN_BITS }
        } else {
            Fx { bits: 0 }
        }
    } else {
        let ghost av: int = a.bits as int;
        let ghost bv: int = b.bits as int;
        let neg: bool = (a.bits < 0) != (b.bits < 0);
        let ma: u64 = mag64(a.bits);
        let mb: u64 = mag64(b.bits);
        let p: u128 = (ma as u128) * 0x1_0000_0000u128;
        let q: u128 = p / (mb as u128);
        let rem: u128 = p % (mb as u128);
        let mag: u128 = if neg && rem != 0 {
            q + 1
        } else {
            q
        };
        proof {
            let d: int = fx_abs_int(bv);
            let pv: int = p as int;
            assert(pv == (ma as int) * 0x1_0000_0000);
            assert(av * SCALE as int == if av >= 0 {
                pv
            } else {
                -pv
            });
            lemma_fdiv_parts(neg, pv, d);
            if bv > 0 {
                assert(fdiv(av * SCALE as int, bv) == if neg {
                    fdiv(-pv, d)
                } else {
                    fdiv(pv, d)
                });
            } else {
                assert(fdiv(av * SCALE as int, bv) == (-(av * SCALE as int)) / d);
                assert(fdiv(av * SCALE as int, bv) == if neg {
                    fdiv(-pv, d)
                } else {
                    fdiv(pv, d)
                });
            }
        }
        Fx { bits: sat_from_parts(neg, mag) }
    }
}

/// One whole unit converted to fixed point, ready to use as a value.
pub fn fx_one() -> (r: Fx)
    ensures
        r.bits == SCALE,
{
    Fx { bits: SCALE }
}

/// Zero.
pub fn fx_zero() -> (r: Fx)
    ensures
        r.bits == 0,
{
    Fx { bits: 0 }
}

/// Convert a whole number into fixed point, saturating.
pub fn fx_int(x: i64) -> (r: Fx)
    ensures
        r.bits as int == fx_int_v(x as int),
{
    if x >= 0x8000_0000i64 {
        Fx { bits: FX_MAX_BITS }
    } else if x < -0x8000_0000i64 {
        Fx { bits: FX_MIN_BITS }
    } else {
        Fx { bits: x * SCALE }
    }
}

/// Round down to a whole number of units.
pub fn fx_floor(a: Fx) -> (r: Fx)
    ensures
        r.bits as int == fx_floor_v(a.bits as int),
        r == fxs_floor(a),
{
    if a.bits >= 0 {
        let q: u64 = (a.bits as u64) / 0x1_0000_0000u64;
        Fx { bits: (q as i64) * SCALE }
    } else {
        let m: u64 = mag64(a.bits);
        let q: u64 = m / 0x1_0000_0000u64;
        let rem: u64 = m % 0x1_0000_0000u64;
        let mag: u64 = if rem == 0 {
            q
        } else {
            q + 1
        };
        proof {
            lemma_fdiv_parts(true, m as int, SCALE as int);
        }
        let w: i128 = -((mag as i128) * 0x1_0000_0000i128);
        Fx { bits: w as i64 }
    }
}

/// Round up to a whole number of units, saturating at the top.
pub fn fx_ceil(a: Fx) -> (r: Fx)
    ensures
        r.bits as int == fx_ceil_v(a.bits as int),
{
    if a.bits <= 0 {
        let m: u64 = mag64(a.bits);
        let q: u64 = m / 0x1_0000_0000u64;
        let w: i128 = -((q as i128) * 0x1_0000_0000i128);
        Fx { bits: w as i64 }
    } else {
        let q: u64 = (a.bits as u64) / 0x1_0000_0000u64;
        let rem: u64 = (a.bits as u64) % 0x1_0000_0000u64;
        let mag: u64 = if rem == 0 {
            q
        } else {
            q + 1
        };
        proof {
            lemma_fdiv_parts(true, a.bits as int, SCALE as int);
        }
        Fx { bits: sat_from_parts(false, (mag as u128) * 0x1_0000_0000u128) }
    }
}

/// Round to the nearest whole number of units, halves away from zero.
pub fn fx_round(a: Fx) -> (r: Fx)
    ensures
        r.bits as int == fx_round_v(a.bits as int),
{
    if a.bits >= 0 {
        let t: u64 = (a.bits as u64) + 0x8000_0000u64;
        let q: u64 = t / 0x1_0000_0000u64;
        Fx { bits: sat_from_parts(false, (q as u128) * 0x1_0000_0000u128) }
    } else {
        let m: u64 = mag64(a.bits);
        let t: u64 = m + 0x8000_0000u64;
        let q: u64 = t / 0x1_0000_0000u64;
        Fx { bits: sat_from_parts(true, (q as u128) * 0x1_0000_0000u128) }
    }
}

/// Floor of the square root of a nonnegative integer, defined by
/// counting up; the executable search is proved to agree with it.
pub open spec fn sqrt_floor(n: int) -> int
    decreases n,
{
    if n <= 0 {
        0
    } else {
        let r = sqrt_floor(n - 1);
        if (r + 1) * (r + 1) <= n {
            r + 1
        } else {
            r
        }
    }
}

/// `sqrt_floor` really is the floor of the square root.
pub proof fn lemma_sqrt_floor(n: int)
    requires
        n >= 0,
    ensures
        sqrt_floor(n) >= 0,
        sqrt_floor(n) * sqrt_floor(n) <= n,
        n < (sqrt_floor(n) + 1) * (sqrt_floor(n) + 1),
    decreases n,
{
    if n == 0 {
    } else {
        lemma_sqrt_floor(n - 1);
        let r0 = sqrt_floor(n - 1);
        if (r0 + 1) * (r0 + 1) <= n {
            assert((r0 + 1 + 1) * (r0 + 1 + 1) > (r0 + 1) * (r0 + 1)) by (nonlinear_arith)
                requires
                    r0 >= 0,
            ;
        }
    }
}

/// Any nonnegative value whose square brackets `n` is `sqrt_floor(n)`.
pub proof fn lemma_sqrt_floor_unique(n: int, q: int)
    requires
        n >= 0,
        q >= 0,
        q * q <= n,
        n < (q + 1) * (q + 1),
    ensures
        q == sqrt_floor(n),
{
    lemma_sqrt_floor(n);
    let r = sqrt_floor(n);
    if q < r {
        assert((q + 1) * (q + 1) <= r * r) by (nonlinear_arith)
            requires
                0 <= q,
                q < r,
        ;
    }
    if q > r {
        assert((r + 1) * (r + 1) <= q * q) by (nonlinear_arith)
            requires
                0 <= r,
                r < q,
        ;
    }
}

/// Raw meaning of the fixed-point square root: the floor of the square
/// root of the value, zero for anything nonpositive.
pub open spec fn fx_sqrt_v(a: int) -> int {
    if a <= 0 {
        0
    } else {
        sqrt_floor(a * SCALE as int)
    }
}

/// Fixed-point square root by bisection. A negative argument gives
/// zero, the natural total extension for a real-time kernel.
pub fn fx_sqrt(a: Fx) -> (r: Fx)
    ensures
        r.bits as int == fx_sqrt_v(a.bits as int),
        r == fxs_sqrt(a),
{
    if a.bits <= 0 {
        Fx { bits: 0 }
    } else {
        let n: u128 = (a.bits as u128) * 0x1_0000_0000u128;
        let mut lo: u128 = 0;
        let mut hi: u128 = 0x1_0000_0000_0000u128;
        proof {
            assert(n < 0x1_0000_0000_0000u128 * 0x1_0000_0000_0000u128);
        }
        while lo + 1 < hi
            invariant
                lo < hi <= 0x1_0000_0000_0000u128,
                lo * lo <= n,
                n < hi * hi,
            decreases hi - lo,
        {
            let mid: u128 = lo + (hi - lo) / 2;
            proof {
                lemma_mul_upper_bound(mid as int, 0x1_0000_0000_0000, mid as int, 0x1_0000_0000_0000);
            }
            if mid * mid <= n {
                lo = mid;
            } else {
                hi = mid;
            }
        }
        proof {
            lemma_sqrt_floor_unique(n as int, lo as int);
        }
        Fx { bits: lo as i64 }
    }
}

/// Multiplying by one whole unit is exact: the scale cancels.
pub proof fn lemma_fx_mul_one(x: int)
    requires
        FX_MIN_BITS as int <= x <= FX_MAX_BITS as int,
    ensures
        fx_mul_v(SCALE as int, x) == x,
        fx_mul_v(x, SCALE as int) == x,
{
    vstd::arithmetic::div_mod::lemma_div_multiples_vanish(x, SCALE as int);
    vstd::arithmetic::mul::lemma_mul_is_commutative(SCALE as int, x);
}

/// A product of bounded factors multiplies without saturating, and
/// the result keeps the bound of the non-unit factor when the other
/// factor is at most one whole unit in magnitude.
pub proof fn lemma_fx_mul_exact_bound(a: int, c: int, ba: int)
    requires
        fx_abs_int(a) <= ba,
        fx_abs_int(c) <= SCALE as int,
        0 <= ba <= FX_MAX_BITS as int,
    ensures
        fx_mul_v(a, c) == fdiv(a * c, SCALE as int),
        fx_abs_int(fx_mul_v(a, c)) <= ba,
{
    let s = SCALE as int;
    lemma_signed_product(a, c);
    vstd::arithmetic::mul::lemma_mul_nonnegative(fx_abs_int(a), fx_abs_int(c));
    lemma_mul_upper_bound(fx_abs_int(a), ba, fx_abs_int(c), s);
    assert(fx_abs_int(a * c) <= ba * s);
    vstd::arithmetic::div_mod::lemma_div_is_ordered(a * c, ba * s, s);
    vstd::arithmetic::div_mod::lemma_div_multiples_vanish(ba, s);
    vstd::arithmetic::mul::lemma_mul_is_commutative(ba, s);
    vstd::arithmetic::div_mod::lemma_div_is_ordered(-(ba * s), a * c, s);
    vstd::arithmetic::div_mod::lemma_div_multiples_vanish(-ba, s);
    assert(s * (-ba) == -(ba * s)) by {
        lemma_mul_unary_negation(ba, s);
        vstd::arithmetic::mul::lemma_mul_is_commutative(s, -ba);
    }
}

/// Multiplying a sum by a bounded coefficient differs from the sum of
/// the two products by at most one raw unit: the two floors lose at
/// most one unit between them.
pub proof fn lemma_fx_mul_distributes(a: int, b: int, c: int, bb: int)
    requires
        fx_abs_int(a) <= bb,
        fx_abs_int(b) <= bb,
        fx_abs_int(c) <= SCALE as int,
        0 <= bb,
        2 * bb <= FX_MAX_BITS as int,
    ensures
        fx_mul_v(a, c) + fx_mul_v(b, c) <= fx_mul_v(a + b, c),
        fx_mul_v(a + b, c) <= fx_mul_v(a, c) + fx_mul_v(b, c) + 1,
{
    let s = SCALE as int;
    lemma_fx_mul_exact_bound(a, c, bb);
    lemma_fx_mul_exact_bound(b, c, bb);
    lemma_fx_mul_exact_bound(a + b, c, 2 * bb);
    let q1 = (a * c) / s;
    let r1 = (a * c) % s;
    let q2 = (b * c) / s;
    let r2 = (b * c) % s;
    vstd::arithmetic::div_mod::lemma_fundamental_div_mod(a * c, s);
    vstd::arithmetic::div_mod::lemma_fundamental_div_mod(b * c, s);
    assert((a + b) * c == a * c + b * c) by {
        vstd::arithmetic::mul::lemma_mul_is_distributive_add_other_way(c, a, b);
    }
    if r1 + r2 < s {
        assert((a + b) * c == (q1 + q2) * s + (r1 + r2)) by {
            vstd::arithmetic::mul::lemma_mul_is_distributive_add_other_way(s, q1, q2);
        }
        lemma_fundamental_div_mod_converse_div((a + b) * c, s, q1 + q2, r1 + r2);
    } else {
        assert((a + b) * c == (q1 + q2 + 1) * s + (r1 + r2 - s)) by {
            vstd::arithmetic::mul::lemma_mul_is_distributive_add_other_way(s, q1, q2);
            vstd::arithmetic::mul::lemma_mul_is_distributive_add_other_way(s, q1 + q2, 1);
        }
        lemma_fundamental_div_mod_converse_div((a + b) * c, s, q1 + q2 + 1, r1 + r2 - s);
    }
}

/// A quarter turn, pi/4, in raw bits. The other angle constants are
/// exact multiples of it, which keeps the quadrant symmetries of the
/// sine exact in fixed point.
pub const FX_QUARTER_PI: i64 = 3373259426;

/// Half pi in raw bits.
pub const FX_HALF_PI: i64 = 2 * FX_QUARTER_PI;

/// Pi in raw bits.
pub const FX_PI: i64 = 4 * FX_QUARTER_PI;

/// Two pi in raw bits.
pub const FX_TAU: i64 = 8 * FX_QUARTER_PI;

/// Four pi in raw bits.
pub const FX_FOUR_PI: i64 = 16 * FX_QUARTER_PI;

/// Odd polynomial coefficients for the sine on one quarter wave,
/// `sin(pi/2 * v) ~ v*(A - v^2*(B - v^2*(C - v^2*D)))` for `v` in 0..1.
/// `D` is chosen so the alternating sum is exactly one, making the
/// polynomial hit one exactly at the end of the quarter.
pub const SIN_A: i64 = FX_HALF_PI;

/// Cubic coefficient of the quarter-wave sine.
pub const SIN_B: i64 = 2774394673;

/// Fifth-power coefficient of the quarter-wave sine.
pub const SIN_C: i64 = 342277223;

/// Seventh-power coefficient; fixed by the endpoint condition.
pub const SIN_D: i64 = SIN_A - SIN_B + SIN_C - SCALE;

/// Raw meaning of the quarter-wave sine at position `v` in `0..SCALE`:
/// the Horner evaluation of the odd polynomial, clamped into the unit
/// range.
pub open spec fn sin_quarter_v(v: int) -> int {
    let v2 = fx_mul_v(v, v);
    let t1 = fx_sub_v(SIN_C as int, fx_mul_v(v2, SIN_D as int));
    let t2 = fx_sub_v(SIN_B as int, fx_mul_v(v2, t1));
    let t3 = fx_sub_v(SIN_A as int, fx_mul_v(v2, t2));
    let s = fx_mul_v(v, t3);
    if s < 0 {
        0
    } else if s > SCALE as int {
        SCALE as int
    } else {
        s
    }
}

/// Raw meaning of the sine: reduce into one turn, pick the quadrant,
/// and evaluate the quarter wave with the appropriate mirroring.
pub open spec fn fx_sin_v(x: int) -> int {
    let t = x % (FX_TAU as int);
    let q = t / (FX_HALF_PI as int);
    let u = t % (FX_HALF_PI as int);
    let v = (u * SCALE as int) / (FX_HALF_PI as int);
    if q == 0 {
        sin_quarter_v(v)
    } else if q == 1 {
        sin_quarter_v(SCALE as int - v)
    } else if q == 2 {
        -sin_quarter_v(v)
    } else {
        -sin_quarter_v(SCALE as int - v)
    }
}

/// Raw meaning of the cosine: the sine a quarter turn later.
pub open spec fn fx_cos_v(x: int) -> int {
    fx_sin_v(fx_add_v(x, FX_HALF_PI as int))
}

/// The quarter-wave polynomial stays inside the unit range, by its
/// final clamp.
pub proof fn lemma_sin_quarter_range(v: int)
    ensures
        0 <= sin_quarter_v(v) <= SCALE as int,
{
}

/// On the first quadrant the sine lies in the unit range.
pub proof fn lemma_sin_first_quadrant(x: int)
    requires
        0 <= x <= FX_HALF_PI as int,
    ensures
        0 <= fx_sin_v(x) <= SCALE as int,
{
    let hp = FX_HALF_PI as int;
    let tau = FX_TAU as int;
    vstd::arithmetic::div_mod::lemma_small_mod(x as nat, tau as nat);
    if x < hp {
        vstd::arithmetic::div_mod::lemma_basic_div(x, hp);
        vstd::arithmetic::div_mod::lemma_small_mod(x as nat, hp as nat);
        vstd::arithmetic::div_mod::lemma_div_pos_is_pos(x * SCALE as int, hp);
        lemma_sin_quarter_range((x * SCALE as int) / hp);
    } else {
        lemma_fundamental_div_mod_converse_div(x, hp, 1, 0);
        vstd::arithmetic::div_mod::lemma_fundamental_div_mod_converse_mod(x, hp, 1, 0);
        lemma_sin_quarter_range(SCALE as int - 0);
    }
}

/// On the second quadrant the sine also lies in the unit range.
pub proof fn lemma_sin_second_quadrant(y: int)
    requires
        FX_HALF_PI as int <= y <= FX_PI as int,
    ensures
        0 <= fx_sin_v(y) <= SCALE as int,
{
    let hp = FX_HALF_PI as int;
    let pi = FX_PI as int;
    let tau = FX_TAU as int;
    vstd::arithmetic::div_mod::lemma_small_mod(y as nat, tau as nat);
    if y < pi {
        lemma_fundamental_div_mod_converse_div(y, hp, 1, y - hp);
        vstd::arithmetic::div_mod::lemma_fundamental_div_mod_converse_mod(y, hp, 1, y - hp);
        let u = y - hp;
        vstd::arithmetic::div_mod::lemma_div_pos_is_pos(u * SCALE as int, hp);
        vstd::arithmetic::div_mod::lemma_multiply_divide_lt(u * SCALE as int, hp, SCALE as int);
        lemma_sin_quarter_range(SCALE as int - (u * SCALE as int) / hp);
    } else {
        lemma_fundamental_div_mod_converse_div(y, hp, 2, 0);
        vstd::arithmetic::div_mod::lemma_fundamental_div_mod_converse_mod(y, hp, 2, 0);
        assert(sin_quarter_v((0 * SCALE as int) / hp) == 0) by {
            broadcast use vstd::arithmetic::mul::lemma_mul_by_zero_is_zero;

        }
    }
}

/// Euclidean remainder of a raw value by a positive modulus.
fn emod_u(x: i64, m: u64) -> (r: u64)
    requires
        m > 0,
    ensures
        r as int == (x as int) % (m as int),
{
    if x >= 0 {
        (x as u64) % m
    } else {
        let mg: u64 = mag64(x);
        let rm: u64 = mg % m;
        proof {
            let mi = m as int;
            let qq = (mg as int) / mi;
            vstd::arithmetic::div_mod::lemma_fundamental_div_mod(mg as int, mi);
            if rm == 0 {
                assert(-(mg as int) == (-qq) * mi + 0) by {
                    lemma_mul_unary_negation(qq, mi);
                    vstd::arithmetic::mul::lemma_mul_is_commutative(qq, mi);
                }
                vstd::arithmetic::div_mod::lemma_fundamental_div_mod_converse_mod(
                    -(mg as int),
                    mi,
                    -qq,
                    0,
                );
            } else {
                assert(-(mg as int) == (-qq - 1) * mi + (mi - rm as int)) by {
                    lemma_mul_unary_negation(qq, mi);
                    assert((-qq - 1) * mi == (-qq) * mi + (-1) * mi) by {
                        vstd::arithmetic::mul::lemma_mul_is_distributive_add_other_way(
                            mi,
                            -qq,
                            -1,
                        );
                    }
                }
                vstd::arithmetic::div_mod::lemma_fundamental_div_mod_converse_mod(
                    -(mg as int),
                    mi,
                    -qq - 1,
                    mi - rm as int,
                );
            }
        }
        if rm == 0 {
            0
        } else {
            m - rm
        }
    }
}

/// Quarter-wave sine on a position in `0..SCALE`.
fn sin_quarter(v: Fx) -> (r: Fx)
    ensures
        r.bits as int == sin_quarter_v(v.bits as int),
{
    let v2 = fx_mul(v, v);
    let t1 = fx_sub(Fx { bits: SIN_C }, fx_mul(v2, Fx { bits: SIN_D }));
    let t2 = fx_sub(Fx { bits: SIN_B }, fx_mul(v2, t1));
    let t3 = fx_sub(Fx { bits: SIN_A }, fx_mul(v2, t2));
    let s = fx_mul(v, t3);
    if s.bits < 0 {
        Fx { bits: 0 }
    } else if s.bits > SCALE {
        Fx { bits: SCALE }
    } else {
        s
    }
}

/// Fixed-point sine of an angle in radians.
pub fn fx_sin(x: Fx) -> (r: Fx)
    ensures
        r.bits as int == fx_sin_v(x.bits as int),
        r == fxs_sin(x),
{
    let t: u64 = emod_u(x.bits, FX_TAU as u64);
    let qd: u64 = t / (FX_HALF_PI as u64);
    let u: u64 = t % (FX_HALF_PI as u64);
    proof {
        vstd::arithmetic::div_mod::lemma_multiply_divide_lt(
            u as int * 0x1_0000_0000,
            FX_HALF_PI as int,
            0x1_0000_0000,
        );
    }
    let v: i64 = (((u as u128) * 0x1_0000_0000u128) / (FX_HALF_PI as u128)) as i64;
    proof {
        assert(0 <= v && v < SCALE);
    }
    if qd == 0 {
        sin_quarter(Fx { bits: v })
    } else if qd == 1 {
        sin_quarter(Fx { bits: SCALE - v })
    } else if qd == 2 {
        fx_neg(sin_quarter(Fx { bits: v }))
    } else {
        fx_neg(sin_quarter(Fx { bits: SCALE - v }))
    }
}

/// Fixed-point cosine of an angle in radians.
pub fn fx_cos(x: Fx) -> (r: Fx)
    ensures
        r.bits as int == fx_cos_v(x.bits as int),
        r == fxs_cos(x),
{
    fx_sin(fx_add(x, Fx { bits: FX_HALF_PI }))
}

/// The natural logarithm of two, in raw bits.
pub const FX_LN_2: i64 = 2977044472;

/// The natural logarithm of ten, in raw bits.
pub const FX_LN_10: i64 = 9889527671;

/// Powers of two over the integers.
pub open spec fn pow2i(k: int) -> int
    decreases k,
{
    if k <= 0 {
        1
    } else {
        2 * pow2i(k - 1)
    }
}

/// The top power of two a signed word can hold, by value.
proof fn lemma_pow2i_63()
    ensures
        pow2i(63) == 0x8000_0000_0000_0000,
{
    reveal_with_fuel(pow2i, 64);
}

/// Small powers of two stay within a 64-bit word.
proof fn lemma_pow2i_bound(k: int)
    requires
        0 <= k <= 63,
    ensures
        1 <= pow2i(k) <= 0x8000_0000_0000_0000,
{
    lemma_pow2i_pos(k);
    lemma_pow2i_mono(k, 63);
    lemma_pow2i_63();
}

/// A power of two below a word-sized bound has a small exponent.
proof fn lemma_pow2i_counts(c: int, m: int)
    requires
        0 <= c,
        pow2i(c) <= m,
        m < 0x8000_0000_0000_0000,
    ensures
        c <= 62,
{
    if c >= 63 {
        lemma_pow2i_mono(63, c);
        lemma_pow2i_63();
    }
}

/// Powers of two grow with the exponent.
proof fn lemma_pow2i_mono(a: int, b: int)
    requires
        0 <= a <= b,
    ensures
        pow2i(a) <= pow2i(b),
    decreases b - a,
{
    if a < b {
        lemma_pow2i_mono(a, b - 1);
        assert(pow2i(b - 1) >= 1) by {
            lemma_pow2i_pos(b - 1);
        }
    }
}

/// Powers of two are positive.
proof fn lemma_pow2i_pos(k: int)
    ensures
        pow2i(k) >= 1,
    decreases k,
{
    if k > 0 {
        lemma_pow2i_pos(k - 1);
    }
}

/// A small power of two as an unsigned word.
fn pow2u(k: u64) -> (r: u64)
    requires
        k <= 63,
    ensures
        r as int == pow2i(k as int),
        r >= 1,
    decreases k,
{
    if k == 0 {
        1
    } else {
        let h = pow2u(k - 1);
        proof {
            lemma_pow2i_bound(k as int - 1);
            lemma_pow2i_bound(k as int);
        }
        h * 2
    }
}

/// Floor division of a raw value by a positive unsigned divisor.
pub(crate) fn fdiv_u(a: i64, b: u64) -> (r: i64)
    requires
        b > 0,
    ensures
        r as int == fdiv(a as int, b as int),
{
    if a >= 0 {
        proof {
            vstd::arithmetic::div_mod::lemma_div_nonincreasing(a as int, b as int);
        }
        ((a as u64) / b) as i64
    } else {
        let m: u64 = mag64(a);
        let q: u64 = m / b;
        let rm: u64 = m % b;
        proof {
            lemma_fdiv_parts(true, m as int, b as int);
            vstd::arithmetic::div_mod::lemma_fundamental_div_mod(m as int, b as int);
            if rm != 0 {
                assert(b >= 2);
                assert(q as int <= (m as int) / 2) by {
                    vstd::arithmetic::div_mod::lemma_div_is_ordered_by_denominator(
                        m as int,
                        2,
                        b as int,
                    );
                }
            }
        }
        if rm == 0 {
            let w: i128 = -(q as i128);
            w as i64
        } else {
            let w: i128 = -((q + 1) as i128);
            w as i64
        }
    }
}

/// Saturate a wide intermediate back into the raw range.
pub(crate) fn sat128(w: i128) -> (r: i64)
    ensures
        r as int == i64_sat(w as int),
{
    if w > 0x7fff_ffff_ffff_ffffi128 {
        FX_MAX_BITS
    } else if w < -0x8000_0000_0000_0000i128 {
        FX_MIN_BITS
    } else {
        w as i64
    }
}

/// The truncated Taylor series of the exponential on one reduced
/// argument, in Horner form from term `k` up.
pub open spec fn exp_series_v(r: int, k: int) -> int
    decreases 14 - k,
{
    if k >= 14 || k < 1 {
        SCALE as int
    } else {
        fx_add_v(SCALE as int, fdiv(fx_mul_v(r, exp_series_v(r, k + 1)), k))
    }
}

/// Raw meaning of the exponential: reduce by the logarithm of two,
/// evaluate the series on the remainder in `0..ln 2`, and scale by a
/// power of two, saturating at both ends of the range.
pub open spec fn fx_exp_v(x: int) -> int {
    let n = fdiv(x, FX_LN_2 as int);
    let r = x - n * FX_LN_2 as int;
    let e = exp_series_v(r, 1);
    if n >= 35 {
        FX_MAX_BITS as int
    } else if n <= -64 {
        0
    } else if n >= 0 {
        i64_sat(e * pow2i(n))
    } else {
        fdiv(e, pow2i(-n))
    }
}

/// Exponential at the value level.
pub open spec fn fxs_exp(a: Fx) -> Fx {
    Fx { bits: fx_exp_v(a.bits as int) as i64 }
}

/// The exponential series, evaluated exactly as specified.
fn exp_series(r: Fx, k: i64) -> (res: Fx)
    requires
        1 <= k <= 14,
    ensures
        res.bits as int == exp_series_v(r.bits as int, k as int),
    decreases 14 - k,
{
    if k >= 14 {
        Fx { bits: SCALE }
    } else {
        let tail = exp_series(r, k + 1);
        let t = fx_mul(r, tail);
        let d = fdiv_u(t.bits, k as u64);
        fx_add(Fx { bits: SCALE }, Fx { bits: d })
    }
}

/// Fixed-point exponential.
pub fn fx_exp(x: Fx) -> (res: Fx)
    ensures
        res.bits as int == fx_exp_v(x.bits as int),
        res == fxs_exp(x),
{
    let n: i64 = fdiv_u(x.bits, FX_LN_2 as u64);
    proof {
        vstd::arithmetic::div_mod::lemma_fundamental_div_mod(x.bits as int, FX_LN_2 as int);
    }
    let rw: i128 = (x.bits as i128) - (n as i128) * (FX_LN_2 as i128);
    let r = Fx { bits: rw as i64 };
    let e = exp_series(r, 1);
    if n >= 35 {
        Fx { bits: FX_MAX_BITS }
    } else if n <= -64 {
        Fx { bits: 0 }
    } else if n >= 0 {
        let p = pow2u(n as u64);
        proof {
            lemma_pow2i_bound(n as int);
            lemma_signed_product(e.bits as int, p as int);
            lemma_mul_upper_bound(
                fx_abs_int(e.bits as int),
                0x8000_0000_0000_0000,
                fx_abs_int(p as int),
                0x8000_0000_0000_0000,
            );
        }
        let w: i128 = (e.bits as i128) * (p as i128);
        Fx { bits: sat128(w) }
    } else {
        let p = pow2u((-n) as u64);
        Fx { bits: fdiv_u(e.bits, p) }
    }
}

/// Halve until the mantissa is below two whole units.
pub open spec fn half_norm(m: int) -> int
    decreases m,
{
    if m >= 2 * SCALE as int {
        half_norm(m / 2)
    } else {
        m
    }
}

/// How many halvings that takes.
pub open spec fn half_count(m: int) -> int
    decreases m,
{
    if m >= 2 * SCALE as int {
        half_count(m / 2) + 1
    } else {
        0
    }
}

/// Double until the mantissa reaches one whole unit.
pub open spec fn dbl_norm(m: int) -> int
    decreases 2 * SCALE as int - m,
{
    if 0 < m < SCALE as int {
        dbl_norm(2 * m)
    } else {
        m
    }
}

/// How many doublings that takes.
pub open spec fn dbl_count(m: int) -> int
    decreases 2 * SCALE as int - m,
{
    if 0 < m < SCALE as int {
        dbl_count(2 * m) + 1
    } else {
        0
    }
}

/// The truncated series for the inverse hyperbolic tangent: odd
/// reciprocal coefficients, in Horner form from term `k` up.
pub open spec fn atanh_series_v(t2: int, k: int) -> int
    decreases 24 - k,
{
    if k >= 23 || k < 1 {
        0
    } else {
        fx_add_v(fdiv(SCALE as int, k), fx_mul_v(t2, atanh_series_v(t2, k + 2)))
    }
}

/// Normalization into one octave, executably: halve to below two
/// units, counting the halvings.
fn half_norm_e(m: i64) -> (res: (i64, i64))
    requires
        m > 0,
    ensures
        res.0 as int == half_norm(m as int),
        res.1 as int == half_count(m as int),
        0 < res.0 < 2 * SCALE,
        0 <= res.1,
        pow2i(res.1 as int) <= m as int,
    decreases m,
{
    if m >= 2 * SCALE {
        let m2: i64 = ((m as u64) / 2) as i64;
        let h = half_norm_e(m2);
        proof {
            lemma_pow2i_counts(h.1 as int, m2 as int);
            vstd::arithmetic::div_mod::lemma_fundamental_div_mod(m as int, 2);
            assert(pow2i(h.1 as int + 1) == 2 * pow2i(h.1 as int));
        }
        (h.0, h.1 + 1)
    } else {
        proof {
            assert(pow2i(0) == 1);
        }
        (m, 0)
    }
}

/// Normalization into one octave, executably: double to at least one
/// unit, counting the doublings.
fn dbl_norm_e(m: i64) -> (res: (i64, i64))
    requires
        0 < m < 2 * SCALE,
    ensures
        res.0 as int == dbl_norm(m as int),
        res.1 as int == dbl_count(m as int),
        SCALE <= res.0 < 2 * SCALE,
        0 <= res.1,
        res.0 as int == m as int * pow2i(res.1 as int),
    decreases 2 * SCALE - m,
{
    if m < SCALE {
        let h = dbl_norm_e(m * 2);
        proof {
            let p = pow2i(h.1 as int);
            assert((2 * m) * p == m * (2 * p)) by {
                vstd::arithmetic::mul::lemma_mul_is_associative(2, m as int, p);
                vstd::arithmetic::mul::lemma_mul_is_associative(m as int, 2, p);
                vstd::arithmetic::mul::lemma_mul_is_commutative(2, m as int);
            }
            assert(p <= (2 * m as int) * p) by {
                lemma_pow2i_pos(h.1 as int);
                lemma_mul_inequality(1, 2 * m as int, p);
            }
            lemma_pow2i_counts(h.1 as int, h.0 as int);
        }
        (h.0, h.1 + 1)
    } else {
        proof {
            assert(pow2i(0) == 1);
        }
        (m, 0)
    }
}

/// Raw meaning of the natural logarithm: normalize the argument into
/// one octave, take the inverse hyperbolic tangent series there, and
/// add back the octave count times the logarithm of two. Nonpositive
/// arguments saturate to the bottom of the range, the total stand-in
/// for minus infinity.
pub open spec fn fx_log_v(x: int) -> int {
    if x <= 0 {
        FX_MIN_BITS as int
    } else {
        let mh = half_norm(x);
        let m = dbl_norm(mh);
        let k = half_count(x) - dbl_count(mh);
        let t = fx_div_v(m - SCALE as int, m + SCALE as int);
        let u = fx_mul_v(t, atanh_series_v(fx_mul_v(t, t), 1));
        i64_sat(k * FX_LN_2 as int + fx_add_v(u, u))
    }
}

/// Natural logarithm at the value level.
pub open spec fn fxs_log(a: Fx) -> Fx {
    Fx { bits: fx_log_v(a.bits as int) as i64 }
}

/// The inverse hyperbolic tangent series, evaluated exactly as
/// specified.
fn atanh_series(t2: Fx, k: i64) -> (res: Fx)
    requires
        1 <= k <= 24,
    ensures
        res.bits as int == atanh_series_v(t2.bits as int, k as int),
    decreases 24 - k,
{
    if k >= 23 {
        Fx { bits: 0 }
    } else {
        let tail = atanh_series(t2, k + 2);
        let h = fx_mul(t2, tail);
        let c = fdiv_u(SCALE, k as u64);
        fx_add(Fx { bits: c }, h)
    }
}

/// Fixed-point natural logarithm.
pub fn fx_log(x: Fx) -> (res: Fx)
    ensures
        res.bits as int == fx_log_v(x.bits as int),
        res == fxs_log(x),
{
    if x.bits <= 0 {
        Fx { bits: FX_MIN_BITS }
    } else {
        let hn = half_norm_e(x.bits);
        proof {
            lemma_pow2i_counts(hn.1 as int, x.bits as int);
        }
        let dn = dbl_norm_e(hn.0);
        proof {
            lemma_pow2i_pos(dn.1 as int);
            lemma_mul_inequality(1, hn.0 as int, pow2i(dn.1 as int));
            lemma_pow2i_counts(dn.1 as int, dn.0 as int);
        }
        let k: i64 = hn.1 - dn.1;
        let m: i64 = dn.0;
        let t = fx_div(Fx { bits: m - SCALE }, Fx { bits: m + SCALE });
        let t2 = fx_mul(t, t);
        let s = atanh_series(t2, 1);
        let u = fx_mul(t, s);
        let lnm = fx_add(u, u);
        let w: i128 = (k as i128) * (FX_LN_2 as i128) + (lnm.bits as i128);
        Fx { bits: sat128(w) }
    }
}

} // verus!
