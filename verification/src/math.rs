//! The scalar numeric kernel: elementary functions on the fixed-point
//! sample type, each with an exact contract over the raw integer value.

use vstd::prelude::*;

verus! {

use crate::fixed::Fx;
use crate::fixed::fx_abs_v;
use crate::fixed::fx_neg;
use crate::fixed::fx_add;
use crate::fixed::fx_sub;
use crate::fixed::fx_mul;
use crate::fixed::fx_div;
use crate::fixed::fxs_add;
use crate::fixed::fxs_sub;
use crate::fixed::fxs_mul;
use crate::fixed::fxs_div;
use crate::fixed::fxs_exp;
use crate::fixed::fxs_log;
use crate::fixed::fxs_sin;
use crate::fixed::fxs_cos;

/// Sign at the value level.
pub open spec fn signum_s(x: Fx) -> Fx {
    if x.bits > 0 {
        Fx { bits: crate::fixed::SCALE }
    } else if x.bits < 0 {
        Fx { bits: crate::fixed::SCALE_NEG }
    } else {
        Fx { bits: 0 }
    }
}

/// Absolute value.
pub fn abs(x: Fx) -> (r: Fx)
    ensures
        r.bits as int == fx_abs_v(x.bits as int),
        r == crate::fixed::fxs_abs(x),
{
    if x.bits < 0 {
        fx_neg(x)
    } else {
        x
    }
}

/// Sign of a value: one, zero or minus one in fixed point.
pub fn signum(x: Fx) -> (r: Fx)
    ensures
        r == signum_s(x),
{
    if x.bits > 0 {
        Fx { bits: crate::fixed::SCALE }
    } else if x.bits < 0 {
        Fx { bits: -crate::fixed::SCALE }
    } else {
        Fx { bits: 0 }
    }
}

/// The smaller of two values, at the value level.
pub open spec fn min_s(a: Fx, b: Fx) -> Fx {
    if a.bits <= b.bits {
        a
    } else {
        b
    }
}

/// The larger of two values, at the value level.
pub open spec fn max_s(a: Fx, b: Fx) -> Fx {
    if a.bits >= b.bits {
        a
    } else {
        b
    }
}

/// Clamping between bounds, at the value level.
pub open spec fn clamp_s(x0: Fx, x1: Fx, x: Fx) -> Fx {
    min_s(max_s(x, x0), x1)
}

/// Clamping into -1..1, at the value level.
pub open spec fn clamp11_s(x: Fx) -> Fx {
    clamp_s(Fx { bits: crate::fixed::SCALE_NEG }, Fx { bits: crate::fixed::SCALE }, x)
}

/// Clamps `x` between `x0` and `x1`.
pub fn clamp(x0: Fx, x1: Fx, x: Fx) -> (r: Fx)
    ensures
        r == clamp_s(x0, x1, x),
{
    let lo = max(x, x0);
    min(lo, x1)
}

/// Clamps `x` between 0 and 1.
pub fn clamp01(x: Fx) -> (r: Fx)
    ensures
        r == clamp_s(Fx { bits: 0 }, Fx { bits: crate::fixed::SCALE }, x),
{
    clamp(Fx { bits: 0 }, Fx { bits: crate::fixed::SCALE }, x)
}

/// Clamps `x` between -1 and 1.
pub fn clamp11(x: Fx) -> (r: Fx)
    ensures
        r == clamp11_s(x),
{
    clamp(Fx { bits: crate::fixed::SCALE_NEG }, Fx { bits: crate::fixed::SCALE }, x)
}

/// The smaller of two values.
pub fn min(x: Fx, y: Fx) -> (r: Fx)
    ensures
        r == min_s(x, y),
{
    if x.bits <= y.bits {
        x
    } else {
        y
    }
}

/// The larger of two values.
pub fn max(x: Fx, y: Fx) -> (r: Fx)
    ensures
        r == max_s(x, y),
{
    if x.bits >= y.bits {
        x
    } else {
        y
    }
}

/// The identity function.
pub fn id<T>(x: T) -> (r: T)
    ensures
        r == x,
{
    x
}

/// The square of a value.
pub fn squared(x: Fx) -> (r: Fx)
    ensures
        r == fxs_mul(x, x),
{
    fx_mul(x, x)
}

/// The cube of a value.
pub fn cubed(x: Fx) -> (r: Fx)
    ensures
        r == fxs_mul(fxs_mul(x, x), x),
{
    fx_mul(fx_mul(x, x), x)
}

/// Round down to a whole number of units.
pub fn floor(x: Fx) -> (r: Fx)
    ensures
        r.bits as int == crate::fixed::fx_floor_v(x.bits as int),
{
    crate::fixed::fx_floor(x)
}

/// Round up to a whole number of units.
pub fn ceil(x: Fx) -> (r: Fx)
    ensures
        r.bits as int == crate::fixed::fx_ceil_v(x.bits as int),
{
    crate::fixed::fx_ceil(x)
}

/// Round to the nearest whole number of units, halves away from zero.
pub fn round(x: Fx) -> (r: Fx)
    ensures
        r.bits as int == crate::fixed::fx_round_v(x.bits as int),
{
    crate::fixed::fx_round(x)
}

/// Square root; zero for a negative argument.
pub fn sqrt(x: Fx) -> (r: Fx)
    ensures
        r.bits as int == crate::fixed::fx_sqrt_v(x.bits as int),
{
    crate::fixed::fx_sqrt(x)
}

/// The exponential function.
pub fn exp(x: Fx) -> (r: Fx)
    ensures
        r == fxs_exp(x),
{
    crate::fixed::fx_exp(x)
}

/// Two raised to the argument.
pub open spec fn exp2_s(x: Fx) -> Fx {
    fxs_exp(fxs_mul(x, Fx { bits: crate::fixed::FX_LN_2 }))
}

/// Two raised to the argument.
pub fn exp2(x: Fx) -> (r: Fx)
    ensures
        r == exp2_s(x),
{
    crate::fixed::fx_exp(fx_mul(x, Fx { bits: crate::fixed::FX_LN_2 }))
}

/// Ten raised to the argument.
pub open spec fn exp10_s(x: Fx) -> Fx {
    fxs_exp(fxs_mul(x, Fx { bits: crate::fixed::FX_LN_10 }))
}

/// Ten raised to the argument.
pub fn exp10(x: Fx) -> (r: Fx)
    ensures
        r == exp10_s(x),
{
    crate::fixed::fx_exp(fx_mul(x, Fx { bits: crate::fixed::FX_LN_10 }))
}

/// The natural logarithm; saturates low for nonpositive arguments.
pub fn log(x: Fx) -> (r: Fx)
    ensures
        r == fxs_log(x),
{
    crate::fixed::fx_log(x)
}

/// The base-two logarithm.
pub fn log2(x: Fx) -> (r: Fx)
    ensures
        r == fxs_div(fxs_log(x), Fx { bits: crate::fixed::FX_LN_2 }),
{
    fx_div(crate::fixed::fx_log(x), Fx { bits: crate::fixed::FX_LN_2 })
}

/// The base-ten logarithm.
pub fn log10(x: Fx) -> (r: Fx)
    ensures
        r == fxs_div(fxs_log(x), Fx { bits: crate::fixed::FX_LN_10 }),
{
    fx_div(crate::fixed::fx_log(x), Fx { bits: crate::fixed::FX_LN_10 })
}

/// The sine of an angle in radians.
pub fn sin(x: Fx) -> (r: Fx)
    ensures
        r == fxs_sin(x),
{
    crate::fixed::fx_sin(x)
}

/// The cosine of an angle in radians.
pub fn cos(x: Fx) -> (r: Fx)
    ensures
        r == fxs_cos(x),
{
    crate::fixed::fx_cos(x)
}

/// The tangent of an angle in radians; saturates at the poles.
pub fn tan(x: Fx) -> (r: Fx)
    ensures
        r == fxs_div(fxs_sin(x), fxs_cos(x)),
{
    fx_div(crate::fixed::fx_sin(x), crate::fixed::fx_cos(x))
}

/// The hyperbolic tangent.
pub open spec fn tanh_s(x: Fx) -> Fx {
    let e = fxs_exp(fxs_add(x, x));
    fxs_div(fxs_sub(e, Fx { bits: crate::fixed::SCALE }), fxs_add(e, Fx { bits: crate::fixed::SCALE }))
}

/// The hyperbolic tangent.
pub fn tanh(x: Fx) -> (r: Fx)
    ensures
        r == tanh_s(x),
{
    let e = crate::fixed::fx_exp(fx_add(x, x));
    fx_div(
        fx_sub(e, Fx { bits: crate::fixed::SCALE }),
        fx_add(e, Fx { bits: crate::fixed::SCALE }),
    )
}

/// A positive base raised to a real power. A zero base gives zero for
/// positive exponents, one at zero and saturates for negative ones; a
/// negative base has no real power in general and gives zero.
pub open spec fn pow_s(x: Fx, y: Fx) -> Fx {
    if x.bits > 0 {
        fxs_exp(fxs_mul(y, fxs_log(x)))
    } else if x.bits == 0 {
        if y.bits > 0 {
            Fx { bits: 0 }
        } else if y.bits == 0 {
            Fx { bits: crate::fixed::SCALE }
        } else {
            Fx { bits: crate::fixed::FX_MAX_BITS }
        }
    } else {
        Fx { bits: 0 }
    }
}

/// A positive base raised to a real power.
pub fn pow(x: Fx, y: Fx) -> (r: Fx)
    ensures
        r == pow_s(x, y),
{
    if x.bits > 0 {
        crate::fixed::fx_exp(fx_mul(y, crate::fixed::fx_log(x)))
    } else if x.bits == 0 {
        if y.bits > 0 {
            Fx { bits: 0 }
        } else if y.bits == 0 {
            Fx { bits: crate::fixed::SCALE }
        } else {
            Fx { bits: crate::fixed::FX_MAX_BITS }
        }
    } else {
        Fx { bits: 0 }
    }
}

/// Linear interpolation between `a` and `b` by `t`.
pub open spec fn lerp_s(a: Fx, b: Fx, t: Fx) -> Fx {
    fxs_add(fxs_mul(a, fxs_sub(Fx { bits: crate::fixed::SCALE }, t)), fxs_mul(b, t))
}

/// Linear interpolation.
pub fn lerp(a: Fx, b: Fx, t: Fx) -> (r: Fx)
    ensures
        r == lerp_s(a, b, t),
{
    fx_add(fx_mul(a, fx_sub(Fx { bits: crate::fixed::SCALE }, t)), fx_mul(b, t))
}

/// Linear interpolation with `t` in -1..1.
pub fn lerp11(a: Fx, b: Fx, t: Fx) -> (r: Fx)
    ensures
        r == lerp_s(
            a,
            b,
            fxs_add(
                fxs_mul(t, Fx { bits: crate::fixed::HALF_SCALE }),
                Fx { bits: crate::fixed::HALF_SCALE },
            ),
        ),
{
    lerp(
        a,
        b,
        fx_add(
            fx_mul(t, Fx { bits: crate::fixed::HALF_SCALE }),
            Fx { bits: crate::fixed::HALF_SCALE },
        ),
    )
}

/// Linear de-interpolation: recover `t` from an interpolated value.
pub fn delerp(a: Fx, b: Fx, x: Fx) -> (r: Fx)
    ensures
        r == fxs_div(fxs_sub(x, a), fxs_sub(b, a)),
{
    fx_div(fx_sub(x, a), fx_sub(b, a))
}

/// Linear de-interpolation onto -1..1.
pub fn delerp11(a: Fx, b: Fx, x: Fx) -> (r: Fx)
    ensures
        r == fxs_sub(
            fxs_mul(fxs_div(fxs_sub(x, a), fxs_sub(b, a)), crate::fixed::fxs_int_two()),
            Fx { bits: crate::fixed::SCALE },
        ),
{
    fx_sub(
        fx_mul(fx_div(fx_sub(x, a), fx_sub(b, a)), Fx { bits: 2 * crate::fixed::SCALE }),
        Fx { bits: crate::fixed::SCALE },
    )
}

/// Exponential interpolation between positive endpoints.
pub open spec fn xerp_s(a: Fx, b: Fx, t: Fx) -> Fx {
    fxs_exp(lerp_s(fxs_log(a), fxs_log(b), t))
}

/// Exponential interpolation. The endpoints must be positive to have
/// logarithms; elsewhere the logarithm's saturation rules apply.
pub fn xerp(a: Fx, b: Fx, t: Fx) -> (r: Fx)
    ensures
        r == xerp_s(a, b, t),
{
    crate::fixed::fx_exp(lerp(crate::fixed::fx_log(a), crate::fixed::fx_log(b), t))
}

/// Exponential interpolation with `t` in -1..1.
pub fn xerp11(a: Fx, b: Fx, t: Fx) -> (r: Fx)
    ensures
        r == xerp_s(
            a,
            b,
            fxs_add(
                fxs_mul(t, Fx { bits: crate::fixed::HALF_SCALE }),
                Fx { bits: crate::fixed::HALF_SCALE },
            ),
        ),
{
    xerp(
        a,
        b,
        fx_add(
            fx_mul(t, Fx { bits: crate::fixed::HALF_SCALE }),
            Fx { bits: crate::fixed::HALF_SCALE },
        ),
    )
}

/// Exponential de-interpolation: recover `t` from an interpolated
/// value, for positive arguments.
pub open spec fn dexerp_s(a: Fx, b: Fx, x: Fx) -> Fx {
    fxs_div(fxs_log(fxs_div(x, a)), fxs_log(fxs_div(b, a)))
}

/// Exponential de-interpolation.
pub fn dexerp(a: Fx, b: Fx, x: Fx) -> (r: Fx)
    ensures
        r == dexerp_s(a, b, x),
{
    fx_div(crate::fixed::fx_log(fx_div(x, a)), crate::fixed::fx_log(fx_div(b, a)))
}

/// Exponential de-interpolation onto -1..1.
pub fn dexerp11(a: Fx, b: Fx, x: Fx) -> (r: Fx)
    ensures
        r == fxs_sub(
            fxs_mul(dexerp_s(a, b, x), crate::fixed::fxs_int_two()),
            Fx { bits: crate::fixed::SCALE },
        ),
{
    fx_sub(
        fx_mul(dexerp(a, b, x), Fx { bits: 2 * crate::fixed::SCALE }),
        Fx { bits: crate::fixed::SCALE },
    )
}

/// Convert decibels to gain: zero decibels is unit gain.
pub fn db_amp(db: Fx) -> (r: Fx)
    ensures
        r == exp10_s(fxs_div(db, crate::fixed::fxs_int_twenty())),
{
    exp10(fx_div(db, Fx { bits: 20 * crate::fixed::SCALE }))
}

/// Convert a positive gain to decibels: unit gain is zero decibels.
pub fn amp_db(amp: Fx) -> (r: Fx)
    ensures
        r == fxs_mul(
            fxs_div(fxs_log(amp), Fx { bits: crate::fixed::FX_LN_10 }),
            crate::fixed::fxs_int_twenty(),
        ),
{
    fx_mul(log10(amp), Fx { bits: 20 * crate::fixed::SCALE })
}

/// The coefficient of the frequency gap in the dissonance bandwidth.
pub const DISS_Q: i64 = 90194313;

/// The constant term of the dissonance bandwidth, nineteen units.
pub const DISS_B: i64 = 81604378624;

/// The overall dissonance amplitude.
pub const DISS_AMP: i64 = 23758698225;

/// The first dissonance exponent.
pub const DISS_E1: i64 = -3607772529;

/// The second dissonance exponent.
pub const DISS_E2: i64 = -5927054868;

/// Dissonance between pure tones, at the value level: the difference
/// of two exponentials of the normalized frequency gap.
pub open spec fn dissonance_s(f0: Fx, f1: Fx) -> Fx {
    let q = fxs_div(
        crate::fixed::fxs_abs(fxs_sub(f0, f1)),
        fxs_add(fxs_mul(Fx { bits: DISS_Q }, min_s(f0, f1)), Fx { bits: DISS_B }),
    );
    fxs_mul(
        Fx { bits: DISS_AMP },
        fxs_sub(fxs_exp(fxs_mul(Fx { bits: DISS_E1 }, q)), fxs_exp(fxs_mul(Fx { bits: DISS_E2 }, q))),
    )
}

/// A dissonance amount between pure tones at the two frequencies, in
/// the unit range.
pub fn dissonance(f0: Fx, f1: Fx) -> (r: Fx)
    ensures
        r == dissonance_s(f0, f1),
{
    let q = fx_div(
        abs(fx_sub(f0, f1)),
        fx_add(fx_mul(Fx { bits: DISS_Q }, min(f0, f1)), Fx { bits: DISS_B }),
    );
    fx_mul(
        Fx { bits: DISS_AMP },
        fx_sub(
            crate::fixed::fx_exp(fx_mul(Fx { bits: DISS_E1 }, q)),
            crate::fixed::fx_exp(fx_mul(Fx { bits: DISS_E2 }, q)),
        ),
    )
}

/// The maximally dissonant pure frequency above the argument: an
/// affine map.
pub fn dissonance_max(f: Fx) -> (r: Fx)
    ensures
        r == fxs_add(fxs_mul(Fx { bits: 4377860165 }, f), Fx { bits: 75021052753 }),
{
    fx_add(fx_mul(Fx { bits: 4377860165 }, f), Fx { bits: 75021052753 })
}

/// One thousand units: the weighting curves work on kilohertz.
pub const KILO: i64 = 0x3e8_0000_0000;

/// Minus three whole units.
pub const NEG_THREE: i64 = -0x3_0000_0000;

/// The sixth-power coefficient of the M-weighting denominator.
pub const MW_C1: i64 = -20347;

/// The quadratic coefficient of the M-weighting denominator.
pub const MW_C3: i64 = -585788354;

/// The cubic coefficient of the M-weighting phase polynomial.
pub const MW_C5: i64 = -90973888;

/// A-weighted equal-loudness response, normalized to one at 1 kHz, at
/// the value level: the standard rational form with the frequency
/// taken in kilohertz so that every intermediate stays representable.
pub open spec fn a_weight_s(f: Fx) -> Fx {
    let fk = fxs_div(f, Fx { bits: KILO });
    let f2 = fxs_mul(fk, fk);
    let c0 = Fx { bits: 638634303743 };
    let c1 = Fx { bits: 1822612 };
    let c2 = Fx { bits: 49818571 };
    let c3 = Fx { bits: 2338594274 };
    let c4 = Fx { bits: 5406955370 };
    let num = fxs_mul(fxs_mul(fxs_mul(c4, c0), f2), f2);
    let den = fxs_mul(
        fxs_mul(
            fxs_add(f2, c1),
            crate::fixed::fxs_sqrt(fxs_mul(fxs_add(f2, c2), fxs_add(f2, c3))),
        ),
        fxs_add(f2, c0),
    );
    fxs_div(num, den)
}

/// A-weighted equal-loudness amplitude response at a frequency,
/// normalized to one at 1 kHz.
pub fn a_weight(f: Fx) -> (r: Fx)
    ensures
        r == a_weight_s(f),
{
    let fk = fx_div(f, Fx { bits: KILO });
    let f2 = fx_mul(fk, fk);
    let c0 = Fx { bits: 638634303743 };
    let c1 = Fx { bits: 1822612 };
    let c2 = Fx { bits: 49818571 };
    let c3 = Fx { bits: 2338594274 };
    let c4 = Fx { bits: 5406955370 };
    let num = fx_mul(fx_mul(fx_mul(c4, c0), f2), f2);
    let den = fx_mul(
        fx_mul(fx_add(f2, c1), crate::fixed::fx_sqrt(fx_mul(fx_add(f2, c2), fx_add(f2, c3)))),
        fx_add(f2, c0),
    );
    fx_div(num, den)
}

/// M-weighted (ITU-R 468) equal-loudness response, normalized to one
/// at 1 kHz, at the value level, with the frequency in kilohertz.
pub open spec fn m_weight_s(f: Fx) -> Fx {
    let fk = fxs_div(f, Fx { bits: KILO });
    let f2 = fxs_mul(fk, fk);
    let f4 = fxs_mul(f2, f2);
    let c0 = Fx { bits: 535295792 };
    let c1 = Fx { bits: MW_C1 };
    let c2 = Fx { bits: 8778176 };
    let c3 = Fx { bits: MW_C3 };
    let c4 = Fx { bits: 561186 };
    let c5 = Fx { bits: MW_C5 };
    let c6 = Fx { bits: 2387781924 };
    let c7 = Fx { bits: 35066596832 };
    let h1 = fxs_add(
        fxs_add(fxs_add(fxs_mul(fxs_mul(c1, f4), f2), fxs_mul(c2, f4)), fxs_mul(c3, f2)),
        Fx { bits: crate::fixed::SCALE },
    );
    let h2 = fxs_add(
        fxs_add(fxs_mul(fxs_mul(c4, f4), fk), fxs_mul(fxs_mul(c5, f2), fk)),
        fxs_mul(c6, fk),
    );
    fxs_div(
        fxs_mul(fxs_mul(c7, c0), fk),
        crate::fixed::fxs_sqrt(fxs_add(fxs_mul(h1, h1), fxs_mul(h2, h2))),
    )
}

/// M-weighted equal-loudness amplitude response at a frequency,
/// normalized to one at 1 kHz.
pub fn m_weight(f: Fx) -> (r: Fx)
    ensures
        r == m_weight_s(f),
{
    let fk = fx_div(f, Fx { bits: KILO });
    let f2 = fx_mul(fk, fk);
    let f4 = fx_mul(f2, f2);
    let c0 = Fx { bits: 535295792 };
    let c1 = Fx { bits: MW_C1 };
    let c2 = Fx { bits: 8778176 };
    let c3 = Fx { bits: MW_C3 };
    let c4 = Fx { bits: 561186 };
    let c5 = Fx { bits: MW_C5 };
    let c6 = Fx { bits: 2387781924 };
    let c7 = Fx { bits: 35066596832 };
    let h1 = fx_add(
        fx_add(fx_add(fx_mul(fx_mul(c1, f4), f2), fx_mul(c2, f4)), fx_mul(c3, f2)),
        Fx { bits: crate::fixed::SCALE },
    );
    let h2 = fx_add(
        fx_add(fx_mul(fx_mul(c4, f4), fk), fx_mul(fx_mul(c5, f2), fk)),
        fx_mul(c6, fk),
    );
    fx_div(
        fx_mul(fx_mul(c7, c0), fk),
        crate::fixed::fx_sqrt(fx_add(fx_mul(h1, h1), fx_mul(h2, h2))),
    )
}

/// Catmull-Rom cubic spline interpolation at the value level:
/// interpolates between the two middle points while the outer points
/// set the slopes.
pub open spec fn spline_s(y0: Fx, y1: Fx, y2: Fx, y3: Fx, x: Fx) -> Fx {
    let two = Fx { bits: 0x2_0000_0000 };
    let inner3 = fxs_sub(
        fxs_add(fxs_mul(Fx { bits: 0x3_0000_0000 }, fxs_sub(y1, y2)), y3),
        y0,
    );
    let inner2 = fxs_add(
        fxs_sub(
            fxs_add(
                fxs_sub(fxs_mul(two, y0), fxs_mul(Fx { bits: 0x5_0000_0000 }, y1)),
                fxs_mul(Fx { bits: 0x4_0000_0000 }, y2),
            ),
            y3,
        ),
        fxs_mul(x, inner3),
    );
    fxs_add(y1, fxs_mul(fxs_div(x, two), fxs_add(fxs_sub(y2, y0), fxs_mul(x, inner2))))
}

/// Catmull-Rom cubic spline interpolation.
pub fn spline(y0: Fx, y1: Fx, y2: Fx, y3: Fx, x: Fx) -> (r: Fx)
    ensures
        r == spline_s(y0, y1, y2, y3, x),
{
    let two = Fx { bits: 0x2_0000_0000 };
    let inner3 = fx_sub(fx_add(fx_mul(Fx { bits: 0x3_0000_0000 }, fx_sub(y1, y2)), y3), y0);
    let inner2 = fx_add(
        fx_sub(
            fx_add(
                fx_sub(fx_mul(two, y0), fx_mul(Fx { bits: 0x5_0000_0000 }, y1)),
                fx_mul(Fx { bits: 0x4_0000_0000 }, y2),
            ),
            y3,
        ),
        fx_mul(x, inner3),
    );
    fx_add(y1, fx_mul(fx_div(x, two), fx_add(fx_sub(y2, y0), fx_mul(x, inner2))))
}

/// The limited slope used by the monotonic spline at one junction.
pub open spec fn steffen_slope_s(da: Fx, db: Fx) -> Fx {
    fxs_mul(
        fxs_add(signum_s(da), signum_s(db)),
        min_s(fxs_add(da, db), min_s(crate::fixed::fxs_abs(da), crate::fixed::fxs_abs(db))),
    )
}

/// Monotonic cubic interpolation by Steffen's method, at the value
/// level: the limited slopes keep the curve from overshooting.
pub open spec fn splinem_s(y0: Fx, y1: Fx, y2: Fx, y3: Fx, x: Fx) -> Fx {
    let two = Fx { bits: 0x2_0000_0000 };
    let three = Fx { bits: 0x3_0000_0000 };
    let d1d = steffen_slope_s(fxs_sub(y1, y0), fxs_sub(y2, y1));
    let d2d = steffen_slope_s(fxs_sub(y2, y1), fxs_sub(y3, y2));
    let t3 = fxs_add(fxs_add(fxs_sub(fxs_mul(two, y1), fxs_mul(two, y2)), d1d), d2d);
    let t2 = fxs_sub(
        fxs_sub(
            fxs_add(fxs_mul(Fx { bits: NEG_THREE }, y1), fxs_mul(three, y2)),
            fxs_mul(two, d1d),
        ),
        d2d,
    );
    let x2 = fxs_mul(x, x);
    let x3 = fxs_mul(x2, x);
    fxs_add(fxs_add(fxs_add(fxs_mul(x3, t3), fxs_mul(x2, t2)), fxs_mul(x, d1d)), y1)
}

/// Monotonic cubic interpolation by Steffen's method; never
/// overshoots the middle points.
pub fn splinem(y0: Fx, y1: Fx, y2: Fx, y3: Fx, x: Fx) -> (r: Fx)
    ensures
        r == splinem_s(y0, y1, y2, y3, x),
{
    let two = Fx { bits: 0x2_0000_0000 };
    let three = Fx { bits: 0x3_0000_0000 };
    let d0 = fx_sub(y1, y0);
    let d1 = fx_sub(y2, y1);
    let d2 = fx_sub(y3, y2);
    let d1d = fx_mul(
        fx_add(signum(d0), signum(d1)),
        min(fx_add(d0, d1), min(abs(d0), abs(d1))),
    );
    let d2d = fx_mul(
        fx_add(signum(d1), signum(d2)),
        min(fx_add(d1, d2), min(abs(d1), abs(d2))),
    );
    let t3 = fx_add(fx_add(fx_sub(fx_mul(two, y1), fx_mul(two, y2)), d1d), d2d);
    let t2 = fx_sub(
        fx_sub(fx_add(fx_mul(Fx { bits: NEG_THREE }, y1), fx_mul(three, y2)), fx_mul(two, d1d)),
        d2d,
    );
    let x2 = fx_mul(x, x);
    let x3 = fx_mul(x2, x);
    fx_add(fx_add(fx_add(fx_mul(x3, t3), fx_mul(x2, t2)), fx_mul(x, d1d)), y1)
}

/// The softsign function at the value level.
pub open spec fn softsign_s(x: Fx) -> Fx {
    fxs_div(x, fxs_add(Fx { bits: crate::fixed::SCALE }, crate::fixed::fxs_abs(x)))
}

/// Softsign: a gentle sigmoid that approaches its limits slowly.
pub fn softsign(x: Fx) -> (r: Fx)
    ensures
        r == softsign_s(x),
{
    fx_div(x, fx_add(Fx { bits: crate::fixed::SCALE }, abs(x)))
}

/// The soft exponential response at the value level: inverse linear
/// below zero and quadratic above, meeting smoothly at one.
pub open spec fn softexp_s(x: Fx) -> Fx {
    let one = Fx { bits: crate::fixed::SCALE };
    let p = max_s(x, Fx { bits: 0 });
    fxs_add(fxs_add(fxs_mul(p, p), p), fxs_div(one, fxs_sub(fxs_add(one, p), x)))
}

/// A second-order-continuous exp-like response, nonnegative for all
/// inputs.
pub fn softexp(x: Fx) -> (r: Fx)
    ensures
        r == softexp_s(x),
{
    let one = Fx { bits: crate::fixed::SCALE };
    let p = max(x, Fx { bits: 0 });
    fx_add(fx_add(fx_mul(p, p), p), fx_div(one, fx_sub(fx_add(one, p), x)))
}

/// Soft minimum, maximum or average of two values, at the value
/// level, weighted by the soft exponential of each input times the
/// bias. A guard term of one raw unit in the divisor keeps the
/// quotient finite when both weights underflow to zero.
pub open spec fn softmix_s(x: Fx, y: Fx, bias: Fx) -> Fx {
    let xw = softexp_s(fxs_mul(x, bias));
    let yw = softexp_s(fxs_mul(y, bias));
    fxs_div(
        fxs_add(fxs_mul(x, xw), fxs_mul(y, yw)),
        fxs_add(fxs_add(xw, yw), Fx { bits: 1 }),
    )
}

/// Soft minimum when the bias is negative, soft maximum when it is
/// positive, and an average at zero.
pub fn softmix(x: Fx, y: Fx, bias: Fx) -> (r: Fx)
    ensures
        r == softmix_s(x, y, bias),
{
    let xw = softexp(fx_mul(x, bias));
    let yw = softexp(fx_mul(y, bias));
    fx_div(fx_add(fx_mul(x, xw), fx_mul(y, yw)), fx_add(fx_add(xw, yw), Fx { bits: 1 }))
}

/// The cubic smooth step at the value level.
pub open spec fn smooth3_s(x: Fx) -> Fx {
    fxs_mul(
        fxs_mul(fxs_sub(Fx { bits: 0x3_0000_0000 }, fxs_mul(Fx { bits: 0x2_0000_0000 }, x)), x),
        x,
    )
}

/// Smooth third-degree easing polynomial.
pub fn smooth3(x: Fx) -> (r: Fx)
    ensures
        r == smooth3_s(x),
{
    fx_mul(
        fx_mul(fx_sub(Fx { bits: 0x3_0000_0000 }, fx_mul(Fx { bits: 0x2_0000_0000 }, x)), x),
        x,
    )
}

/// The quintic smooth step at the value level.
pub open spec fn smooth5_s(x: Fx) -> Fx {
    fxs_mul(
        fxs_mul(
            fxs_mul(
                fxs_add(
                    fxs_mul(fxs_sub(fxs_mul(x, Fx { bits: 0x6_0000_0000 }), Fx { bits: 0xf_0000_0000 }), x),
                    Fx { bits: 0xa_0000_0000 },
                ),
                x,
            ),
            x,
        ),
        x,
    )
}

/// Smooth fifth-degree easing polynomial.
pub fn smooth5(x: Fx) -> (r: Fx)
    ensures
        r == smooth5_s(x),
{
    fx_mul(
        fx_mul(
            fx_mul(
                fx_add(
                    fx_mul(fx_sub(fx_mul(x, Fx { bits: 0x6_0000_0000 }), Fx { bits: 0xf_0000_0000 }), x),
                    Fx { bits: 0xa_0000_0000 },
                ),
                x,
            ),
            x,
        ),
        x,
    )
}

/// The seventh-degree smooth step at the value level.
pub open spec fn smooth7_s(x: Fx) -> Fx {
    let x2 = fxs_mul(x, x);
    fxs_mul(
        fxs_mul(x2, x2),
        fxs_add(
            fxs_sub(Fx { bits: 0x23_0000_0000 }, fxs_mul(Fx { bits: 0x54_0000_0000 }, x)),
            fxs_mul(fxs_sub(Fx { bits: 0x46_0000_0000 }, fxs_mul(Fx { bits: 0x14_0000_0000 }, x)), x2),
        ),
    )
}

/// Smooth seventh-degree easing polynomial.
pub fn smooth7(x: Fx) -> (r: Fx)
    ensures
        r == smooth7_s(x),
{
    let x2 = fx_mul(x, x);
    fx_mul(
        fx_mul(x2, x2),
        fx_add(
            fx_sub(Fx { bits: 0x23_0000_0000 }, fx_mul(Fx { bits: 0x54_0000_0000 }, x)),
            fx_mul(fx_sub(Fx { bits: 0x46_0000_0000 }, fx_mul(Fx { bits: 0x14_0000_0000 }, x)), x2),
        ),
    )
}

/// The ninth-degree smooth step at the value level.
pub open spec fn smooth9_s(x: Fx) -> Fx {
    let x2 = fxs_mul(x, x);
    let poly = fxs_add(
        fxs_mul(
            fxs_sub(
                fxs_mul(
                    fxs_add(
                        fxs_mul(
                            fxs_sub(fxs_mul(Fx { bits: 0x46_0000_0000 }, x), Fx { bits: 0x13b_0000_0000 }),
                            x,
                        ),
                        Fx { bits: 0x21c_0000_0000 },
                    ),
                    x,
                ),
                Fx { bits: 0x1a4_0000_0000 },
            ),
            x,
        ),
        Fx { bits: 0x7e_0000_0000 },
    );
    fxs_mul(fxs_mul(fxs_mul(poly, x2), x2), x)
}

/// Smooth ninth-degree easing polynomial.
pub fn smooth9(x: Fx) -> (r: Fx)
    ensures
        r == smooth9_s(x),
{
    let x2 = fx_mul(x, x);
    let poly = fx_add(
        fx_mul(
            fx_sub(
                fx_mul(
                    fx_add(
                        fx_mul(
                            fx_sub(fx_mul(Fx { bits: 0x46_0000_0000 }, x), Fx { bits: 0x13b_0000_0000 }),
                            x,
                        ),
                        Fx { bits: 0x21c_0000_0000 },
                    ),
                    x,
                ),
                Fx { bits: 0x1a4_0000_0000 },
            ),
            x,
        ),
        Fx { bits: 0x7e_0000_0000 },
    );
    fx_mul(fx_mul(fx_mul(poly, x2), x2), x)
}

/// The upward quarter-circle fade at the value level.
pub open spec fn arcup_s(x: Fx) -> Fx {
    let one = Fx { bits: crate::fixed::SCALE };
    fxs_sub(one, crate::fixed::fxs_sqrt(max_s(Fx { bits: 0 }, fxs_sub(one, fxs_mul(x, x)))))
}

/// A quarter-circle fade that slopes upward.
pub fn arcup(x: Fx) -> (r: Fx)
    ensures
        r == arcup_s(x),
{
    let one = Fx { bits: crate::fixed::SCALE };
    fx_sub(one, crate::fixed::fx_sqrt(max(Fx { bits: 0 }, fx_sub(one, fx_mul(x, x)))))
}

/// The downward quarter-circle fade at the value level.
pub open spec fn arcdown_s(x: Fx) -> Fx {
    crate::fixed::fxs_sqrt(
        max_s(Fx { bits: 0 }, fxs_mul(fxs_sub(Fx { bits: 0x2_0000_0000 }, x), x)),
    )
}

/// A quarter-circle fade that slopes downward.
pub fn arcdown(x: Fx) -> (r: Fx)
    ensures
        r == arcdown_s(x),
{
    crate::fixed::fx_sqrt(max(Fx { bits: 0 }, fx_mul(fx_sub(Fx { bits: 0x2_0000_0000 }, x), x)))
}

/// Sine at a frequency in hertz, with time in seconds.
pub fn sin_hz(hz: Fx, t: Fx) -> (r: Fx)
    ensures
        r == fxs_sin(fxs_mul(fxs_mul(t, hz), Fx { bits: crate::fixed::FX_TAU })),
{
    sin(fx_mul(fx_mul(t, hz), Fx { bits: crate::fixed::FX_TAU }))
}

/// Cosine at a frequency in hertz, with time in seconds.
pub fn cos_hz(hz: Fx, t: Fx) -> (r: Fx)
    ensures
        r == fxs_cos(fxs_mul(fxs_mul(t, hz), Fx { bits: crate::fixed::FX_TAU })),
{
    cos(fx_mul(fx_mul(t, hz), Fx { bits: crate::fixed::FX_TAU }))
}

/// Convert a semitone interval to a frequency ratio.
pub fn semitone(x: Fx) -> (r: Fx)
    ensures
        r == exp2_s(fxs_div(x, Fx { bits: 0xc_0000_0000 })),
{
    exp2(fx_div(x, Fx { bits: 0xc_0000_0000 }))
}

/// Convert a MIDI note number to a frequency in hertz; note 69 is
/// 440 Hz.
pub fn midi_hz(x: Fx) -> (r: Fx)
    ensures
        r == fxs_mul(
            Fx { bits: 0x1b8_0000_0000 },
            exp2_s(fxs_div(fxs_sub(x, Fx { bits: 0x45_0000_0000 }), Fx { bits: 0xc_0000_0000 })),
        ),
{
    fx_mul(
        Fx { bits: 0x1b8_0000_0000 },
        exp2(fx_div(fx_sub(x, Fx { bits: 0x45_0000_0000 }), Fx { bits: 0xc_0000_0000 })),
    )
}

/// Convert beats per minute to hertz.
pub fn bpm_hz(bpm: Fx) -> (r: Fx)
    ensures
        r == fxs_div(bpm, Fx { bits: 0x3c_0000_0000 }),
{
    fx_div(bpm, Fx { bits: 0x3c_0000_0000 })
}

/// A 32-bit mixing hash, at the value level: two rounds of
/// shift-xor and wrapping multiplication.
pub open spec fn hashw_v(x: u32) -> u32 {
    let x1 = x ^ (x >> 16);
    let x2 = (((x1 as u64) * 0x7feb352d) % 0x1_0000_0000) as u32;
    let x3 = x2 ^ (x2 >> 15);
    let x4 = (((x3 as u64) * 0x846ca68b) % 0x1_0000_0000) as u32;
    x4 ^ (x4 >> 16)
}

/// A 32-bit mixing hash, used for pinging and value noise.
pub fn hashw(x: u32) -> (r: u32)
    ensures
        r == hashw_v(x),
{
    let x1 = x ^ (x >> 16);
    let x2 = (((x1 as u64) * 0x7feb352d) % 0x1_0000_0000) as u32;
    let x3 = x2 ^ (x2 >> 15);
    let x4 = (((x3 as u64) * 0x846ca68b) % 0x1_0000_0000) as u32;
    x4 ^ (x4 >> 16)
}

/// Wrapping 64-bit multiplication, at the value level.
pub open spec fn wmul64(a: u64, b: u64) -> u64 {
    ((a * b) % 0x1_0000_0000_0000_0000) as u64
}

/// Wrapping 64-bit multiplication.
fn wide_mul(a: u64, b: u64) -> (r: u64)
    ensures
        r == wmul64(a, b),
{
    proof {
        vstd::arithmetic::mul::lemma_mul_upper_bound(
            a as int,
            0xffff_ffff_ffff_ffff,
            b as int,
            0xffff_ffff_ffff_ffff,
        );
    }
    (((a as u128) * (b as u128)) % 0x1_0000_0000_0000_0000u128) as u64
}

/// A 64-bit mixing hash, at the value level: three rounds of
/// shift-xor and wrapping multiplication.
pub open spec fn hashk_v(x: i64) -> i64 {
    let u = x as u64;
    let u1 = wmul64(u ^ (u >> 30), 0xbf58476d1ce4e5b9);
    let u2 = wmul64(u1 ^ (u1 >> 27), 0x94d049bb133111eb);
    let u3 = wmul64(u2 ^ (u2 >> 31), 0xd6e8feb86659fd93);
    (u3 ^ (u3 >> 32)) as i64
}

/// A 64-bit mixing hash.
pub fn hashk(x: i64) -> (r: i64)
    ensures
        r == hashk_v(x),
{
    let u = x as u64;
    let u1 = wide_mul(u ^ (u >> 30), 0xbf58476d1ce4e5b9);
    let u2 = wide_mul(u1 ^ (u1 >> 27), 0x94d049bb133111eb);
    let u3 = wide_mul(u2 ^ (u2 >> 31), 0xd6e8feb86659fd93);
    (u3 ^ (u3 >> 32)) as i64
}

/// An indexed pseudorandom sample, at the value level: a three-round
/// mixing hash of the index, whose top word becomes the fractional
/// bits of a sample in the half-open unit range.
pub open spec fn rnd_v(x: i64) -> Fx {
    let u = x as u64;
    let u1 = wmul64(u, 0x9e3779b97f4a7c15);
    let u2 = wmul64(u1 ^ (u1 >> 30), 0xbf58476d1ce4e5b9);
    let u3 = wmul64(u2 ^ (u2 >> 27), 0x94d049bb133111eb);
    let u4 = u3 ^ (u3 >> 31);
    Fx { bits: (u4 >> 32) as i64 }
}

/// An indexed pseudorandom sample in the half-open unit range.
pub fn rnd(x: i64) -> (r: Fx)
    ensures
        r == rnd_v(x),
{
    let u = x as u64;
    let u1 = wide_mul(u, 0x9e3779b97f4a7c15);
    let u2 = wide_mul(u1 ^ (u1 >> 30), 0xbf58476d1ce4e5b9);
    let u3 = wide_mul(u2 ^ (u2 >> 27), 0x94d049bb133111eb);
    let u4 = u3 ^ (u3 >> 31);
    Fx { bits: (u4 >> 32) as i64 }
}

/// A pocket-sized indexed pseudorandom generator: a 64-bit hashing
/// state with cheap mixing steps.
#[derive(Clone, Copy, PartialEq, Eq, Structural, Debug)]
pub struct AttoRand {
    /// The full generator state.
    pub state: u64,
}

/// One hashing absorption step, at the value level.
pub open spec fn atto_hash_v(state: u64, data: u64) -> u64 {
    let x = wmul64(data ^ state ^ (state >> 32), 0xd6e8feb86659fd93);
    wmul64(x ^ (x >> 32), 0xd6e8feb86659fd93)
}

/// One generation step of the underlying sequence, at the value
/// level: a wrapping affine map.
pub open spec fn atto_step_v(state: u64) -> u64 {
    let m = wmul64(state, 0xaf251af3b0f025b5);
    if m == 0xffff_ffff_ffff_ffffu64 {
        0
    } else {
        (m + 1) as u64
    }
}

/// The output word drawn from a state.
pub open spec fn atto_value_v(state: u64) -> u32 {
    hashw_v((state >> 32) as u32)
}

impl Default for AttoRand {
    /// The generator seeded with zero.
    fn default() -> (r: AttoRand)
        ensures
            r.state == 0,
    {
        AttoRand { state: 0 }
    }
}

impl AttoRand {
    /// A generator with the given seed.
    pub fn new(seed: u64) -> (r: AttoRand)
        ensures
            r.state == seed,
    {
        AttoRand { state: seed }
    }

    /// Absorb a word of data into the state.
    pub fn hash(self, data: u64) -> (r: AttoRand)
        ensures
            r.state == atto_hash_v(self.state, data),
    {
        let x = wide_mul(data ^ self.state ^ (self.state >> 32), 0xd6e8feb86659fd93);
        AttoRand { state: wide_mul(x ^ (x >> 32), 0xd6e8feb86659fd93) }
    }

    /// The output word of the current state.
    pub fn value(&self) -> (r: u32)
        ensures
            r == atto_value_v(self.state),
    {
        hashw((self.state >> 32) as u32)
    }

    /// Step the state and draw the next output word.
    pub fn gen(&mut self) -> (r: u32)
        ensures
            final(self).state == atto_step_v(old(self).state),
            r == atto_value_v(final(self).state),
    {
        let m = wide_mul(self.state, 0xaf251af3b0f025b5);
        self.state = if m == 0xffff_ffff_ffff_ffffu64 {
            0
        } else {
            m + 1
        };
        self.value()
    }

    /// The next sample in the half-open unit range: the output word
    /// taken as the fractional bits.
    pub fn gen_01(&mut self) -> (r: Fx)
        ensures
            final(self).state == atto_step_v(old(self).state),
            r.bits == atto_value_v(final(self).state) as i64,
    {
        let x = self.gen();
        Fx { bits: x as i64 }
    }

    /// The next sample in the closed unit range.
    pub fn gen_01_closed(&mut self) -> (r: Fx)
        ensures
            final(self).state == atto_step_v(old(self).state),
            r == fxs_div(
                Fx { bits: atto_value_v(final(self).state) as i64 },
                Fx { bits: 0xffff_ffff },
            ),
    {
        let x = self.gen();
        fx_div(Fx { bits: x as i64 }, Fx { bits: 0xffff_ffff })
    }
}

/// An easing curve: a shape applied to the fractional position inside
/// one interpolation segment. A split curve applies one shape to
/// rising segments and another to falling ones.
#[derive(Debug)]
pub enum SegmentInterpolator {
    /// The identity: linear interpolation.
    Id,
    /// The cubic smooth step.
    Smooth3,
    /// The quintic smooth step.
    Smooth5,
    /// The seventh-degree smooth step.
    Smooth7,
    /// The ninth-degree smooth step.
    Smooth9,
    /// The upward quarter-circle fade.
    Arcup,
    /// The downward quarter-circle fade.
    Arcdown,
    /// The sigmoidal fade with a precomputed sharpness power.
    Sigmoid {
        /// The exponent that sets the steepness at the middle.
        power: Fx,
    },
    /// A curve repeated in equal steps across the segment.
    Staircase {
        /// How many copies of the inner curve fill one segment.
        steps: Fx,
        /// The curve repeated in each step.
        inner: Box<SegmentInterpolator>,
    },
    /// One curve for rising segments, another for falling ones.
    Split {
        /// Applied when the segment rises.
        rise: Box<SegmentInterpolator>,
        /// Applied when the segment falls.
        fall: Box<SegmentInterpolator>,
    },
}

/// The sigmoidal fade at the value level: a power curve on each half
/// of the segment, meeting at the middle.
pub open spec fn sigmoid_apply_s(power: Fx, x: Fx) -> Fx {
    let half = Fx { bits: crate::fixed::HALF_SCALE };
    let one = Fx { bits: crate::fixed::SCALE };
    let two = Fx { bits: 0x2_0000_0000 };
    if x.bits < crate::fixed::HALF_SCALE {
        fxs_mul(half, pow_s(fxs_mul(x, two), power))
    } else {
        fxs_sub(one, fxs_mul(half, pow_s(fxs_mul(fxs_sub(one, x), two), power)))
    }
}

/// An easing curve applied to a position. A split curve applied
/// pointwise uses its rising shape.
pub open spec fn ease_s(e: SegmentInterpolator, x: Fx) -> Fx
    decreases e,
{
    match e {
        SegmentInterpolator::Id => x,
        SegmentInterpolator::Smooth3 => smooth3_s(x),
        SegmentInterpolator::Smooth5 => smooth5_s(x),
        SegmentInterpolator::Smooth7 => smooth7_s(x),
        SegmentInterpolator::Smooth9 => smooth9_s(x),
        SegmentInterpolator::Arcup => arcup_s(x),
        SegmentInterpolator::Arcdown => arcdown_s(x),
        SegmentInterpolator::Sigmoid { power } => sigmoid_apply_s(power, x),
        SegmentInterpolator::Staircase { steps, inner } => {
            let xs = fxs_mul(x, steps);
            let ix = crate::fixed::fxs_floor(xs);
            fxs_div(fxs_add(ease_s(*inner, fxs_sub(xs, ix)), ix), steps)
        },
        SegmentInterpolator::Split { rise, .. } => ease_s(*rise, x),
    }
}

/// Interpolation of one segment under an easing curve, at the value
/// level: a split curve picks its shape by whether the segment rises.
pub open spec fn seg_interp_s(e: SegmentInterpolator, y1: Fx, y2: Fx, t: Fx) -> Fx
    decreases e,
{
    match e {
        SegmentInterpolator::Split { rise, fall } => if y2.bits >= y1.bits {
            seg_interp_s(*rise, y1, y2, t)
        } else {
            seg_interp_s(*fall, y1, y2, t)
        },
        _ => lerp_s(y1, y2, ease_s(e, t)),
    }
}

impl SegmentInterpolator {
    /// Apply the curve to a position inside a segment.
    pub fn apply(&self, x: Fx) -> (r: Fx)
        ensures
            r == ease_s(*self, x),
        decreases *self,
    {
        match self {
            SegmentInterpolator::Id => x,
            SegmentInterpolator::Smooth3 => smooth3(x),
            SegmentInterpolator::Smooth5 => smooth5(x),
            SegmentInterpolator::Smooth7 => smooth7(x),
            SegmentInterpolator::Smooth9 => smooth9(x),
            SegmentInterpolator::Arcup => arcup(x),
            SegmentInterpolator::Arcdown => arcdown(x),
            SegmentInterpolator::Sigmoid { power } => {
                let half = Fx { bits: crate::fixed::HALF_SCALE };
                let one = Fx { bits: crate::fixed::SCALE };
                let two = Fx { bits: 0x2_0000_0000 };
                if x.bits < crate::fixed::HALF_SCALE {
                    fx_mul(half, pow(fx_mul(x, two), *power))
                } else {
                    fx_sub(one, fx_mul(half, pow(fx_mul(fx_sub(one, x), two), *power)))
                }
            },
            SegmentInterpolator::Staircase { steps, inner } => {
                let xs = fx_mul(x, *steps);
                let ix = crate::fixed::fx_floor(xs);
                fx_div(fx_add(inner.apply(fx_sub(xs, ix)), ix), *steps)
            },
            SegmentInterpolator::Split { rise, .. } => rise.apply(x),
        }
    }

    /// Interpolate between the ends of one segment at a relative
    /// position, easing the position by this curve.
    pub fn interpolate(&self, y1: Fx, y2: Fx, t: Fx) -> (r: Fx)
        ensures
            r == seg_interp_s(*self, y1, y2, t),
        decreases *self,
    {
        match self {
            SegmentInterpolator::Split { rise, fall } => if y2.bits >= y1.bits {
                rise.interpolate(y1, y2, t)
            } else {
                fall.interpolate(y1, y2, t)
            },
            _ => lerp(y1, y2, self.apply(t)),
        }
    }
}

/// A smooth sigmoidal easing curve with sharpness in the unit range:
/// linear at zero sharpness, nearly a step at one.
pub fn sigmoid(sharpness: Fx) -> (e: SegmentInterpolator)
    ensures
        e == (SegmentInterpolator::Sigmoid {
            power: fxs_mul(
                fxs_mul(sharpness, sharpness),
                fxs_add(
                    Fx { bits: 0x64_0000_0000 },
                    fxs_mul(
                        Fx { bits: 0x384_0000_0000 },
                        fxs_mul(fxs_mul(sharpness, sharpness), sharpness),
                    ),
                ),
            ),
        }),
{
    let power = fx_mul(
        fx_mul(sharpness, sharpness),
        fx_add(
            Fx { bits: 0x64_0000_0000 },
            fx_mul(Fx { bits: 0x384_0000_0000 }, fx_mul(fx_mul(sharpness, sharpness), sharpness)),
        ),
    );
    SegmentInterpolator::Sigmoid { power }
}

/// A staircase made of `n` copies of an easing curve per segment.
pub fn staircase(n: Fx, f: SegmentInterpolator) -> (e: SegmentInterpolator)
    ensures
        e == (SegmentInterpolator::Staircase { steps: n, inner: Box::new(f) }),
{
    SegmentInterpolator::Staircase { steps: n, inner: Box::new(f) }
}

/// A wave shaped like a cosine stitched from two eased pieces, at the
/// value level.
pub open spec fn ewave_s(e: SegmentInterpolator, x: Fx) -> Fx {
    let one = Fx { bits: crate::fixed::SCALE };
    let two = Fx { bits: 0x2_0000_0000 };
    let u1 = fxs_div(fxs_sub(x, Fx { bits: crate::fixed::FX_PI }), Fx { bits: crate::fixed::FX_FOUR_PI });
    let u2 = fxs_mul(fxs_sub(u1, crate::fixed::fxs_floor(u1)), two);
    let w0 = min_s(u2, one);
    let w1 = fxs_sub(u2, w0);
    fxs_sub(one, fxs_mul(fxs_sub(ease_s(e, w0), ease_s(e, w1)), two))
}

/// A wave shaped like a cosine, stitched together from two symmetric
/// eased pieces peaking at the origin.
pub fn ewave(e: &SegmentInterpolator, x: Fx) -> (r: Fx)
    ensures
        r == ewave_s(*e, x),
{
    let one = Fx { bits: crate::fixed::SCALE };
    let two = Fx { bits: 0x2_0000_0000 };
    let u1 = fx_div(fx_sub(x, Fx { bits: crate::fixed::FX_PI }), Fx { bits: crate::fixed::FX_FOUR_PI });
    let u2 = fx_mul(fx_sub(u1, crate::fixed::fx_floor(u1)), two);
    let w0 = min(u2, one);
    let w1 = fx_sub(u2, w0);
    fx_sub(one, fx_mul(fx_sub(e.apply(w0), e.apply(w1)), two))
}

/// The eased wave at a frequency in hertz, with time in seconds.
pub fn ewave_hz(e: &SegmentInterpolator, hz: Fx, t: Fx) -> (r: Fx)
    ensures
        r == ewave_s(*e, fxs_mul(fxs_mul(t, hz), Fx { bits: crate::fixed::FX_TAU })),
{
    ewave(e, fx_mul(fx_mul(t, hz), Fx { bits: crate::fixed::FX_TAU }))
}

/// One lattice point of the value noise, at the value level: a hash
/// of the seed and cell spread evenly over -1..1.
pub open spec fn noise_point_v(seed: i64, i: i64) -> int {
    let h = hashw_v((seed ^ i) as u32) as int;
    (2 * h * 0x1_0000_0000) / 0xffff_ffff - 0x1_0000_0000
}

/// One lattice point of the value noise.
fn noise_point(seed: i64, i: i64) -> (r: Fx)
    ensures
        r.bits as int == noise_point_v(seed, i),
{
    let h = hashw((seed ^ i) as u32);
    let w: u128 = 2 * (h as u128) * 0x1_0000_0000u128;
    let q: u128 = w / 0xffff_ffffu128;
    proof {
        vstd::arithmetic::div_mod::lemma_div_is_ordered(
            w as int,
            8589934590int * 0x1_0000_0000,
            0xffff_ffff,
        );
    }
    Fx { bits: (q as i64) - crate::fixed::SCALE }
}

/// The whole-unit cell index of a sample position.
fn cell_index(x: Fx) -> (i: i64)
    ensures
        i as int == (x.bits as int) / 0x1_0000_0000,
        -0x8000_0000 <= i < 0x8000_0000,
{
    proof {
        vstd::arithmetic::div_mod::lemma_div_is_ordered(
            x.bits as int,
            crate::fixed::FX_MAX_BITS as int,
            0x1_0000_0000,
        );
        vstd::arithmetic::div_mod::lemma_div_is_ordered(
            crate::fixed::FX_MIN_BITS as int,
            x.bits as int,
            0x1_0000_0000,
        );
    }
    crate::fixed::fdiv_u(x.bits, 0x1_0000_0000u64)
}

/// One-dimensional easing noise in -1..1 with frequency one, at the
/// value level: value noise whose segments are eased.
pub open spec fn enoise_s(e: SegmentInterpolator, seed: i64, x: Fx) -> Fx {
    let fv = crate::fixed::fxs_floor(x);
    let dx = fxs_sub(x, fv);
    let ix = (x.bits as int) / 0x1_0000_0000;
    let y1 = Fx { bits: noise_point_v(seed, ix as i64) as i64 };
    let y2 = Fx { bits: noise_point_v(seed, (ix + 1) as i64) as i64 };
    seg_interp_s(e, y1, y2, dx)
}

/// One-dimensional easing noise in -1..1 with frequency one: value
/// noise interpolated with an easing curve, one segment per integer
/// cell. The noise follows a triangular distribution.
pub fn enoise(ease: &SegmentInterpolator, seed: i64, x: Fx) -> (r: Fx)
    ensures
        r == enoise_s(*ease, seed, x),
{
    let fv = crate::fixed::fx_floor(x);
    let dx = fx_sub(x, fv);
    let ix = cell_index(x);
    let y1 = noise_point(seed, ix);
    let y2 = noise_point(seed, ix + 1);
    ease.interpolate(y1, y2, dx)
}

/// One-dimensional spline noise in -1..1 with frequency one, at the
/// value level: value noise run through the cubic spline.
pub open spec fn snoise_s(seed: i64, x: Fx) -> Fx {
    let fv = crate::fixed::fxs_floor(x);
    let dx = fxs_sub(x, fv);
    let ix = (x.bits as int) / 0x1_0000_0000;
    let y0 = Fx { bits: noise_point_v(seed, (ix - 1) as i64) as i64 };
    let y1 = Fx { bits: noise_point_v(seed, ix as i64) as i64 };
    let y2 = Fx { bits: noise_point_v(seed, (ix + 1) as i64) as i64 };
    let y3 = Fx { bits: noise_point_v(seed, (ix + 2) as i64) as i64 };
    spline_s(y0, y1, y2, y3, dx)
}

/// One-dimensional spline noise in -1..1 with frequency one: value
/// noise interpolated with the cubic spline, one segment per integer
/// cell. The noise follows a triangular distribution.
pub fn snoise(seed: i64, x: Fx) -> (r: Fx)
    ensures
        r == snoise_s(seed, x),
{
    let fv = crate::fixed::fx_floor(x);
    let dx = fx_sub(x, fv);
    let ix = cell_index(x);
    let y0 = noise_point(seed, ix - 1);
    let y1 = noise_point(seed, ix);
    let y2 = noise_point(seed, ix + 1);
    let y3 = noise_point(seed, ix + 2);
    spline(y0, y1, y2, y3, dx)
}

} // verus!
