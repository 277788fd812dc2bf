use fundsp::fixed::{
    fx_add, fx_div, fx_int, fx_mul, fx_neg, fx_one, fx_sub, fx_zero, Fx, FX_HALF_PI, FX_PI,
    FX_QUARTER_PI, SCALE,
};
use fundsp::math::{
    abs, amp_db, a_weight, bpm_hz, ceil, clamp, clamp01, clamp11, cos, cubed, db_amp, dissonance,
    dissonance_max, exp, exp2, floor, hashk, hashw, lerp, lerp11, log, log2, m_weight, max, midi_hz,
    min, pow, rnd, round, semitone, signum, sin, smooth3, smooth5, smooth7, smooth9, softsign,
    spline, splinem, sqrt, squared, AttoRand,
};

fn fx(whole: i64) -> Fx {
    Fx { bits: whole * SCALE }
}

fn close(a: Fx, b_bits: i64, tol: i64) -> bool {
    (a.bits - b_bits).abs() <= tol
}

#[test]
fn test_basic_ops() {
    assert_eq!(abs(fx(-3)).bits, 3 * SCALE);
    assert_eq!(abs(fx(3)).bits, 3 * SCALE);
    assert_eq!(signum(fx(-7)).bits, -SCALE);
    assert_eq!(signum(fx(0)).bits, 0);
    assert_eq!(signum(fx(9)).bits, SCALE);
    assert_eq!(min(fx(2), fx(5)).bits, 2 * SCALE);
    assert_eq!(max(fx(2), fx(5)).bits, 5 * SCALE);
    assert_eq!(clamp(fx(0), fx(1), fx(3)).bits, SCALE);
    assert_eq!(clamp01(fx(-4)).bits, 0);
    assert_eq!(clamp11(fx(-4)).bits, -SCALE);
    assert_eq!(squared(fx(3)).bits, 9 * SCALE);
    assert_eq!(cubed(fx(-2)).bits, -8 * SCALE);
}

#[test]
fn test_conversions() {
    assert_eq!(fx_one().bits, SCALE);
    assert_eq!(fx_zero().bits, 0);
    assert_eq!(fx_int(5).bits, 5 * SCALE);
    assert_eq!(fx_int(-5).bits, -5 * SCALE);
    // Whole numbers beyond the representable range saturate.
    assert_eq!(fx_int(i64::MAX).bits, i64::MAX);
    assert_eq!(fx_int(i64::MIN).bits, i64::MIN);
}

#[test]
fn test_rounding() {
    let half = Fx { bits: SCALE / 2 };
    assert_eq!(floor(half).bits, 0);
    assert_eq!(ceil(half).bits, SCALE);
    assert_eq!(round(half).bits, SCALE);
    let neg = Fx { bits: -SCALE / 2 };
    assert_eq!(floor(neg).bits, -SCALE);
    assert_eq!(ceil(neg).bits, 0);
    assert_eq!(round(neg).bits, -SCALE);
    assert_eq!(floor(fx(3)).bits, 3 * SCALE);
}

#[test]
fn test_sqrt_exact() {
    assert_eq!(sqrt(fx(4)).bits, 2 * SCALE);
    assert_eq!(sqrt(fx(9)).bits, 3 * SCALE);
    assert_eq!(sqrt(fx(0)).bits, 0);
    assert_eq!(sqrt(fx(-5)).bits, 0);
    // The square root of two, floored to the grid.
    let r = sqrt(fx(2));
    let rr = r.bits as u128 * r.bits as u128;
    let n = 2u128 * (SCALE as u128) * (SCALE as u128);
    assert!(rr <= n);
    assert!((r.bits as u128 + 1) * (r.bits as u128 + 1) > n);
}

#[test]
fn test_exp_log() {
    assert_eq!(exp(fx(0)).bits, SCALE);
    // e to within a few grid steps of truncation noise.
    assert!(close(exp(fx(1)), 11674931555, 64));
    assert_eq!(log(fx(1)).bits, 0);
    assert!(close(log(fx(2)), 2977044472, 64));
    assert!(close(exp2(fx(3)), 8 * SCALE, 192));
    assert!(close(log2(fx(8)), 3 * SCALE, 16));
    assert!(close(pow(fx(2), fx(10)), 1024 * SCALE, 1024 * 40));
    assert_eq!(pow(fx(0), fx(3)).bits, 0);
    assert_eq!(pow(fx(0), fx(0)).bits, SCALE);
}

#[test]
fn test_trig() {
    assert_eq!(sin(Fx { bits: 0 }).bits, 0);
    assert_eq!(sin(Fx { bits: FX_HALF_PI }).bits, SCALE);
    assert_eq!(sin(Fx { bits: FX_PI }).bits, 0);
    assert_eq!(cos(Fx { bits: 0 }).bits, SCALE);
    assert_eq!(cos(Fx { bits: FX_PI }).bits, -SCALE);
    // sin(pi/4) is close to sqrt(1/2).
    assert!(close(sin(Fx { bits: FX_QUARTER_PI }), 3037000500, 1000000));
    // Odd symmetry.
    assert_eq!(
        sin(Fx { bits: -FX_HALF_PI }).bits,
        fx_neg(sin(Fx { bits: FX_HALF_PI })).bits
    );
}

#[test]
fn test_interpolation() {
    assert_eq!(lerp(fx(0), fx(1), Fx { bits: SCALE / 2 }).bits, SCALE / 2);
    assert_eq!(lerp(fx(2), fx(6), Fx { bits: SCALE / 2 }).bits, 4 * SCALE);
    assert_eq!(lerp11(fx(2), fx(6), Fx { bits: 0 }).bits, 4 * SCALE);
    // Spline hits its middle knots exactly at the segment ends.
    assert_eq!(spline(fx(0), fx(1), fx(2), fx(3), fx(0)).bits, SCALE);
    assert_eq!(spline(fx(0), fx(1), fx(2), fx(3), fx(1)).bits, 2 * SCALE);
    assert_eq!(splinem(fx(0), fx(1), fx(2), fx(3), fx(0)).bits, SCALE);
    assert_eq!(splinem(fx(0), fx(1), fx(2), fx(3), fx(1)).bits, 2 * SCALE);
}

#[test]
fn test_smoothing() {
    for f in [smooth3 as fn(Fx) -> Fx, smooth5, smooth7, smooth9] {
        assert_eq!(f(fx(0)).bits, 0);
        assert_eq!(f(fx(1)).bits, SCALE);
        let mid = f(Fx { bits: SCALE / 2 });
        assert!(close(mid, SCALE / 2, 16));
    }
    assert_eq!(softsign(fx(0)).bits, 0);
    assert!(softsign(fx(1000)).bits < SCALE);
}

#[test]
fn test_db_and_tuning() {
    assert_eq!(db_amp(fx(0)).bits, SCALE);
    assert!(close(db_amp(fx(20)), 10 * SCALE, 10 * 64));
    assert!(close(amp_db(fx(10)), 20 * SCALE, 20 * 64));
    assert!(close(midi_hz(fx(69)), 440 * SCALE, 440 * 64));
    assert!(close(semitone(fx(12)), 2 * SCALE, 128));
    assert_eq!(bpm_hz(fx(120)).bits, 2 * SCALE);
}

#[test]
fn test_weighting_curves() {
    // Both weighting curves are normalized to one at 1 kHz.
    let tol = SCALE / 100;
    assert!(close(a_weight(fx(1000)), SCALE, tol));
    assert!(close(m_weight(fx(1000)), SCALE, tol));
    // They roll off far below the normalization point.
    assert!(a_weight(fx(20)).bits < SCALE / 2);
    assert!(m_weight(fx(20)).bits < SCALE / 2);
}

#[test]
fn test_dissonance() {
    // Identical tones are consonant.
    let d = dissonance(fx(440), fx(440));
    assert!(d.bits.abs() < SCALE / 1000);
    // The most dissonant partner of a tone is strictly above it.
    assert!(dissonance_max(fx(440)).bits > 440 * SCALE);
    let peak = dissonance_max(fx(440));
    assert!(dissonance(fx(440), peak).bits > SCALE / 2);
}

#[test]
fn test_hashw_reference() {
    for x in [0u32, 1, 2, 12345, 0xffff_ffff, 0xdead_beef] {
        let a = x ^ (x >> 16);
        let b = a.wrapping_mul(0x7feb352d);
        let c = b ^ (b >> 15);
        let d = c.wrapping_mul(0x846ca68b);
        let expected = d ^ (d >> 16);
        assert_eq!(hashw(x), expected);
    }
}

#[test]
fn test_hashk_reference() {
    for x in [0i64, 1, -1, 987654321, i64::MIN, i64::MAX] {
        let u = x as u64;
        let u1 = (u ^ (u >> 30)).wrapping_mul(0xbf58476d1ce4e5b9);
        let u2 = (u1 ^ (u1 >> 27)).wrapping_mul(0x94d049bb133111eb);
        let u3 = (u2 ^ (u2 >> 31)).wrapping_mul(0xd6e8feb86659fd93);
        let expected = (u3 ^ (u3 >> 32)) as i64;
        assert_eq!(hashk(x), expected);
    }
}

#[test]
fn test_attorand() {
    let mut a = AttoRand::new(123);
    let mut b = AttoRand::new(123);
    for _ in 0..32 {
        assert_eq!(a.gen(), b.gen());
    }
    // Hashing is deterministic and sensitive to the data.
    let h1 = AttoRand::new(1).hash(42).state;
    let h2 = AttoRand::new(1).hash(42).state;
    let h3 = AttoRand::new(1).hash(43).state;
    assert_eq!(h1, h2);
    assert_ne!(h1, h3);
    // Unit-range samples have only fractional bits.
    let mut c = AttoRand::new(7);
    for _ in 0..64 {
        let v = c.gen_01();
        assert!(v.bits >= 0 && v.bits < SCALE);
        let w = c.gen_01_closed();
        assert!(w.bits >= 0 && w.bits <= SCALE);
    }
}

#[test]
fn test_rnd_reference() {
    // The indexed generator matches its reference mixing rounds and
    // stays in the half-open unit range.
    for x in [0i64, 1, -1, 424242, i64::MIN] {
        let u = x as u64;
        let u1 = u.wrapping_mul(0x9e3779b97f4a7c15);
        let u2 = (u1 ^ (u1 >> 30)).wrapping_mul(0xbf58476d1ce4e5b9);
        let u3 = (u2 ^ (u2 >> 27)).wrapping_mul(0x94d049bb133111eb);
        let u4 = u3 ^ (u3 >> 31);
        let r = rnd(x);
        assert_eq!(r.bits, (u4 >> 32) as i64);
        assert!(r.bits >= 0 && r.bits < SCALE);
    }
}

#[test]
fn test_arith_saturates() {
    let big = Fx { bits: i64::MAX };
    assert_eq!(fx_add(big, big).bits, i64::MAX);
    assert_eq!(fx_sub(Fx { bits: i64::MIN }, big).bits, i64::MIN);
    assert_eq!(fx_mul(big, big).bits, i64::MAX);
    assert_eq!(fx_neg(Fx { bits: i64::MIN }).bits, i64::MAX);
    // Division by zero saturates by the sign of the dividend.
    assert_eq!(fx_div(fx(1), fx(0)).bits, i64::MAX);
    assert_eq!(fx_div(fx(-1), fx(0)).bits, i64::MIN);
    assert_eq!(fx_div(fx(0), fx(0)).bits, 0);
    // Exact division.
    assert_eq!(fx_div(fx(6), fx(3)).bits, 2 * SCALE);
}
