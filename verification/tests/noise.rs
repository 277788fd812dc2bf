use fundsp::fixed::{Fx, SCALE};
use fundsp::math::{enoise, ewave, ewave_hz, sigmoid, snoise, staircase, SegmentInterpolator};

fn fx(whole: i64) -> Fx {
    Fx { bits: whole * SCALE }
}

fn half() -> Fx {
    Fx { bits: SCALE / 2 }
}

#[test]
fn test_interpolators_fix_endpoints() {
    let curves = [
        SegmentInterpolator::Id,
        SegmentInterpolator::Smooth3,
        SegmentInterpolator::Smooth5,
        SegmentInterpolator::Smooth7,
        SegmentInterpolator::Smooth9,
        SegmentInterpolator::Arcup,
        SegmentInterpolator::Arcdown,
    ];
    for c in curves {
        assert_eq!(c.apply(fx(0)).bits, 0);
        assert_eq!(c.apply(fx(1)).bits, SCALE);
        // Interpolation with any curve hits the segment's endpoints.
        assert_eq!(c.interpolate(fx(3), fx(7), fx(0)), fx(3));
        assert_eq!(c.interpolate(fx(3), fx(7), fx(1)), fx(7));
    }
}

#[test]
fn test_sigmoid_curve() {
    // Zero sharpness gives back the identity: the power is zero, and
    // anything nonzero to the zeroth power is one, so the halves meet
    // linearly at the midpoint.
    let s = sigmoid(fx(0));
    let mid = s.apply(half());
    assert!((mid.bits - SCALE / 2).abs() <= SCALE / 1000);
    // High sharpness pushes the quarter point toward zero.
    let sharp = sigmoid(Fx { bits: 9 * SCALE / 10 });
    let q = sharp.apply(Fx { bits: SCALE / 4 });
    assert!(q.bits < SCALE / 100);
}

#[test]
fn test_staircase_steps() {
    let st = staircase(fx(2), SegmentInterpolator::Smooth3);
    // Two full steps cross the whole range.
    assert_eq!(st.apply(fx(0)).bits, 0);
    assert_eq!(st.apply(fx(1)).bits, SCALE);
    // The midpoint lands exactly between the steps.
    let mid = st.apply(half());
    assert!((mid.bits - SCALE / 2).abs() <= 2);
}

#[test]
fn test_split_interpolator() {
    let split = SegmentInterpolator::Split {
        rise: Box::new(SegmentInterpolator::Smooth3),
        fall: Box::new(SegmentInterpolator::Id),
    };
    // Rising segments use the smooth curve, falling ones the line.
    let up = split.interpolate(fx(0), fx(4), Fx { bits: SCALE / 4 });
    let down = split.interpolate(fx(4), fx(0), Fx { bits: SCALE / 4 });
    assert_eq!(up, SegmentInterpolator::Smooth3.interpolate(fx(0), fx(4), Fx { bits: SCALE / 4 }));
    assert_eq!(down, SegmentInterpolator::Id.interpolate(fx(4), fx(0), Fx { bits: SCALE / 4 }));
    assert_ne!(up.bits, 4 * SCALE - down.bits);
}

#[test]
fn test_enoise_properties() {
    // Deterministic in the seed and position.
    let a = enoise(&SegmentInterpolator::Smooth3, 42, half());
    let b = enoise(&SegmentInterpolator::Smooth3, 42, half());
    assert_eq!(a, b);
    // A different seed gives a different segment (the quarter point
    // avoids the symmetric midpoint of the segment).
    let q = Fx { bits: SCALE / 4 };
    let c = enoise(&SegmentInterpolator::Smooth3, 1234, q);
    let d = enoise(&SegmentInterpolator::Smooth3, 42, q);
    assert_ne!(c, d);
    // Eased value noise stays within the lattice range.
    for i in -20i64..20 {
        let x = Fx { bits: i * SCALE / 7 };
        let v = enoise(&SegmentInterpolator::Smooth3, 7, x);
        assert!(v.bits >= -SCALE && v.bits <= SCALE);
    }
}

#[test]
fn test_snoise_properties() {
    let a = snoise(11, half());
    assert_eq!(a, snoise(11, half()));
    // Spline noise may overshoot the lattice points by at most an
    // eighth of their range.
    for i in -20i64..20 {
        let x = Fx { bits: i * SCALE / 7 };
        let v = snoise(5, x);
        assert!(v.bits >= -SCALE - SCALE / 4 && v.bits <= SCALE + SCALE / 4);
    }
}

#[test]
fn test_ewave_shape() {
    // The eased wave peaks where its two pieces meet and dips a full
    // stitch later.
    let e = SegmentInterpolator::Smooth3;
    let peak = ewave(&e, Fx { bits: fundsp::fixed::FX_PI });
    assert_eq!(peak.bits, SCALE);
    let trough = ewave(&e, Fx { bits: 3 * fundsp::fixed::FX_PI });
    assert_eq!(trough.bits, -SCALE);
    // The frequency form agrees with direct evaluation: one hertz for
    // half a second is half a turn.
    let w = ewave_hz(&e, fx(1), Fx { bits: SCALE / 2 });
    let direct = ewave(&e, Fx { bits: fundsp::fixed::FX_PI });
    assert_eq!(w, direct);
}
