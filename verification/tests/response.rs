use fundsp::fixed::{Fx, SCALE};
use fundsp::signal::{Cpx, Signal};
use fundsp::unit::delay;

fn to_f64(x: Fx) -> f64 {
    x.bits as f64 / SCALE as f64
}

/// Drive a known linear unit with an impulse, measure its discrete
/// Fourier transform, and check that the analytic response reported
/// by `route` agrees with the measurement: magnitude within 0.05 dB
/// and phase within 1e-4 of a turn.
#[test]
fn test_route_matches_impulse_response() {
    let sr = 44100.0f64;
    // Capture the impulse response of a single-sample delay.
    let mut d = delay();
    let mut captured: Vec<f64> = Vec::new();
    captured.push(to_f64(d.tick(&vec![Fx { bits: SCALE }])[0]));
    for _ in 0..63 {
        captured.push(to_f64(d.tick(&vec![Fx { bits: 0 }])[0]));
    }
    let probe = delay();
    for f_hz in [1000i64, 5000, 10000, 15000] {
        // The measured transfer function at this frequency.
        let omega = 2.0 * std::f64::consts::PI * (f_hz as f64) / sr;
        let mut re = 0.0f64;
        let mut im = 0.0f64;
        for (n, y) in captured.iter().enumerate() {
            re += y * (omega * n as f64).cos();
            im -= y * (omega * n as f64).sin();
        }
        // The analytic transfer function from the response query.
        let input = vec![Signal::Response(Cpx {
            re: Fx { bits: SCALE },
            im: Fx { bits: 0 },
        })];
        let out = probe.route(&input, Fx { bits: f_hz * SCALE });
        let g = match out[0] {
            Signal::Response(c) => c,
            Signal::Unknown => panic!("a delay has a definite response"),
        };
        let (gr, gi) = (to_f64(g.re), to_f64(g.im));
        let measured_mag = (re * re + im * im).sqrt();
        let routed_mag = (gr * gr + gi * gi).sqrt();
        let db = 20.0 * (routed_mag / measured_mag).log10();
        assert!(db.abs() < 0.05, "magnitude off by {} dB at {} Hz", db, f_hz);
        let measured_phase = im.atan2(re);
        let routed_phase = gi.atan2(gr);
        let dp = (measured_phase - routed_phase).abs();
        assert!(
            dp < 1.0e-4 * 2.0 * std::f64::consts::PI,
            "phase off by {} rad at {} Hz",
            dp,
            f_hz
        );
    }
}
