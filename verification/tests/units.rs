use fundsp::fixed::{fx_add, fx_mul, Fx, SCALE};
use fundsp::pan::{pan_weights, Mixer, Panner};
use fundsp::signal::{Cpx, Signal};
use fundsp::unit::{
    branch, delay, difference, negated, offset, parallel, pass, scaled, series, stack, Setting,
    Unit,
};

fn fx(whole: i64) -> Fx {
    Fx { bits: whole * SCALE }
}

fn half() -> Fx {
    Fx { bits: SCALE / 2 }
}

#[test]
fn test_pan_weights_center_and_edges() {
    // Dead centre: both weights equal.
    let (l, r) = pan_weights(fx(0));
    assert_eq!(l, r);
    // Close to cos(pi/4) = sqrt(1/2).
    assert!((l.bits - 3037000500i64).abs() < 1_000_000);
    // Hard left and right: one side exactly full, the other silent.
    assert_eq!(pan_weights(fx(1)), (Fx { bits: 0 }, Fx { bits: SCALE }));
    assert_eq!(pan_weights(fx(-1)), (Fx { bits: SCALE }, Fx { bits: 0 }));
    // Out-of-range positions clamp to the edges.
    assert_eq!(pan_weights(fx(7)), pan_weights(fx(1)));
}

#[test]
fn test_pan_equal_power() {
    // The summed power of the two weights stays within rounding of
    // one across the pan range.
    for p in [-100i64, -75, -50, -25, 0, 25, 50, 75, 100] {
        let (l, r) = pan_weights(Fx { bits: p * SCALE / 100 });
        let power = fx_add(fx_mul(l, l), fx_mul(r, r));
        assert!((power.bits - SCALE).abs() < SCALE / 1000);
    }
}

#[test]
fn test_panner_tick() {
    let mut p = Panner::new(fx(1));
    let out = p.tick(&vec![fx(3)]);
    assert_eq!(out, vec![Fx { bits: 0 }, fx(3)]);
    // A controlled panner rederives its weights from input 1.
    let mut c = Panner::new_controlled(fx(0));
    let out = c.tick(&vec![fx(2), fx(-1)]);
    assert_eq!(out, vec![fx(2), Fx { bits: 0 }]);
    // set_pan replaces the weights.
    p.set_pan(fx(-1));
    let out = p.tick(&vec![fx(5)]);
    assert_eq!(out, vec![fx(5), Fx { bits: 0 }]);
}

#[test]
fn test_mixer_tick_exact() {
    let m = Mixer::new(vec![vec![fx(1), fx(1)], vec![fx(1), fx(-1)]]);
    let out = m.tick(&vec![half(), Fx { bits: SCALE / 4 }]);
    assert_eq!(out[0].bits, 3 * SCALE / 4);
    assert_eq!(out[1].bits, SCALE / 4);
}

#[test]
fn test_mixer_linearity() {
    // Mixing the sum agrees with summing the mixes, within one
    // rounding step per input channel.
    let m = Mixer::new(vec![vec![half(), Fx { bits: SCALE / 3 }]]);
    let x = vec![Fx { bits: 12345678901 }, Fx { bits: -987654321 }];
    let y = vec![Fx { bits: 5555555555 }, Fx { bits: 777777777 }];
    let xy = vec![fx_add(x[0], y[0]), fx_add(x[1], y[1])];
    let a = m.tick(&x)[0].bits + m.tick(&y)[0].bits;
    let b = m.tick(&xy)[0].bits;
    assert!(a <= b && b <= a + 2);
}

#[test]
fn test_arity_closure() {
    let p = Unit::Pan(Panner::new(fx(0)));
    let m = Unit::Mix(Mixer::new(vec![vec![fx(1), fx(1)]]));
    // A panner feeds the two-input mixer: 1 in, 1 out.
    let chain = series(p, m);
    assert_eq!(chain.inputs(), 1);
    assert_eq!(chain.outputs(), 1);
    let st = stack(pass(2), pass(3));
    assert_eq!(st.inputs(), 5);
    assert_eq!(st.outputs(), 5);
    let br = branch(pass(2), pass(2));
    assert_eq!(br.inputs(), 2);
    assert_eq!(br.outputs(), 4);
    let pr = parallel(pass(2), pass(2));
    assert_eq!(pr.inputs(), 2);
    assert_eq!(pr.outputs(), 2);
}

#[test]
fn test_parallel_sum_identity() {
    // (A + B).tick(x) equals A.tick(x) + B.tick(x), sample by sample.
    let x = vec![half()];
    let mut a = scaled(pass(1), fx(3));
    let mut b = offset(pass(1), fx(1));
    let oa = a.tick(&x);
    let ob = b.tick(&x);
    let mut s = parallel(scaled(pass(1), fx(3)), offset(pass(1), fx(1)));
    let os = s.tick(&x);
    assert_eq!(os[0], fx_add(oa[0], ob[0]));
}

#[test]
fn test_arithmetic_combinators() {
    let x = vec![fx(2)];
    let mut n = negated(pass(1));
    assert_eq!(n.tick(&x)[0], fx(-2));
    let mut d = difference(scaled(pass(1), fx(5)), pass(1));
    assert_eq!(d.tick(&x)[0], fx(8));
    let mut o = offset(pass(1), fx(10));
    assert_eq!(o.tick(&x)[0], fx(12));
}

#[test]
fn test_delay_and_reset() {
    let mut d = delay();
    assert_eq!(d.tick(&vec![fx(1)])[0], fx(0));
    assert_eq!(d.tick(&vec![fx(2)])[0], fx(1));
    assert_eq!(d.tick(&vec![fx(3)])[0], fx(2));
    d.reset();
    // Reset clears the held sample to the power-on state.
    assert_eq!(d.tick(&vec![fx(4)])[0], fx(0));
}

#[test]
fn test_process_matches_tick() {
    // Block processing is sample-for-sample the same as ticking.
    let mut block = series(delay(), scaled(pass(1), fx(2)));
    let input = vec![vec![fx(1), fx(2), fx(3), fx(4)]];
    let out = block.process(4, &input);
    let mut ticked = series(delay(), scaled(pass(1), fx(2)));
    for t in 0..4 {
        let o = ticked.tick(&vec![input[0][t]]);
        assert_eq!(out[0][t], o[0]);
    }
}

#[test]
fn test_panner_block_process() {
    // The panner's in-place block form matches per-sample ticking,
    // with the control channel re-deriving the weights each index.
    let mut blocked = Panner::new_controlled(fx(0));
    let audio = vec![fx(1), fx(2), fx(3), fx(4)];
    let pans = vec![fx(-1), fx(0), fx(1), fx(0)];
    let out = blocked.process(4, &vec![audio.clone(), pans.clone()]);
    let mut ticked = Panner::new_controlled(fx(0));
    for t in 0..4 {
        let o = ticked.tick(&vec![audio[t], pans[t]]);
        assert_eq!(out[0][t], o[0]);
        assert_eq!(out[1][t], o[1]);
    }
    assert_eq!(blocked, ticked);
}

#[test]
fn test_set_reaches_panners() {
    let mut u = series(Unit::Pan(Panner::new(fx(0))), pass(2));
    u.set(Setting::Pan(fx(1)));
    let out = u.tick(&vec![fx(1)]);
    assert_eq!(out, vec![fx(0), fx(1)]);
}

#[test]
fn test_signal_descriptors() {
    let one = Cpx { re: fx(1), im: fx(0) };
    let s = Signal::Response(one);
    // Scaling a response scales its gain.
    assert_eq!(s.scale(half()), Signal::Response(Cpx { re: half(), im: fx(0) }));
    // An unknown response stays unknown, and poisons combination:
    // "no response" is distinguishable from a zero response.
    assert_eq!(Signal::Unknown.scale(half()), Signal::Unknown);
    assert_eq!(s.combine_linear(Signal::Unknown), Signal::Unknown);
    assert_eq!(
        s.combine_linear(s),
        Signal::Response(Cpx { re: fx(2), im: fx(0) })
    );
    assert_ne!(Signal::Unknown, Signal::Response(Cpx { re: fx(0), im: fx(0) }));
}

#[test]
fn test_panner_route_frozen() {
    let p = Panner::new(fx(-1));
    let input = vec![Signal::Response(Cpx { re: fx(1), im: fx(0) })];
    let out = p.route(&input);
    // Hard left: all gain on the left output, none on the right.
    assert_eq!(out[0], Signal::Response(Cpx { re: fx(1), im: fx(0) }));
    assert_eq!(out[1], Signal::Response(Cpx { re: fx(0), im: fx(0) }));
}

#[test]
fn test_mixer_route_combines_paths() {
    let m = Mixer::new(vec![vec![fx(1), fx(1)]]);
    let g = Signal::Response(Cpx { re: half(), im: fx(0) });
    let out = m.route(&vec![g, g]);
    // Two half-gain paths into one output add to unit gain.
    assert_eq!(out[0], Signal::Response(Cpx { re: fx(1), im: fx(0) }));
    // One unknown path makes the combined output unknown.
    let out2 = m.route(&vec![g, Signal::Unknown]);
    assert_eq!(out2[0], Signal::Unknown);
}
