use fundsp::fixed::{Fx, SCALE};
use fundsp::net::{Net, NetError};
use fundsp::pan::{Mixer, Panner};
use fundsp::unit::{delay, pass, pipe, scaled, series, Unit};

fn fx(whole: i64) -> Fx {
    Fx { bits: whole * SCALE }
}

#[test]
fn test_net_push_validates_arity() {
    let mut net = Net::new(1);
    assert_eq!(net.inputs(), 1);
    assert_eq!(net.outputs(), 1);
    // A panner takes the mono channel and widens to stereo.
    assert_eq!(net.push(Unit::Pan(Panner::new(fx(0)))), Ok(()));
    assert_eq!(net.outputs(), 2);
    // Another mono unit no longer fits.
    assert_eq!(net.push(delay()), Err(NetError::ChannelMismatch));
    assert_eq!(net.outputs(), 2);
    // A stereo-to-mono mixer does.
    assert_eq!(
        net.push(Unit::Mix(Mixer::new(vec![vec![fx(1), fx(1)]]))),
        Ok(())
    );
    assert_eq!(net.outputs(), 1);
}

#[test]
fn test_net_append_matches_static_series() {
    // Appending units one at a time and processing a fixed input
    // gives the same output as the equivalent static series.
    let mut net = Net::new(1);
    net.push(delay()).unwrap();
    net.push(scaled(pass(1), fx(3))).unwrap();
    net.push(delay()).unwrap();
    let mut unit = series(delay(), series(scaled(pass(1), fx(3)), delay()));
    let input = [fx(5), fx(-2), fx(7), fx(0), fx(1)];
    for x in input {
        let a = net.tick(&vec![x]);
        let b = unit.tick(&vec![x]);
        assert_eq!(a, b);
    }
}

#[test]
fn test_net_to_unit() {
    let mut net = Net::new(1);
    assert!(net.to_unit().is_err());
    net = Net::new(1);
    net.push(scaled(pass(1), fx(2))).unwrap();
    net.push(delay()).unwrap();
    let folded = net.to_unit().unwrap();
    // The folded unit is the same chain built with the combinator.
    let mut by_hand = pipe(vec![scaled(pass(1), fx(2)), delay()]);
    let mut f = folded;
    for x in [fx(1), fx(2), fx(3)] {
        assert_eq!(f.tick(&vec![x]), by_hand.tick(&vec![x]));
    }
}

#[test]
fn test_net_reset_and_rate() {
    let mut net = Net::new(1);
    net.push(delay()).unwrap();
    net.tick(&vec![fx(9)]);
    net.reset();
    // After a reset the delay line is silent again.
    assert_eq!(net.tick(&vec![fx(1)]), vec![fx(0)]);
    net.set_sample_rate(fx(48000));
    // The chain still processes after a rate change.
    assert_eq!(net.tick(&vec![fx(2)]), vec![fx(1)]);
}

#[test]
fn test_net_block_process() {
    // Block processing a chain equals ticking it sample by sample.
    let mut blocked = Net::new(1);
    blocked.push(delay()).unwrap();
    blocked.push(scaled(pass(1), fx(2))).unwrap();
    let input = vec![vec![fx(1), fx(0), fx(-3), fx(5)]];
    let out = blocked.process(4, &input);
    let mut ticked = Net::new(1);
    ticked.push(delay()).unwrap();
    ticked.push(scaled(pass(1), fx(2))).unwrap();
    for t in 0..4 {
        let o = ticked.tick(&vec![input[0][t]]);
        assert_eq!(out[0][t], o[0]);
    }
}

#[test]
fn test_net_append_graphs() {
    // Two graphs splice in series when the seam matches.
    let mut front = Net::new(1);
    front.push(Unit::Pan(Panner::new(fx(0)))).unwrap();
    let mut back = Net::new(2);
    back.push(Unit::Mix(Mixer::new(vec![vec![fx(1), fx(1)]])))
        .unwrap();
    assert_eq!(front.append(back), Ok(()));
    assert_eq!(front.outputs(), 1);
    // A seam mismatch is rejected and changes nothing.
    let wrong = Net::new(3);
    assert_eq!(front.append(wrong), Err(NetError::ChannelMismatch));
    assert_eq!(front.outputs(), 1);
}

#[test]
fn test_empty_net_passes_channels() {
    let mut net = Net::new(3);
    let frame = vec![fx(1), fx(2), fx(3)];
    assert_eq!(net.tick(&frame), frame);
}
