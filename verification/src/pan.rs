//! Panning and mixing units.
//!
//! The panner spreads a mono signal over two outputs with equal-power
//! weights derived from a pan position; the mixer applies a fixed
//! coefficient matrix to its input frame.

use vstd::prelude::*;

verus! {

use crate::fixed::Fx;
use crate::fixed::SCALE;
use crate::fixed::FX_QUARTER_PI;
use crate::fixed::fxs_add;
use crate::fixed::fxs_mul;
use crate::fixed::fxs_cos;
use crate::fixed::fxs_sin;
use crate::fixed::fx_add;
use crate::fixed::fx_mul;
use crate::fixed::fx_cos;
use crate::fixed::fx_sin;
use crate::math::clamp11;
use crate::math::clamp11_s;
use crate::signal::Signal;
use crate::signal::sig_scale_s;
use crate::signal::sig_add_s;

/// The pan angle: the clamped pan position mapped affinely from
/// -1..1 onto 0..pi/2.
pub open spec fn pan_angle_s(value: Fx) -> Fx {
    fxs_mul(fxs_add(clamp11_s(value), Fx { bits: SCALE }), Fx { bits: FX_QUARTER_PI })
}

/// Equal-power pan weights for a pan position in -1..1: the cosine and
/// sine of the pan angle, so the left weight falls as the right rises
/// while the summed power stays near one.
pub open spec fn pan_weights_s(value: Fx) -> (Fx, Fx) {
    let angle = pan_angle_s(value);
    (fxs_cos(angle), fxs_sin(angle))
}

/// Return equal-power pan weights (left, right) for a pan position in
/// -1..1.
pub fn pan_weights(value: Fx) -> (w: (Fx, Fx))
    ensures
        w == pan_weights_s(value),
{
    let c = clamp11(value);
    let angle = fx_mul(fx_add(c, Fx { bits: SCALE }), Fx { bits: FX_QUARTER_PI });
    (fx_cos(angle), fx_sin(angle))
}

/// At the centre of the pan range the two weights are exactly equal:
/// both are the cosine of an eighth turn. The angle constants are
/// exact multiples of the quarter-pi constant, so the quadrant
/// symmetry of the sine makes the equality exact in fixed point.
pub proof fn lemma_pan_center()
    ensures
        pan_weights_s((Fx { bits: 0 })).0 == pan_weights_s((Fx { bits: 0 })).1,
        pan_weights_s((Fx { bits: 0 })).0 == fxs_cos((Fx { bits: FX_QUARTER_PI })),
{
    let z = Fx { bits: 0 };
    assert(clamp11_s(z) == z);
    assert(pan_angle_s(z) == Fx { bits: FX_QUARTER_PI });
    let qp = crate::fixed::FX_QUARTER_PI as int;
    let hp = crate::fixed::FX_HALF_PI as int;
    let tau = crate::fixed::FX_TAU as int;
    let sc = crate::fixed::SCALE as int;
    assert(crate::fixed::fx_add_v(qp, hp) == 3 * qp);
    assert((3 * qp) % tau == 3 * qp);
    assert((3 * qp) / hp == 1);
    assert((3 * qp) % hp == qp);
    assert(qp % tau == qp);
    assert(qp / hp == 0);
    assert(qp % hp == qp);
    assert((qp * sc) / hp == crate::fixed::HALF_SCALE as int);
    assert(crate::fixed::fx_cos_v(qp) == crate::fixed::sin_quarter_v(
        sc - crate::fixed::HALF_SCALE as int,
    ));
    assert(crate::fixed::fx_sin_v(qp) == crate::fixed::sin_quarter_v(
        crate::fixed::HALF_SCALE as int,
    ));
    assert(sc - crate::fixed::HALF_SCALE as int == crate::fixed::HALF_SCALE as int);
}

/// At the ends of the pan range one weight is exactly zero and the
/// other exactly one: all the signal goes to one side, at full gain.
pub proof fn lemma_pan_extremes()
    ensures
        pan_weights_s((Fx { bits: SCALE })).0 == (Fx { bits: 0 }),
        pan_weights_s((Fx { bits: SCALE })).1 == (Fx { bits: SCALE }),
        pan_weights_s((Fx { bits: crate::fixed::SCALE_NEG })).0 == (Fx { bits: SCALE }),
        pan_weights_s((Fx { bits: crate::fixed::SCALE_NEG })).1 == (Fx { bits: 0 }),
{
    let qp = crate::fixed::FX_QUARTER_PI as int;
    let hp = crate::fixed::FX_HALF_PI as int;
    let pi = crate::fixed::FX_PI as int;
    let tau = crate::fixed::FX_TAU as int;
    let sc = crate::fixed::SCALE as int;
    // Hard right: the pan angle is a quarter turn.
    let one = Fx { bits: SCALE };
    assert(clamp11_s(one) == one);
    assert(crate::fixed::fx_mul_v(2 * sc, qp) == 2 * qp);
    assert(pan_angle_s(one) == Fx { bits: crate::fixed::FX_HALF_PI });
    assert(hp % tau == hp);
    assert(hp / hp == 1);
    assert(hp % hp == 0);
    assert(crate::fixed::fx_sin_v(hp) == crate::fixed::sin_quarter_v(sc));
    let dd = crate::fixed::SIN_D as int;
    let cc = crate::fixed::SIN_C as int;
    let bb = crate::fixed::SIN_B as int;
    let aa = crate::fixed::SIN_A as int;
    crate::fixed::lemma_fx_mul_one(sc);
    crate::fixed::lemma_fx_mul_one(dd);
    assert(crate::fixed::fx_sub_v(cc, dd) == cc - dd);
    crate::fixed::lemma_fx_mul_one(cc - dd);
    assert(crate::fixed::fx_sub_v(bb, cc - dd) == bb - cc + dd);
    crate::fixed::lemma_fx_mul_one(bb - cc + dd);
    assert(crate::fixed::fx_sub_v(aa, bb - cc + dd) == sc);
    assert(crate::fixed::sin_quarter_v(sc) == sc);
    assert(crate::fixed::fx_add_v(hp, hp) == pi);
    assert(pi % tau == pi);
    assert(pi / hp == 2);
    assert(pi % hp == 0);
    assert(crate::fixed::sin_quarter_v(0) == 0);
    assert(crate::fixed::fx_cos_v(hp) == 0);
    // Hard left: the pan angle is zero.
    let mone = Fx { bits: crate::fixed::SCALE_NEG };
    assert(clamp11_s(mone) == mone);
    assert(crate::fixed::fx_add_v(crate::fixed::SCALE_NEG as int, sc) == 0);
    assert(crate::fixed::fx_mul_v(0, qp) == 0);
    assert(pan_angle_s(mone) == Fx { bits: 0 });
    assert(0int % tau == 0);
    assert(crate::fixed::fx_sin_v(0) == crate::fixed::sin_quarter_v(0));
    assert(crate::fixed::fx_add_v(0, hp) == hp);
    assert(crate::fixed::fx_cos_v(0) == crate::fixed::fx_sin_v(hp));
}

/// The pan weights are gains in the unit range for every pan
/// position: each weight is the sine of an angle inside the first
/// quadrant, so neither side is ever inverted or amplified.
pub proof fn lemma_pan_weights_range(value: Fx)
    ensures
        0 <= pan_weights_s(value).0.bits <= SCALE,
        0 <= pan_weights_s(value).1.bits <= SCALE,
{
    let c = clamp11_s(value);
    let ab = c.bits as int + SCALE as int;
    let qp = FX_QUARTER_PI as int;
    let hp = crate::fixed::FX_HALF_PI as int;
    let sc = SCALE as int;
    assert(0 <= ab <= 2 * sc);
    assert(fxs_add(c, Fx { bits: SCALE }).bits as int == ab);
    let prod = ab * qp;
    assert(0 <= prod) by {
        vstd::arithmetic::mul::lemma_mul_nonnegative(ab, qp);
    }
    assert(prod <= 2 * sc * qp) by {
        vstd::arithmetic::mul::lemma_mul_inequality(ab, 2 * sc, qp);
    }
    let angle = prod / sc;
    assert(0 <= angle) by {
        vstd::arithmetic::div_mod::lemma_div_pos_is_pos(prod, sc);
    }
    assert(angle <= hp) by {
        vstd::arithmetic::div_mod::lemma_div_is_ordered(prod, 2 * sc * qp, sc);
        assert((2 * sc * qp) / sc == 2 * qp) by {
            vstd::arithmetic::div_mod::lemma_div_multiples_vanish(2 * qp, sc);
            assert(sc * (2 * qp) == 2 * sc * qp) by {
                vstd::arithmetic::mul::lemma_mul_is_associative(2, sc, qp);
                vstd::arithmetic::mul::lemma_mul_is_associative(sc, 2, qp);
                vstd::arithmetic::mul::lemma_mul_is_commutative(sc, 2);
            }
        }
    }
    assert(pan_angle_s(value).bits as int == angle);
    crate::fixed::lemma_sin_first_quadrant(angle);
    crate::fixed::lemma_sin_second_quadrant(angle + hp);
}

/// Mono-to-stereo equal-power panner.
///
/// Input 0 is the mono audio; when `control` is set a second input
/// drives the pan position sample by sample. Output 0 is left, output
/// 1 is right. Setting: the pan position.
#[derive(Clone, Copy, PartialEq, Eq, Structural, Debug)]
pub struct Panner {
    /// Whether input 1 supplies the pan position each sample.
    pub control: bool,
    /// Gain applied to the left output.
    pub left_weight: Fx,
    /// Gain applied to the right output.
    pub right_weight: Fx,
}

/// Number of input channels of a panner.
pub open spec fn panner_ins(p: Panner) -> nat {
    if p.control {
        2
    } else {
        1
    }
}

/// The panner state after one frame: with a control input the weights
/// are rederived from the live pan value before scaling.
pub open spec fn panner_after_s(p: Panner, x: Seq<Fx>) -> Panner {
    if p.control {
        Panner {
            control: true,
            left_weight: pan_weights_s(x[1]).0,
            right_weight: pan_weights_s(x[1]).1,
        }
    } else {
        p
    }
}

/// The output frame of one panner step: the mono input scaled by each
/// weight.
pub open spec fn panner_tick_s(p: Panner, x: Seq<Fx>) -> Seq<Fx> {
    let p2 = panner_after_s(p, x);
    seq![fxs_mul(p2.left_weight, x[0]), fxs_mul(p2.right_weight, x[0])]
}

/// The panner's response: the pan position is treated as frozen, so
/// each output is the mono input's descriptor scaled by a weight.
pub open spec fn panner_route_s(p: Panner, x: Seq<Signal>) -> Seq<Signal> {
    seq![sig_scale_s(x[0], p.left_weight), sig_scale_s(x[0], p.right_weight)]
}

impl Panner {
    /// A mono-input panner with the given initial pan position.
    pub fn new(value: Fx) -> (p: Panner)
        ensures
            p.control == false,
            (p.left_weight, p.right_weight) == pan_weights_s(value),
    {
        let w = pan_weights(value);
        Panner { control: false, left_weight: w.0, right_weight: w.1 }
    }

    /// A panner whose second input drives the pan position.
    pub fn new_controlled(value: Fx) -> (p: Panner)
        ensures
            p.control == true,
            (p.left_weight, p.right_weight) == pan_weights_s(value),
    {
        let w = pan_weights(value);
        Panner { control: true, left_weight: w.0, right_weight: w.1 }
    }

    /// Replace the pan position.
    pub fn set_pan(&mut self, value: Fx)
        ensures
            final(self).control == old(self).control,
            (final(self).left_weight, final(self).right_weight) == pan_weights_s(value),
    {
        let w = pan_weights(value);
        self.left_weight = w.0;
        self.right_weight = w.1;
    }

    /// Apply the panner's setting, which is its pan position.
    pub fn set(&mut self, setting: Fx)
        ensures
            final(self).control == old(self).control,
            (final(self).left_weight, final(self).right_weight) == pan_weights_s(setting),
    {
        self.set_pan(setting);
    }

    /// Advance one sample.
    pub fn tick(&mut self, input: &Vec<Fx>) -> (out: Vec<Fx>)
        requires
            input@.len() == panner_ins(*old(self)),
        ensures
            *final(self) == panner_after_s(*old(self), input@),
            out@ == panner_tick_s(*old(self), input@),
    {
        if self.control {
            let value = input[1];
            self.set_pan(value);
        }
        let mut out: Vec<Fx> = Vec::new();
        out.push(fx_mul(self.left_weight, input[0]));
        out.push(fx_mul(self.right_weight, input[0]));
        proof {
            assert(out@ =~= panner_tick_s(*old(self), input@));
        }
        out
    }

    /// Answer a response query, treating the pan position as constant.
    pub fn route(&self, input: &Vec<Signal>) -> (out: Vec<Signal>)
        requires
            input@.len() == panner_ins(*self),
        ensures
            out@ == panner_route_s(*self, input@),
    {
        let mut out: Vec<Signal> = Vec::new();
        out.push(input[0].scale(self.left_weight));
        out.push(input[0].scale(self.right_weight));
        proof {
            assert(out@ =~= panner_route_s(*self, input@));
        }
        out
    }
}

/// The panner state after the first `t` frames of a block: with a
/// control input the weights follow the latest control sample.
pub open spec fn panner_state_block(p: Panner, bufs: Seq<Vec<Fx>>, t: int) -> Panner
    decreases t,
{
    if t <= 0 {
        p
    } else {
        panner_after_s(panner_state_block(p, bufs, t - 1), crate::unit::frame_at(bufs, t - 1))
    }
}

impl Panner {
    /// Advance the panner by `size` samples over channel-major
    /// buffers: both outputs first take a copy of the mono input and
    /// are then scaled in place, rederiving the weights from the
    /// control channel at every index when one is present. The result
    /// is sample-for-sample what `size` sequential `tick` calls give.
    pub fn process(&mut self, size: usize, input: &Vec<Vec<Fx>>) -> (out: Vec<Vec<Fx>>)
        requires
            input@.len() == panner_ins(*old(self)),
            forall|c: int| 0 <= c < input@.len() ==> (#[trigger] input@[c])@.len() >= size,
        ensures
            *final(self) == panner_state_block(*old(self), input@, size as int),
            out@.len() == 2,
            forall|c: int| 0 <= c < 2 ==> (#[trigger] out@[c])@.len() == size,
            forall|c: int, t: int|
                0 <= c < 2 && 0 <= t < size ==> (#[trigger] out@[c]@[t]) == panner_tick_s(
                    panner_state_block(*old(self), input@, t),
                    crate::unit::frame_at(input@, t),
                )[c],
    {
        let mut left: Vec<Fx> = Vec::new();
        let mut right: Vec<Fx> = Vec::new();
        let mut i: usize = 0;
        while i < size
            invariant
                input@.len() >= 1,
                input@[0]@.len() >= size,
                i <= size,
                left@.len() == i,
                right@.len() == i,
                forall|t: int| 0 <= t < i ==> left@[t] == input@[0]@[t],
                forall|t: int| 0 <= t < i ==> right@[t] == input@[0]@[t],
            decreases size - i,
        {
            left.push(input[0][i]);
            right.push(input[0][i]);
            i = i + 1;
        }
        let ghost p0 = *self;
        let mut t: usize = 0;
        while t < size
            invariant
                input@.len() == panner_ins(p0),
                forall|c: int| 0 <= c < input@.len() ==> (#[trigger] input@[c])@.len() >= size,
                t <= size,
                left@.len() == size,
                right@.len() == size,
                *self == panner_state_block(p0, input@, t as int),
                self.control == p0.control,
                forall|tt: int| t <= tt < size ==> left@[tt] == input@[0]@[tt],
                forall|tt: int| t <= tt < size ==> right@[tt] == input@[0]@[tt],
                forall|tt: int|
                    0 <= tt < t ==> left@[tt] == panner_tick_s(
                        panner_state_block(p0, input@, tt),
                        crate::unit::frame_at(input@, tt),
                    )[0],
                forall|tt: int|
                    0 <= tt < t ==> right@[tt] == panner_tick_s(
                        panner_state_block(p0, input@, tt),
                        crate::unit::frame_at(input@, tt),
                    )[1],
            decreases size - t,
        {
            if self.control {
                let value = input[1][t];
                let w = pan_weights(value);
                self.left_weight = w.0;
                self.right_weight = w.1;
            }
            let l = &mut left[t];
            *l = fx_mul(self.left_weight, *l);
            let r = &mut right[t];
            *r = fx_mul(self.right_weight, *r);
            t = t + 1;
        }
        let mut out: Vec<Vec<Fx>> = Vec::new();
        out.push(left);
        out.push(right);
        proof {
            assert(out@.len() == 2);
        }
        out
    }
}

/// Mixing matrix with a fixed coefficient matrix: one row of
/// coefficients per output channel, one column per input channel.
#[derive(Clone, Debug)]
pub struct Mixer {
    /// The coefficient rows; row `i` weights the inputs for output `i`.
    pub rows: Vec<Vec<Fx>>,
}

/// A mixer is well formed when it has at least one output row and all
/// rows weight the same, positive number of inputs.
pub open spec fn mixer_wf(m: Mixer) -> bool {
    &&& m.rows@.len() >= 1
    &&& m.rows@[0]@.len() >= 1
    &&& forall|i: int| 0 <= i < m.rows@.len() ==> (#[trigger] m.rows@[i])@.len() == m.rows@[0]@.len()
}

/// Number of input channels of a mixer.
pub open spec fn mixer_ins(m: Mixer) -> nat {
    m.rows@[0]@.len()
}

/// Number of output channels of a mixer.
pub open spec fn mixer_outs(m: Mixer) -> nat {
    m.rows@.len()
}

/// The dot product of the first `n` coefficients of a row with the
/// input frame, accumulated left to right.
pub open spec fn dot_s(row: Seq<Fx>, x: Seq<Fx>, n: int) -> Fx
    decreases n,
{
    if n <= 0 {
        Fx { bits: 0 }
    } else {
        fxs_add(dot_s(row, x, n - 1), fxs_mul(x[n - 1], row[n - 1]))
    }
}

/// The output frame of one mixer step: each output is the dot product
/// of the input frame with that output's coefficient row.
pub open spec fn mixer_tick_s(m: Mixer, x: Seq<Fx>) -> Seq<Fx> {
    Seq::new(mixer_outs(m), |i: int| dot_s(m.rows@[i]@, x, mixer_ins(m) as int))
}

/// The linear combination of the first `n` input descriptors weighted
/// by a coefficient row, merged pairwise left to right.
pub open spec fn route_dot_s(row: Seq<Fx>, x: Seq<Signal>, n: int) -> Signal
    decreases n,
{
    if n <= 1 {
        sig_scale_s(x[0], row[0])
    } else {
        sig_add_s(route_dot_s(row, x, n - 1), sig_scale_s(x[n - 1], row[n - 1]))
    }
}

/// The mixer's response: each output descriptor is the linear
/// combination of the input descriptors weighted by its row.
pub open spec fn mixer_route_s(m: Mixer, x: Seq<Signal>) -> Seq<Signal> {
    Seq::new(mixer_outs(m), |i: int| route_dot_s(m.rows@[i]@, x, mixer_ins(m) as int))
}

impl Mixer {
    /// A mixer over the given coefficient matrix. The matrix shape is
    /// fixed at construction: a ragged or empty matrix is a
    /// construction-time contract violation, not a runtime error.
    pub fn new(rows: Vec<Vec<Fx>>) -> (m: Mixer)
        requires
            rows@.len() >= 1,
            rows@[0]@.len() >= 1,
            forall|i: int| 0 <= i < rows@.len() ==> (#[trigger] rows@[i])@.len() == rows@[0]@.len(),
        ensures
            m.rows == rows,
            mixer_wf(m),
    {
        Mixer { rows }
    }

    /// Advance one sample: each output is the dot product of the input
    /// frame with the matching coefficient row.
    pub fn tick(&self, input: &Vec<Fx>) -> (out: Vec<Fx>)
        requires
            mixer_wf(*self),
            input@.len() == mixer_ins(*self),
        ensures
            out@ == mixer_tick_s(*self, input@),
    {
        let n: usize = self.rows.len();
        let m: usize = self.rows[0].len();
        let mut out: Vec<Fx> = Vec::new();
        let mut i: usize = 0;
        while i < n
            invariant
                mixer_wf(*self),
                input@.len() == mixer_ins(*self),
                n == mixer_outs(*self),
                m == mixer_ins(*self),
                i <= n,
                out@.len() == i,
                forall|k: int| 0 <= k < i ==> out@[k] == dot_s(self.rows@[k]@, input@, m as int),
            decreases n - i,
        {
            let row: &Vec<Fx> = &self.rows[i];
            let mut acc = Fx { bits: 0 };
            let mut j: usize = 0;
            while j < m
                invariant
                    mixer_wf(*self),
                    input@.len() == mixer_ins(*self),
                    m == mixer_ins(*self),
                    i < mixer_outs(*self),
                    row@ == self.rows@[i as int]@,
                    j <= m,
                    acc == dot_s(row@, input@, j as int),
                decreases m - j,
            {
                acc = fx_add(acc, fx_mul(input[j], row[j]));
                j = j + 1;
            }
            out.push(acc);
            i = i + 1;
        }
        proof {
            assert(out@ =~= mixer_tick_s(*self, input@));
        }
        out
    }

    /// Answer a response query: each output descriptor combines the
    /// input descriptors weighted by its row, merging paths that meet
    /// at the same channel by complex addition.
    pub fn route(&self, input: &Vec<Signal>) -> (out: Vec<Signal>)
        requires
            mixer_wf(*self),
            input@.len() == mixer_ins(*self),
        ensures
            out@ == mixer_route_s(*self, input@),
    {
        let n: usize = self.rows.len();
        let m: usize = self.rows[0].len();
        let mut out: Vec<Signal> = Vec::new();
        let mut i: usize = 0;
        while i < n
            invariant
                mixer_wf(*self),
                input@.len() == mixer_ins(*self),
                n == mixer_outs(*self),
                m == mixer_ins(*self),
                i <= n,
                out@.len() == i,
                forall|k: int| 0 <= k < i ==> out@[k] == route_dot_s(self.rows@[k]@, input@, m as int),
            decreases n - i,
        {
            let row: &Vec<Fx> = &self.rows[i];
            let mut acc: Signal = input[0].scale(row[0]);
            let mut j: usize = 1;
            while j < m
                invariant
                    mixer_wf(*self),
                    input@.len() == mixer_ins(*self),
                    m == mixer_ins(*self),
                    i < mixer_outs(*self),
                    row@ == self.rows@[i as int]@,
                    1 <= j <= m,
                    acc == route_dot_s(row@, input@, j as int),
                decreases m - j,
            {
                acc = acc.combine_linear(input[j].scale(row[j]));
                j = j + 1;
            }
            out.push(acc);
            i = i + 1;
        }
        proof {
            assert(out@ =~= mixer_route_s(*self, input@));
        }
        out
    }
}

} // verus!
