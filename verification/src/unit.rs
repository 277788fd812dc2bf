//! Processing units and the combinator algebra.
//!
//! A `Unit` is a tree: concrete processors at the leaves and
//! combinators at the nodes. Every unit carries fixed input and output
//! channel counts derived from its children, advances one frame per
//! `tick`, and answers analytic response queries with `route`. The
//! combinator constructors check channel arithmetic up front, so a
//! mismatched composition is rejected when it is built, never during
//! audio processing.

use vstd::prelude::*;

verus! {

use crate::fixed::Fx;
use crate::fixed::SCALE_NEG;
use crate::fixed::FX_TAU;
use crate::fixed::fxs_add;
use crate::fixed::fxs_mul;
use crate::fixed::fxs_neg;
use crate::fixed::fxs_sin;
use crate::fixed::fxs_cos;
use crate::fixed::fxs_div;
use crate::fixed::fx_add;
use crate::fixed::fx_mul;
use crate::fixed::fx_neg;
use crate::fixed::fx_sin;
use crate::fixed::fx_cos;
use crate::fixed::fx_div;
use crate::pan::Panner;
use crate::pan::Mixer;
use crate::pan::panner_ins;
use crate::pan::panner_after_s;
use crate::pan::panner_tick_s;
use crate::pan::panner_route_s;
use crate::pan::pan_weights_s;
use crate::pan::mixer_wf;
use crate::pan::mixer_ins;
use crate::pan::mixer_outs;
use crate::pan::mixer_tick_s;
use crate::pan::mixer_route_s;
use crate::signal::Signal;
use crate::signal::Cpx;
use crate::signal::sig_add_s;
use crate::signal::sig_scale_s;
use crate::signal::sig_mul_s;

/// The default sample rate, 44.1 kHz, in raw bits.
pub const DEFAULT_SR: i64 = 44100 * crate::fixed::SCALE;

/// A parameter value delivered to `set`: it is handed down the tree
/// and applied by every unit that accepts that kind of parameter.
#[derive(Clone, Copy, PartialEq, Eq, Structural, Debug)]
pub enum Setting {
    /// A pan position for panners.
    Pan(Fx),
}

/// A processing unit: a concrete processor or a combinator over
/// smaller units.
#[derive(Debug)]
pub enum Unit {
    /// Equal-power panner (one or two inputs, two outputs).
    Pan(Panner),
    /// Mixing matrix (inputs and outputs fixed by the matrix shape).
    Mix(Mixer),
    /// Passes its input frame through unchanged.
    Pass { channels: usize },
    /// A single-sample delay holding one sample of state.
    Delay { state: Fx, rate: Fx },
    /// Feeds the output of the first unit into the second.
    Series(Box<Unit>, Box<Unit>),
    /// Runs both units on the same input and sums their outputs.
    Parallel(Box<Unit>, Box<Unit>),
    /// Runs each unit on its own disjoint slice of the channels.
    Stack(Box<Unit>, Box<Unit>),
    /// Duplicates the input to both units and concatenates outputs.
    Branch(Box<Unit>, Box<Unit>),
    /// Multiplies every output sample of the child by a constant.
    Scale { k: Fx, child: Box<Unit> },
    /// Adds a constant to every output sample of the child.
    Offset { k: Fx, child: Box<Unit> },
}

/// Number of input channels, derived from the children by the
/// combinator rules.
pub open spec fn u_ins(u: Unit) -> nat
    decreases u,
{
    match u {
        Unit::Pan(p) => panner_ins(p),
        Unit::Mix(m) => mixer_ins(m),
        Unit::Pass { channels } => channels as nat,
        Unit::Delay { .. } => 1,
        Unit::Series(a, _) => u_ins(*a),
        Unit::Parallel(a, _) => u_ins(*a),
        Unit::Stack(a, b) => u_ins(*a) + u_ins(*b),
        Unit::Branch(a, _) => u_ins(*a),
        Unit::Scale { child, .. } => u_ins(*child),
        Unit::Offset { child, .. } => u_ins(*child),
    }
}

/// Number of output channels, derived from the children by the
/// combinator rules.
pub open spec fn u_outs(u: Unit) -> nat
    decreases u,
{
    match u {
        Unit::Pan(_) => 2,
        Unit::Mix(m) => mixer_outs(m),
        Unit::Pass { channels } => channels as nat,
        Unit::Delay { .. } => 1,
        Unit::Series(_, b) => u_outs(*b),
        Unit::Parallel(a, _) => u_outs(*a),
        Unit::Stack(a, b) => u_outs(*a) + u_outs(*b),
        Unit::Branch(a, b) => u_outs(*a) + u_outs(*b),
        Unit::Scale { child, .. } => u_outs(*child),
        Unit::Offset { child, .. } => u_outs(*child),
    }
}

/// Well-formedness: every combinator's channel arithmetic holds, and
/// channel counts stay within machine range.
pub open spec fn u_wf(u: Unit) -> bool
    decreases u,
{
    match u {
        Unit::Pan(_) => true,
        Unit::Mix(m) => mixer_wf(m),
        Unit::Pass { .. } => true,
        Unit::Delay { .. } => true,
        Unit::Series(a, b) => u_wf(*a) && u_wf(*b) && u_outs(*a) == u_ins(*b),
        Unit::Parallel(a, b) => u_wf(*a) && u_wf(*b) && u_ins(*a) == u_ins(*b) && u_outs(*a)
            == u_outs(*b),
        Unit::Stack(a, b) => u_wf(*a) && u_wf(*b) && u_ins(*a) + u_ins(*b) <= usize::MAX && u_outs(
            *a,
        ) + u_outs(*b) <= usize::MAX,
        Unit::Branch(a, b) => u_wf(*a) && u_wf(*b) && u_ins(*a) == u_ins(*b) && u_outs(*a) + u_outs(
            *b,
        ) <= usize::MAX,
        Unit::Scale { child, .. } => u_wf(*child),
        Unit::Offset { child, .. } => u_wf(*child),
    }
}

/// Frame addition, element by element.
pub open spec fn seq_add_s(a: Seq<Fx>, b: Seq<Fx>) -> Seq<Fx> {
    Seq::new(a.len(), |i: int| fxs_add(a[i], b[i]))
}

/// Frame scaling by a constant.
pub open spec fn seq_scale_s(a: Seq<Fx>, k: Fx) -> Seq<Fx> {
    Seq::new(a.len(), |i: int| fxs_mul(a[i], k))
}

/// Frame offset by a constant.
pub open spec fn seq_offset_s(a: Seq<Fx>, k: Fx) -> Seq<Fx> {
    Seq::new(a.len(), |i: int| fxs_add(a[i], k))
}

/// The output frame of one step of a unit on one input frame.
pub open spec fn tick_out_s(u: Unit, x: Seq<Fx>) -> Seq<Fx>
    decreases u,
{
    match u {
        Unit::Pan(p) => panner_tick_s(p, x),
        Unit::Mix(m) => mixer_tick_s(m, x),
        Unit::Pass { .. } => x,
        Unit::Delay { state, .. } => seq![state],
        Unit::Series(a, b) => tick_out_s(*b, tick_out_s(*a, x)),
        Unit::Parallel(a, b) => seq_add_s(tick_out_s(*a, x), tick_out_s(*b, x)),
        Unit::Stack(a, b) => tick_out_s(*a, x.subrange(0, u_ins(*a) as int)) + tick_out_s(
            *b,
            x.subrange(u_ins(*a) as int, x.len() as int),
        ),
        Unit::Branch(a, b) => tick_out_s(*a, x) + tick_out_s(*b, x),
        Unit::Scale { k, child } => seq_scale_s(tick_out_s(*child, x), k),
        Unit::Offset { k, child } => seq_offset_s(tick_out_s(*child, x), k),
    }
}

/// The unit's state after one step on one input frame.
pub open spec fn tick_next_s(u: Unit, x: Seq<Fx>) -> Unit
    decreases u,
{
    match u {
        Unit::Pan(p) => Unit::Pan(panner_after_s(p, x)),
        Unit::Mix(m) => Unit::Mix(m),
        Unit::Pass { channels } => Unit::Pass { channels },
        Unit::Delay { state, rate } => Unit::Delay { state: x[0], rate },
        Unit::Series(a, b) => Unit::Series(
            Box::new(tick_next_s(*a, x)),
            Box::new(tick_next_s(*b, tick_out_s(*a, x))),
        ),
        Unit::Parallel(a, b) => Unit::Parallel(
            Box::new(tick_next_s(*a, x)),
            Box::new(tick_next_s(*b, x)),
        ),
        Unit::Stack(a, b) => Unit::Stack(
            Box::new(tick_next_s(*a, x.subrange(0, u_ins(*a) as int))),
            Box::new(tick_next_s(*b, x.subrange(u_ins(*a) as int, x.len() as int))),
        ),
        Unit::Branch(a, b) => Unit::Branch(
            Box::new(tick_next_s(*a, x)),
            Box::new(tick_next_s(*b, x)),
        ),
        Unit::Scale { k, child } => Unit::Scale { k, child: Box::new(tick_next_s(*child, x)) },
        Unit::Offset { k, child } => Unit::Offset { k, child: Box::new(tick_next_s(*child, x)) },
    }
}

/// The complex gain of a single-sample delay at an analysis frequency:
/// unit magnitude, phase minus one sample period.
pub open spec fn delay_gain_s(rate: Fx, f: Fx) -> Cpx {
    let w = fxs_div(fxs_mul(f, Fx { bits: FX_TAU }), rate);
    Cpx { re: fxs_cos(w), im: fxs_neg(fxs_sin(w)) }
}

/// The output descriptors of a response query on a unit.
pub open spec fn route_s(u: Unit, x: Seq<Signal>, f: Fx) -> Seq<Signal>
    decreases u,
{
    match u {
        Unit::Pan(p) => panner_route_s(p, x),
        Unit::Mix(m) => mixer_route_s(m, x),
        Unit::Pass { .. } => x,
        Unit::Delay { rate, .. } => seq![sig_mul_s(x[0], delay_gain_s(rate, f))],
        Unit::Series(a, b) => route_s(*b, route_s(*a, x, f), f),
        Unit::Parallel(a, b) => Seq::new(
            u_outs(*a),
            |i: int| sig_add_s(route_s(*a, x, f)[i], route_s(*b, x, f)[i]),
        ),
        Unit::Stack(a, b) => route_s(*a, x.subrange(0, u_ins(*a) as int), f) + route_s(
            *b,
            x.subrange(u_ins(*a) as int, x.len() as int),
            f,
        ),
        Unit::Branch(a, b) => route_s(*a, x, f) + route_s(*b, x, f),
        Unit::Scale { k, child } => Seq::new(
            u_outs(*child),
            |i: int| sig_scale_s(route_s(*child, x, f)[i], k),
        ),
        // A constant offset moves only the operating point; the
        // response of the signal path is the child's.
        Unit::Offset { child, .. } => route_s(*child, x, f),
    }
}

/// The unit with all internal state cleared to its power-on value;
/// parameters are kept.
pub open spec fn reset_s(u: Unit) -> Unit
    decreases u,
{
    match u {
        Unit::Pan(p) => Unit::Pan(p),
        Unit::Mix(m) => Unit::Mix(m),
        Unit::Pass { channels } => Unit::Pass { channels },
        Unit::Delay { rate, .. } => Unit::Delay { state: Fx { bits: 0 }, rate },
        Unit::Series(a, b) => Unit::Series(Box::new(reset_s(*a)), Box::new(reset_s(*b))),
        Unit::Parallel(a, b) => Unit::Parallel(Box::new(reset_s(*a)), Box::new(reset_s(*b))),
        Unit::Stack(a, b) => Unit::Stack(Box::new(reset_s(*a)), Box::new(reset_s(*b))),
        Unit::Branch(a, b) => Unit::Branch(Box::new(reset_s(*a)), Box::new(reset_s(*b))),
        Unit::Scale { k, child } => Unit::Scale { k, child: Box::new(reset_s(*child)) },
        Unit::Offset { k, child } => Unit::Offset { k, child: Box::new(reset_s(*child)) },
    }
}

/// The unit with a new sample rate propagated to every child.
pub open spec fn set_rate_s(u: Unit, sr: Fx) -> Unit
    decreases u,
{
    match u {
        Unit::Pan(p) => Unit::Pan(p),
        Unit::Mix(m) => Unit::Mix(m),
        Unit::Pass { channels } => Unit::Pass { channels },
        Unit::Delay { state, .. } => Unit::Delay { state, rate: sr },
        Unit::Series(a, b) => Unit::Series(
            Box::new(set_rate_s(*a, sr)),
            Box::new(set_rate_s(*b, sr)),
        ),
        Unit::Parallel(a, b) => Unit::Parallel(
            Box::new(set_rate_s(*a, sr)),
            Box::new(set_rate_s(*b, sr)),
        ),
        Unit::Stack(a, b) => Unit::Stack(
            Box::new(set_rate_s(*a, sr)),
            Box::new(set_rate_s(*b, sr)),
        ),
        Unit::Branch(a, b) => Unit::Branch(
            Box::new(set_rate_s(*a, sr)),
            Box::new(set_rate_s(*b, sr)),
        ),
        Unit::Scale { k, child } => Unit::Scale { k, child: Box::new(set_rate_s(*child, sr)) },
        Unit::Offset { k, child } => Unit::Offset { k, child: Box::new(set_rate_s(*child, sr)) },
    }
}

/// The unit with a setting applied by every unit that accepts it.
pub open spec fn set_s(u: Unit, s: Setting) -> Unit
    decreases u,
{
    match u {
        Unit::Pan(p) => match s {
            Setting::Pan(v) => Unit::Pan(
                Panner {
                    control: p.control,
                    left_weight: pan_weights_s(v).0,
                    right_weight: pan_weights_s(v).1,
                },
            ),
        },
        Unit::Mix(m) => Unit::Mix(m),
        Unit::Pass { channels } => Unit::Pass { channels },
        Unit::Delay { state, rate } => Unit::Delay { state, rate },
        Unit::Series(a, b) => Unit::Series(Box::new(set_s(*a, s)), Box::new(set_s(*b, s))),
        Unit::Parallel(a, b) => Unit::Parallel(Box::new(set_s(*a, s)), Box::new(set_s(*b, s))),
        Unit::Stack(a, b) => Unit::Stack(Box::new(set_s(*a, s)), Box::new(set_s(*b, s))),
        Unit::Branch(a, b) => Unit::Branch(Box::new(set_s(*a, s)), Box::new(set_s(*b, s))),
        Unit::Scale { k, child } => Unit::Scale { k, child: Box::new(set_s(*child, s)) },
        Unit::Offset { k, child } => Unit::Offset { k, child: Box::new(set_s(*child, s)) },
    }
}

/// One unit step keeps the channel counts and well-formedness of the
/// unit, and produces exactly one output sample per output channel.
pub proof fn lemma_tick_props(u: Unit, x: Seq<Fx>)
    requires
        u_wf(u),
        x.len() == u_ins(u),
    ensures
        tick_out_s(u, x).len() == u_outs(u),
        u_wf(tick_next_s(u, x)),
        u_ins(tick_next_s(u, x)) == u_ins(u),
        u_outs(tick_next_s(u, x)) == u_outs(u),
    decreases u,
{
    match u {
        Unit::Series(a, b) => {
            lemma_tick_props(*a, x);
            lemma_tick_props(*b, tick_out_s(*a, x));
        },
        Unit::Parallel(a, b) => {
            lemma_tick_props(*a, x);
            lemma_tick_props(*b, x);
        },
        Unit::Stack(a, b) => {
            lemma_tick_props(*a, x.subrange(0, u_ins(*a) as int));
            lemma_tick_props(*b, x.subrange(u_ins(*a) as int, x.len() as int));
        },
        Unit::Branch(a, b) => {
            lemma_tick_props(*a, x);
            lemma_tick_props(*b, x);
        },
        Unit::Scale { child, .. } => {
            lemma_tick_props(*child, x);
        },
        Unit::Offset { child, .. } => {
            lemma_tick_props(*child, x);
        },
        _ => {},
    }
}

/// A response query produces exactly one descriptor per output
/// channel.
pub proof fn lemma_route_props(u: Unit, x: Seq<Signal>, f: Fx)
    requires
        u_wf(u),
        x.len() == u_ins(u),
    ensures
        route_s(u, x, f).len() == u_outs(u),
    decreases u,
{
    match u {
        Unit::Series(a, b) => {
            lemma_route_props(*a, x, f);
            lemma_route_props(*b, route_s(*a, x, f), f);
        },
        Unit::Parallel(a, b) => {
            lemma_route_props(*a, x, f);
            lemma_route_props(*b, x, f);
        },
        Unit::Stack(a, b) => {
            lemma_route_props(*a, x.subrange(0, u_ins(*a) as int), f);
            lemma_route_props(*b, x.subrange(u_ins(*a) as int, x.len() as int), f);
        },
        Unit::Branch(a, b) => {
            lemma_route_props(*a, x, f);
            lemma_route_props(*b, x, f);
        },
        Unit::Scale { child, .. } => {
            lemma_route_props(*child, x, f);
        },
        Unit::Offset { child, .. } => {
            lemma_route_props(*child, x, f);
        },
        _ => {},
    }
}

/// Copy a frame.
fn frame_copy<T: Copy>(a: &Vec<T>) -> (r: Vec<T>)
    ensures
        r@ == a@,
{
    let mut r: Vec<T> = Vec::new();
    let mut i: usize = 0;
    while i < a.len()
        invariant
            i <= a@.len(),
            r@ == a@.subrange(0, i as int),
        decreases a@.len() - i,
    {
        r.push(a[i]);
        i = i + 1;
    }
    proof {
        assert(r@ =~= a@);
    }
    r
}

/// The first `n` channels of a frame.
fn frame_take<T: Copy>(a: &Vec<T>, n: usize) -> (r: Vec<T>)
    requires
        n <= a@.len(),
    ensures
        r@ == a@.subrange(0, n as int),
{
    let mut r: Vec<T> = Vec::new();
    let mut i: usize = 0;
    while i < n
        invariant
            i <= n <= a@.len(),
            r@ == a@.subrange(0, i as int),
        decreases n - i,
    {
        r.push(a[i]);
        i = i + 1;
    }
    r
}

/// The channels of a frame from `n` on.
fn frame_skip<T: Copy>(a: &Vec<T>, n: usize) -> (r: Vec<T>)
    requires
        n <= a@.len(),
    ensures
        r@ == a@.subrange(n as int, a@.len() as int),
{
    let mut r: Vec<T> = Vec::new();
    let mut i: usize = n;
    while i < a.len()
        invariant
            n <= i <= a@.len(),
            r@ == a@.subrange(n as int, i as int),
        decreases a@.len() - i,
    {
        r.push(a[i]);
        i = i + 1;
    }
    r
}

/// Concatenate two frames.
fn frame_concat<T>(a: Vec<T>, b: Vec<T>) -> (r: Vec<T>)
    ensures
        r@ == a@ + b@,
{
    let mut a = a;
    let mut b = b;
    a.append(&mut b);
    a
}

/// Add two frames element by element.
fn frame_add(a: &Vec<Fx>, b: &Vec<Fx>) -> (r: Vec<Fx>)
    requires
        a@.len() == b@.len(),
    ensures
        r@ == seq_add_s(a@, b@),
{
    let mut r: Vec<Fx> = Vec::new();
    let mut i: usize = 0;
    while i < a.len()
        invariant
            i <= a@.len(),
            b@.len() == a@.len(),
            r@.len() == i,
            forall|j: int| 0 <= j < i ==> r@[j] == fxs_add(a@[j], b@[j]),
        decreases a@.len() - i,
    {
        r.push(fx_add(a[i], b[i]));
        i = i + 1;
    }
    proof {
        assert(r@ =~= seq_add_s(a@, b@));
    }
    r
}

/// Scale a frame by a constant.
fn frame_scale(a: &Vec<Fx>, k: Fx) -> (r: Vec<Fx>)
    ensures
        r@ == seq_scale_s(a@, k),
{
    let mut r: Vec<Fx> = Vec::new();
    let mut i: usize = 0;
    while i < a.len()
        invariant
            i <= a@.len(),
            r@.len() == i,
            forall|j: int| 0 <= j < i ==> r@[j] == fxs_mul(a@[j], k),
        decreases a@.len() - i,
    {
        r.push(fx_mul(a[i], k));
        i = i + 1;
    }
    proof {
        assert(r@ =~= seq_scale_s(a@, k));
    }
    r
}

/// Offset a frame by a constant.
fn frame_offset(a: &Vec<Fx>, k: Fx) -> (r: Vec<Fx>)
    ensures
        r@ == seq_offset_s(a@, k),
{
    let mut r: Vec<Fx> = Vec::new();
    let mut i: usize = 0;
    while i < a.len()
        invariant
            i <= a@.len(),
            r@.len() == i,
            forall|j: int| 0 <= j < i ==> r@[j] == fxs_add(a@[j], k),
        decreases a@.len() - i,
    {
        r.push(fx_add(a[i], k));
        i = i + 1;
    }
    proof {
        assert(r@ =~= seq_offset_s(a@, k));
    }
    r
}

impl Unit {
    /// The fixed number of input channels.
    pub fn inputs(&self) -> (n: usize)
        requires
            u_wf(*self),
        ensures
            n == u_ins(*self),
        decreases *self,
    {
        match self {
            Unit::Pan(p) => if p.control {
                2
            } else {
                1
            },
            Unit::Mix(m) => m.rows[0].len(),
            Unit::Pass { channels } => *channels,
            Unit::Delay { .. } => 1,
            Unit::Series(a, _) => a.inputs(),
            Unit::Parallel(a, _) => a.inputs(),
            Unit::Stack(a, b) => a.inputs() + b.inputs(),
            Unit::Branch(a, _) => a.inputs(),
            Unit::Scale { child, .. } => child.inputs(),
            Unit::Offset { child, .. } => child.inputs(),
        }
    }

    /// The fixed number of output channels.
    pub fn outputs(&self) -> (n: usize)
        requires
            u_wf(*self),
        ensures
            n == u_outs(*self),
        decreases *self,
    {
        match self {
            Unit::Pan(_) => 2,
            Unit::Mix(m) => m.rows.len(),
            Unit::Pass { channels } => *channels,
            Unit::Delay { .. } => 1,
            Unit::Series(_, b) => b.outputs(),
            Unit::Parallel(a, _) => a.outputs(),
            Unit::Stack(a, b) => a.outputs() + b.outputs(),
            Unit::Branch(a, b) => a.outputs() + b.outputs(),
            Unit::Scale { child, .. } => child.outputs(),
            Unit::Offset { child, .. } => child.outputs(),
        }
    }

    /// Advance the unit by exactly one sample.
    pub fn tick(&mut self, input: &Vec<Fx>) -> (out: Vec<Fx>)
        requires
            u_wf(*old(self)),
            input@.len() == u_ins(*old(self)),
        ensures
            *final(self) == tick_next_s(*old(self), input@),
            out@ == tick_out_s(*old(self), input@),
        decreases *old(self),
    {
        let ghost u0 = *self;
        match self {
            Unit::Pan(p) => p.tick(input),
            Unit::Mix(m) => m.tick(input),
            Unit::Pass { .. } => frame_copy(input),
            Unit::Delay { state, .. } => {
                let held = *state;
                *state = input[0];
                let mut out: Vec<Fx> = Vec::new();
                out.push(held);
                proof {
                    assert(out@ =~= tick_out_s(u0, input@));
                }
                out
            },
            Unit::Series(a, b) => {
                proof {
                    lemma_tick_props(**a, input@);
                }
                let mid = a.tick(input);
                b.tick(&mid)
            },
            Unit::Parallel(a, b) => {
                proof {
                    lemma_tick_props(**a, input@);
                    lemma_tick_props(**b, input@);
                }
                let oa = a.tick(input);
                let ob = b.tick(input);
                frame_add(&oa, &ob)
            },
            Unit::Stack(a, b) => {
                let na = a.inputs();
                let xa = frame_take(input, na);
                let xb = frame_skip(input, na);
                let oa = a.tick(&xa);
                let ob = b.tick(&xb);
                frame_concat(oa, ob)
            },
            Unit::Branch(a, b) => {
                let oa = a.tick(input);
                let ob = b.tick(input);
                frame_concat(oa, ob)
            },
            Unit::Scale { k, child } => {
                let oc = child.tick(input);
                frame_scale(&oc, *k)
            },
            Unit::Offset { k, child } => {
                let oc = child.tick(input);
                frame_offset(&oc, *k)
            },
        }
    }

    /// Answer a response query: one descriptor per output channel,
    /// given one per input channel and the analysis frequency.
    pub fn route(&self, input: &Vec<Signal>, frequency: Fx) -> (out: Vec<Signal>)
        requires
            u_wf(*self),
            input@.len() == u_ins(*self),
        ensures
            out@ == route_s(*self, input@, frequency),
        decreases *self,
    {
        match self {
            Unit::Pan(p) => p.route(input),
            Unit::Mix(m) => m.route(input),
            Unit::Pass { .. } => frame_copy(input),
            Unit::Delay { rate, .. } => {
                let w = fx_div(fx_mul(frequency, Fx { bits: FX_TAU }), *rate);
                let gain = Cpx { re: fx_cos(w), im: fx_neg(fx_sin(w)) };
                let mut out: Vec<Signal> = Vec::new();
                out.push(input[0].mul_gain(gain));
                proof {
                    assert(out@ =~= route_s(*self, input@, frequency));
                }
                out
            },
            Unit::Series(a, b) => {
                let mid = a.route(input, frequency);
                proof {
                    lemma_route_props(*(*a), input@, frequency);
                }
                b.route(&mid, frequency)
            },
            Unit::Parallel(a, b) => {
                let oa = a.route(input, frequency);
                let ob = b.route(input, frequency);
                proof {
                    lemma_route_props(*(*a), input@, frequency);
                    lemma_route_props(*(*b), input@, frequency);
                }
                let mut out: Vec<Signal> = Vec::new();
                let mut i: usize = 0;
                while i < oa.len()
                    invariant
                        i <= oa@.len(),
                        ob@.len() == oa@.len(),
                        out@.len() == i,
                        forall|j: int| 0 <= j < i ==> out@[j] == sig_add_s(oa@[j], ob@[j]),
                    decreases oa@.len() - i,
                {
                    out.push(oa[i].combine_linear(ob[i]));
                    i = i + 1;
                }
                proof {
                    assert(out@ =~= route_s(*self, input@, frequency));
                }
                out
            },
            Unit::Stack(a, b) => {
                let na = a.inputs();
                let xa = frame_take(input, na);
                let xb = frame_skip(input, na);
                let oa = a.route(&xa, frequency);
                let ob = b.route(&xb, frequency);
                frame_concat(oa, ob)
            },
            Unit::Branch(a, b) => {
                let oa = a.route(input, frequency);
                let ob = b.route(input, frequency);
                frame_concat(oa, ob)
            },
            Unit::Scale { k, child } => {
                let oc = child.route(input, frequency);
                proof {
                    lemma_route_props(*(*child), input@, frequency);
                }
                let mut out: Vec<Signal> = Vec::new();
                let mut i: usize = 0;
                while i < oc.len()
                    invariant
                        i <= oc@.len(),
                        out@.len() == i,
                        forall|j: int| 0 <= j < i ==> out@[j] == sig_scale_s(oc@[j], *k),
                    decreases oc@.len() - i,
                {
                    out.push(oc[i].scale(*k));
                    i = i + 1;
                }
                proof {
                    assert(out@ =~= route_s(*self, input@, frequency));
                }
                out
            },
            Unit::Offset { child, .. } => child.route(input, frequency),
        }
    }

    /// Clear all internal state to the power-on condition without
    /// changing parameters.
    pub fn reset(&mut self)
        ensures
            *final(self) == reset_s(*old(self)),
        decreases *old(self),
    {
        match self {
            Unit::Pan(_) => {},
            Unit::Mix(_) => {},
            Unit::Pass { .. } => {},
            Unit::Delay { state, .. } => {
                *state = Fx { bits: 0 };
            },
            Unit::Series(a, b) => {
                a.reset();
                b.reset();
            },
            Unit::Parallel(a, b) => {
                a.reset();
                b.reset();
            },
            Unit::Stack(a, b) => {
                a.reset();
                b.reset();
            },
            Unit::Branch(a, b) => {
                a.reset();
                b.reset();
            },
            Unit::Scale { child, .. } => {
                child.reset();
            },
            Unit::Offset { child, .. } => {
                child.reset();
            },
        }
    }

    /// Set the sample rate, propagating it to every child.
    pub fn set_sample_rate(&mut self, sr: Fx)
        ensures
            *final(self) == set_rate_s(*old(self), sr),
        decreases *old(self),
    {
        match self {
            Unit::Pan(_) => {},
            Unit::Mix(_) => {},
            Unit::Pass { .. } => {},
            Unit::Delay { rate, .. } => {
                *rate = sr;
            },
            Unit::Series(a, b) => {
                a.set_sample_rate(sr);
                b.set_sample_rate(sr);
            },
            Unit::Parallel(a, b) => {
                a.set_sample_rate(sr);
                b.set_sample_rate(sr);
            },
            Unit::Stack(a, b) => {
                a.set_sample_rate(sr);
                b.set_sample_rate(sr);
            },
            Unit::Branch(a, b) => {
                a.set_sample_rate(sr);
                b.set_sample_rate(sr);
            },
            Unit::Scale { child, .. } => {
                child.set_sample_rate(sr);
            },
            Unit::Offset { child, .. } => {
                child.set_sample_rate(sr);
            },
        }
    }

    /// Deliver a setting; every unit in the tree that accepts this
    /// kind of parameter applies it.
    pub fn set(&mut self, s: Setting)
        ensures
            *final(self) == set_s(*old(self), s),
        decreases *old(self),
    {
        match self {
            Unit::Pan(p) => {
                match s {
                    Setting::Pan(v) => p.set_pan(v),
                }
            },
            Unit::Mix(_) => {},
            Unit::Pass { .. } => {},
            Unit::Delay { .. } => {},
            Unit::Series(a, b) => {
                a.set(s);
                b.set(s);
            },
            Unit::Parallel(a, b) => {
                a.set(s);
                b.set(s);
            },
            Unit::Stack(a, b) => {
                a.set(s);
                b.set(s);
            },
            Unit::Branch(a, b) => {
                a.set(s);
                b.set(s);
            },
            Unit::Scale { child, .. } => {
                child.set(s);
            },
            Unit::Offset { child, .. } => {
                child.set(s);
            },
        }
    }
}

/// The frame presented to a unit at step `t` of a block: one sample
/// per input channel, taken from the channel-major buffers.
pub open spec fn frame_at(bufs: Seq<Vec<Fx>>, t: int) -> Seq<Fx> {
    Seq::new(bufs.len(), |c: int| bufs[c]@[t])
}

/// The unit's state after the first `t` steps of a block.
pub open spec fn state_at(u: Unit, bufs: Seq<Vec<Fx>>, t: int) -> Unit
    decreases t,
{
    if t <= 0 {
        u
    } else {
        tick_next_s(state_at(u, bufs, t - 1), frame_at(bufs, t - 1))
    }
}

/// The output frame of step `t` of a block: exactly what the `t`-th of
/// a run of sequential `tick` calls would produce.
pub open spec fn block_out_at(u: Unit, bufs: Seq<Vec<Fx>>, t: int) -> Seq<Fx> {
    tick_out_s(state_at(u, bufs, t), frame_at(bufs, t))
}

impl Unit {
    /// Advance the unit by `size` samples over channel-major buffers.
    ///
    /// Block processing is numerically identical to per-sample
    /// stepping: output channel `c` at index `t` is sample `c` of the
    /// `t`-th sequential `tick`, and the state afterwards is the state
    /// after those `size` ticks. This equivalence is the contract, not
    /// an optimization note.
    pub fn process(&mut self, size: usize, input: &Vec<Vec<Fx>>) -> (out: Vec<Vec<Fx>>)
        requires
            u_wf(*old(self)),
            input@.len() == u_ins(*old(self)),
            forall|c: int| 0 <= c < input@.len() ==> (#[trigger] input@[c])@.len() >= size,
        ensures
            *final(self) == state_at(*old(self), input@, size as int),
            out@.len() == u_outs(*old(self)),
            forall|c: int| 0 <= c < out@.len() ==> (#[trigger] out@[c])@.len() == size,
            forall|c: int, t: int|
                0 <= c < out@.len() && 0 <= t < size ==> (#[trigger] out@[c]@[t]) == block_out_at(
                    *old(self),
                    input@,
                    t,
                )[c],
    {
        let ghost u0 = *self;
        let nin = self.inputs();
        let mut frames: Vec<Vec<Fx>> = Vec::new();
        let mut t: usize = 0;
        while t < size
            invariant
                u_wf(u0),
                input@.len() == u_ins(u0),
                forall|c: int| 0 <= c < input@.len() ==> (#[trigger] input@[c])@.len() >= size,
                t <= size,
                *self == state_at(u0, input@, t as int),
                u_wf(*self),
                u_ins(*self) == u_ins(u0),
                u_outs(*self) == u_outs(u0),
                nin == u_ins(u0),
                frames@.len() == t,
                forall|tt: int|
                    0 <= tt < t ==> (#[trigger] frames@[tt])@ == block_out_at(u0, input@, tt),
            decreases size - t,
        {
            let mut fr: Vec<Fx> = Vec::new();
            let mut c: usize = 0;
            while c < nin
                invariant
                    input@.len() == u_ins(u0),
                    nin == u_ins(u0),
                    t < size,
                    forall|cc: int| 0 <= cc < input@.len() ==> (#[trigger] input@[cc])@.len()
                        >= size,
                    c <= nin,
                    fr@.len() == c,
                    forall|cc: int| 0 <= cc < c ==> fr@[cc] == input@[cc]@[t as int],
                decreases nin - c,
            {
                fr.push(input[c][t]);
                c = c + 1;
            }
            proof {
                assert(fr@ =~= frame_at(input@, t as int));
                lemma_tick_props(*self, fr@);
            }
            let of = self.tick(&fr);
            frames.push(of);
            t = t + 1;
        }
        let nout = self.outputs();
        proof {
            assert(forall|tt: int|
                0 <= tt < size ==> (#[trigger] frames@[tt])@.len() == u_outs(u0)) by {
                assert forall|tt: int| 0 <= tt < size implies (#[trigger] frames@[tt])@.len()
                    == u_outs(u0) by {
                    lemma_state_at_props(u0, input@, tt);
                    lemma_tick_props(state_at(u0, input@, tt), frame_at(input@, tt));
                }
            }
        }
        let mut out: Vec<Vec<Fx>> = Vec::new();
        let mut c: usize = 0;
        while c < nout
            invariant
                size == frames@.len(),
                nout == u_outs(u0),
                forall|tt: int| 0 <= tt < size ==> (#[trigger] frames@[tt])@.len() == u_outs(u0),
                forall|tt: int|
                    0 <= tt < size ==> (#[trigger] frames@[tt])@ == block_out_at(u0, input@, tt),
                c <= nout,
                out@.len() == c,
                forall|cc: int| 0 <= cc < c ==> (#[trigger] out@[cc])@.len() == size,
                forall|cc: int, tt: int|
                    0 <= cc < c && 0 <= tt < size ==> (#[trigger] out@[cc]@[tt]) == block_out_at(
                        u0,
                        input@,
                        tt,
                    )[cc],
            decreases nout - c,
        {
            let mut col: Vec<Fx> = Vec::new();
            let mut t2: usize = 0;
            while t2 < size
                invariant
                    size == frames@.len(),
                    c < nout,
                    forall|tt: int| 0 <= tt < size ==> (#[trigger] frames@[tt])@.len() == nout,
                    t2 <= size,
                    col@.len() == t2,
                    forall|tt: int| 0 <= tt < t2 ==> col@[tt] == frames@[tt]@[c as int],
                decreases size - t2,
            {
                col.push(frames[t2][c]);
                t2 = t2 + 1;
            }
            out.push(col);
            c = c + 1;
        }
        out
    }
}

/// The state a block run reaches keeps the unit's shape at every step.
pub proof fn lemma_state_at_props(u: Unit, bufs: Seq<Vec<Fx>>, t: int)
    requires
        u_wf(u),
        bufs.len() == u_ins(u),
        forall|c: int| 0 <= c < bufs.len() ==> (#[trigger] bufs[c])@.len() >= t,
        t >= 0,
    ensures
        u_wf(state_at(u, bufs, t)),
        u_ins(state_at(u, bufs, t)) == u_ins(u),
        u_outs(state_at(u, bufs, t)) == u_outs(u),
    decreases t,
{
    if t > 0 {
        lemma_state_at_props(u, bufs, t - 1);
        assert(frame_at(bufs, t - 1).len() == u_ins(u));
        lemma_tick_props(state_at(u, bufs, t - 1), frame_at(bufs, t - 1));
    }
}

/// A unit that passes `channels` channels through unchanged.
pub fn pass(channels: usize) -> (u: Unit)
    ensures
        u == (Unit::Pass { channels }),
        u_wf(u),
        u_ins(u) == channels,
        u_outs(u) == channels,
{
    Unit::Pass { channels }
}

/// A single-sample delay at the default sample rate.
pub fn delay() -> (u: Unit)
    ensures
        u == (Unit::Delay { state: Fx { bits: 0 }, rate: Fx { bits: DEFAULT_SR } }),
        u_wf(u),
        u_ins(u) == 1,
        u_outs(u) == 1,
{
    Unit::Delay { state: Fx { bits: 0 }, rate: Fx { bits: DEFAULT_SR } }
}

/// Series composition: the output of `a` feeds the input of `b`.
/// The channel counts must agree where the units meet.
pub fn series(a: Unit, b: Unit) -> (u: Unit)
    requires
        u_wf(a),
        u_wf(b),
        u_outs(a) == u_ins(b),
    ensures
        u == Unit::Series(Box::new(a), Box::new(b)),
        u_wf(u),
        u_ins(u) == u_ins(a),
        u_outs(u) == u_outs(b),
{
    Unit::Series(Box::new(a), Box::new(b))
}

/// Parallel sum: both units see the same input and their outputs are
/// summed sample-wise. The units must have identical shape.
pub fn parallel(a: Unit, b: Unit) -> (u: Unit)
    requires
        u_wf(a),
        u_wf(b),
        u_ins(a) == u_ins(b),
        u_outs(a) == u_outs(b),
    ensures
        u == Unit::Parallel(Box::new(a), Box::new(b)),
        u_wf(u),
        u_ins(u) == u_ins(a),
        u_outs(u) == u_outs(a),
{
    Unit::Parallel(Box::new(a), Box::new(b))
}

/// Stack: each unit processes its own disjoint slice of the channels;
/// inputs and outputs are concatenated.
pub fn stack(a: Unit, b: Unit) -> (u: Unit)
    requires
        u_wf(a),
        u_wf(b),
        u_ins(a) + u_ins(b) <= usize::MAX,
        u_outs(a) + u_outs(b) <= usize::MAX,
    ensures
        u == Unit::Stack(Box::new(a), Box::new(b)),
        u_wf(u),
        u_ins(u) == u_ins(a) + u_ins(b),
        u_outs(u) == u_outs(a) + u_outs(b),
{
    Unit::Stack(Box::new(a), Box::new(b))
}

/// Branch: the same input feeds both units and their outputs are
/// concatenated.
pub fn branch(a: Unit, b: Unit) -> (u: Unit)
    requires
        u_wf(a),
        u_wf(b),
        u_ins(a) == u_ins(b),
        u_outs(a) + u_outs(b) <= usize::MAX,
    ensures
        u == Unit::Branch(Box::new(a), Box::new(b)),
        u_wf(u),
        u_ins(u) == u_ins(a),
        u_outs(u) == u_outs(a) + u_outs(b),
{
    Unit::Branch(Box::new(a), Box::new(b))
}

/// Scale every output sample (and every response descriptor) by a
/// constant.
pub fn scaled(a: Unit, k: Fx) -> (u: Unit)
    requires
        u_wf(a),
    ensures
        u == (Unit::Scale { k, child: Box::new(a) }),
        u_wf(u),
        u_ins(u) == u_ins(a),
        u_outs(u) == u_outs(a),
{
    Unit::Scale { k, child: Box::new(a) }
}

/// Add a constant to every output sample.
pub fn offset(a: Unit, k: Fx) -> (u: Unit)
    requires
        u_wf(a),
    ensures
        u == (Unit::Offset { k, child: Box::new(a) }),
        u_wf(u),
        u_ins(u) == u_ins(a),
        u_outs(u) == u_outs(a),
{
    Unit::Offset { k, child: Box::new(a) }
}

/// Negate every output sample.
pub fn negated(a: Unit) -> (u: Unit)
    requires
        u_wf(a),
    ensures
        u == (Unit::Scale { k: Fx { bits: SCALE_NEG }, child: Box::new(a) }),
        u_wf(u),
        u_ins(u) == u_ins(a),
        u_outs(u) == u_outs(a),
{
    Unit::Scale { k: Fx { bits: SCALE_NEG }, child: Box::new(a) }
}

/// The largest sample magnitude, in raw bits, for which the mixing
/// linearity bound below is stated.
pub const MIX_SAMPLE_LIMIT: i64 = 0x8_0000_0000_0000;

/// Linearity of one accumulated dot product, up to rounding: summing
/// the inputs first loses at most one raw unit per term against
/// summing the two dot products, and never gains.
pub proof fn lemma_dot_linear(row: Seq<Fx>, x: Seq<Fx>, y: Seq<Fx>, n: int)
    requires
        0 <= n <= 1024,
        n <= row.len(),
        n <= x.len(),
        n <= y.len(),
        x.len() == y.len(),
        forall|j: int|
            0 <= j < n ==> crate::fixed::fx_abs_int((#[trigger] row[j]).bits as int)
                <= crate::fixed::SCALE as int,
        forall|j: int|
            0 <= j < n ==> crate::fixed::fx_abs_int((#[trigger] x[j]).bits as int)
                <= MIX_SAMPLE_LIMIT as int,
        forall|j: int|
            0 <= j < n ==> crate::fixed::fx_abs_int((#[trigger] y[j]).bits as int)
                <= MIX_SAMPLE_LIMIT as int,
    ensures
        crate::fixed::fx_abs_int(crate::pan::dot_s(row, x, n).bits as int) <= n
            * MIX_SAMPLE_LIMIT as int,
        crate::fixed::fx_abs_int(crate::pan::dot_s(row, y, n).bits as int) <= n
            * MIX_SAMPLE_LIMIT as int,
        crate::fixed::fx_abs_int(crate::pan::dot_s(row, seq_add_s(x, y), n).bits as int) <= n * (2
            * MIX_SAMPLE_LIMIT as int + 1),
        crate::pan::dot_s(row, x, n).bits + crate::pan::dot_s(row, y, n).bits <= crate::pan::dot_s(
            row,
            seq_add_s(x, y),
            n,
        ).bits,
        crate::pan::dot_s(row, seq_add_s(x, y), n).bits <= crate::pan::dot_s(row, x, n).bits
            + crate::pan::dot_s(row, y, n).bits + n,
    decreases n,
{
    let b = MIX_SAMPLE_LIMIT as int;
    let z = seq_add_s(x, y);
    if n > 0 {
        lemma_dot_linear(row, x, y, n - 1);
        let a1 = x[n - 1].bits as int;
        let a2 = y[n - 1].bits as int;
        let c = row[n - 1].bits as int;
        assert(z[n - 1] == fxs_add(x[n - 1], y[n - 1]));
        assert(z[n - 1].bits as int == a1 + a2);
        crate::fixed::lemma_fx_mul_exact_bound(a1, c, b);
        crate::fixed::lemma_fx_mul_exact_bound(a2, c, b);
        crate::fixed::lemma_fx_mul_exact_bound(a1 + a2, c, 2 * b);
        crate::fixed::lemma_fx_mul_distributes(a1, a2, c, b);
    }
}

/// Mixing matrix linearity: for every output channel, mixing the sum
/// of two bounded input frames agrees with the sum of mixing each
/// frame, within one raw rounding unit per input channel, and never
/// below the exact sum.
pub proof fn lemma_mixer_linearity(m: Mixer, x: Seq<Fx>, y: Seq<Fx>, i: int)
    requires
        mixer_wf(m),
        x.len() == mixer_ins(m),
        y.len() == mixer_ins(m),
        mixer_ins(m) <= 1024,
        0 <= i < mixer_outs(m),
        forall|j: int|
            0 <= j < mixer_ins(m) ==> crate::fixed::fx_abs_int(
                (#[trigger] m.rows@[i]@[j]).bits as int,
            ) <= crate::fixed::SCALE as int,
        forall|j: int|
            0 <= j < mixer_ins(m) ==> crate::fixed::fx_abs_int((#[trigger] x[j]).bits as int)
                <= MIX_SAMPLE_LIMIT as int,
        forall|j: int|
            0 <= j < mixer_ins(m) ==> crate::fixed::fx_abs_int((#[trigger] y[j]).bits as int)
                <= MIX_SAMPLE_LIMIT as int,
    ensures
        mixer_tick_s(m, x)[i].bits + mixer_tick_s(m, y)[i].bits <= mixer_tick_s(
            m,
            seq_add_s(x, y),
        )[i].bits,
        mixer_tick_s(m, seq_add_s(x, y))[i].bits <= mixer_tick_s(m, x)[i].bits + mixer_tick_s(
            m,
            y,
        )[i].bits + mixer_ins(m),
{
    let row = m.rows@[i]@;
    lemma_dot_linear(row, x, y, mixer_ins(m) as int);
}

/// Response queries compose with series the way audio does: the
/// end-to-end descriptors of `a` followed by `b` are `b`'s response
/// applied to `a`'s response, so the composed descriptor is the
/// product of the stages' transfer functions.
pub proof fn lemma_route_series(a: Unit, b: Unit, x: Seq<Signal>, f: Fx)
    requires
        u_wf(a),
        u_wf(b),
        u_outs(a) == u_ins(b),
        x.len() == u_ins(a),
    ensures
        route_s(Unit::Series(Box::new(a), Box::new(b)), x, f) == route_s(b, route_s(a, x, f), f),
{
}

/// Response queries compose with parallel sum additively: each
/// end-to-end descriptor of `a + b` is the complex sum of the two
/// stages' descriptors for that channel, so paths that meet combine
/// by interference rather than overwriting.
pub proof fn lemma_route_parallel(a: Unit, b: Unit, x: Seq<Signal>, f: Fx)
    requires
        u_wf(a),
        u_wf(b),
        u_ins(a) == u_ins(b),
        u_outs(a) == u_outs(b),
        x.len() == u_ins(a),
    ensures
        route_s(Unit::Parallel(Box::new(a), Box::new(b)), x, f).len() == u_outs(a),
        forall|i: int|
            0 <= i < u_outs(a) ==> route_s(Unit::Parallel(Box::new(a), Box::new(b)), x, f)[i]
                == sig_add_s(route_s(a, x, f)[i], route_s(b, x, f)[i]),
{
}

/// Parallel-sum identity: one step of `a + b` on a frame is the
/// element-wise sum of one step of `a` and one step of `b` on that
/// frame, for every valid input frame.
pub proof fn lemma_parallel_sum(a: Unit, b: Unit, x: Seq<Fx>)
    requires
        u_wf(a),
        u_wf(b),
        u_ins(a) == u_ins(b),
        u_outs(a) == u_outs(b),
        x.len() == u_ins(a),
    ensures
        tick_out_s(Unit::Parallel(Box::new(a), Box::new(b)), x) == seq_add_s(
            tick_out_s(a, x),
            tick_out_s(b, x),
        ),
{
}

/// The series fold of a nonempty list of units: each unit feeds the
/// next.
pub open spec fn pipe_s(us: Seq<Unit>) -> Unit
    recommends
        us.len() >= 1,
    decreases us.len(),
{
    if us.len() <= 1 {
        us[0]
    } else {
        Unit::Series(Box::new(pipe_s(us.drop_last())), Box::new(us.last()))
    }
}

/// The parallel-sum fold of a nonempty list of same-shaped units.
pub open spec fn bus_s(us: Seq<Unit>) -> Unit
    recommends
        us.len() >= 1,
    decreases us.len(),
{
    if us.len() <= 1 {
        us[0]
    } else {
        Unit::Parallel(Box::new(bus_s(us.drop_last())), Box::new(us.last()))
    }
}

/// Chain a list of units end to end in series. Adjacent channel
/// counts must agree all along the list.
pub fn pipe(units: Vec<Unit>) -> (u: Unit)
    requires
        units@.len() >= 1,
        forall|i: int| 0 <= i < units@.len() ==> u_wf(#[trigger] units@[i]),
        forall|i: int|
            0 <= i < units@.len() - 1 ==> u_outs(#[trigger] units@[i]) == u_ins(units@[i + 1]),
    ensures
        u == pipe_s(units@),
        u_wf(u),
        u_ins(u) == u_ins(units@[0]),
        u_outs(u) == u_outs(units@[units@.len() - 1]),
{
    let ghost us0 = units@;
    let mut rest = units;
    let mut acc = rest.remove(0);
    proof {
        assert(us0.subrange(0, 1) =~= seq![us0[0]]);
        assert(pipe_s(us0.subrange(0, 1)) == us0[0]);
    }
    while rest.len() > 0
        invariant
            us0.len() >= 1,
            forall|i: int| 0 <= i < us0.len() ==> u_wf(#[trigger] us0[i]),
            forall|i: int| 0 <= i < us0.len() - 1 ==> u_outs(#[trigger] us0[i]) == u_ins(
                us0[i + 1],
            ),
            rest@.len() < us0.len(),
            rest@ == us0.subrange(us0.len() - rest@.len(), us0.len() as int),
            acc == pipe_s(us0.subrange(0, us0.len() - rest@.len())),
            u_wf(acc),
            u_ins(acc) == u_ins(us0[0]),
            u_outs(acc) == u_outs(us0[us0.len() - rest@.len() - 1]),
        decreases rest@.len(),
    {
        let ghost i = us0.len() - rest@.len();
        let nxt = rest.remove(0);
        proof {
            assert(nxt == us0[i]);
            assert(us0.subrange(0, i + 1).drop_last() =~= us0.subrange(0, i));
            assert(us0.subrange(0, i + 1).last() == us0[i]);
            assert(rest@ =~= us0.subrange(us0.len() - rest@.len(), us0.len() as int));
        }
        acc = series(acc, nxt);
        proof {
            assert(acc == pipe_s(us0.subrange(0, i + 1)));
        }
    }
    proof {
        assert(us0.subrange(0, us0.len() as int) =~= us0);
    }
    acc
}

/// Sum a nonempty list of same-shaped units, like parallel sum but
/// for any number of units.
pub fn bus(units: Vec<Unit>) -> (u: Unit)
    requires
        units@.len() >= 1,
        forall|i: int| 0 <= i < units@.len() ==> u_wf(#[trigger] units@[i]),
        forall|i: int|
            0 <= i < units@.len() ==> u_ins(#[trigger] units@[i]) == u_ins(units@[0]),
        forall|i: int|
            0 <= i < units@.len() ==> u_outs(#[trigger] units@[i]) == u_outs(units@[0]),
    ensures
        u == bus_s(units@),
        u_wf(u),
        u_ins(u) == u_ins(units@[0]),
        u_outs(u) == u_outs(units@[0]),
{
    let ghost us0 = units@;
    let mut rest = units;
    let mut acc = rest.remove(0);
    proof {
        assert(us0.subrange(0, 1) =~= seq![us0[0]]);
    }
    while rest.len() > 0
        invariant
            us0.len() >= 1,
            forall|i: int| 0 <= i < us0.len() ==> u_wf(#[trigger] us0[i]),
            forall|i: int| 0 <= i < us0.len() ==> u_ins(#[trigger] us0[i]) == u_ins(us0[0]),
            forall|i: int| 0 <= i < us0.len() ==> u_outs(#[trigger] us0[i]) == u_outs(us0[0]),
            rest@.len() < us0.len(),
            rest@ == us0.subrange(us0.len() - rest@.len(), us0.len() as int),
            acc == bus_s(us0.subrange(0, us0.len() - rest@.len())),
            u_wf(acc),
            u_ins(acc) == u_ins(us0[0]),
            u_outs(acc) == u_outs(us0[0]),
        decreases rest@.len(),
    {
        let ghost i = us0.len() - rest@.len();
        let nxt = rest.remove(0);
        proof {
            assert(nxt == us0[i]);
            assert(us0.subrange(0, i + 1).drop_last() =~= us0.subrange(0, i));
            assert(us0.subrange(0, i + 1).last() == us0[i]);
            assert(rest@ =~= us0.subrange(us0.len() - rest@.len(), us0.len() as int));
        }
        acc = parallel(acc, nxt);
    }
    proof {
        assert(us0.subrange(0, us0.len() as int) =~= us0);
    }
    acc
}

/// Difference of two same-shaped units: `a` minus `b`, sample-wise.
pub fn difference(a: Unit, b: Unit) -> (u: Unit)
    requires
        u_wf(a),
        u_wf(b),
        u_ins(a) == u_ins(b),
        u_outs(a) == u_outs(b),
    ensures
        u == Unit::Parallel(
            Box::new(a),
            Box::new(Unit::Scale { k: Fx { bits: SCALE_NEG }, child: Box::new(b) }),
        ),
        u_wf(u),
        u_ins(u) == u_ins(a),
        u_outs(u) == u_outs(a),
{
    let nb = negated(b);
    parallel(a, nb)
}

} // verus!
