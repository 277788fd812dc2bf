//! The dynamic graph: a runtime-editable chain of heterogeneous units
//! behind the same fixed-arity unit interface.
//!
//! Units are appended after construction; each append validates the
//! new unit's input count against the current output end of the chain
//! and is rejected on a mismatch. Processing a chain is proved to be
//! exactly processing the equivalent static series combinator.

use vstd::prelude::*;

verus! {

use crate::fixed::Fx;
use crate::signal::Signal;
use crate::unit::Unit;
use crate::unit::Setting;
use crate::unit::u_ins;
use crate::unit::u_outs;
use crate::unit::u_wf;
use crate::unit::tick_out_s;
use crate::unit::tick_next_s;
use crate::unit::route_s;
use crate::unit::reset_s;
use crate::unit::set_rate_s;
use crate::unit::set_s;
use crate::unit::pipe_s;
use crate::unit::lemma_tick_props;
use crate::unit::lemma_route_props;

/// Why an edit to a dynamic graph was rejected.
#[derive(Clone, Copy, PartialEq, Eq, Structural, Debug)]
pub enum NetError {
    /// The appended unit's input count does not match the channel
    /// count at the end of the chain.
    ChannelMismatch,
}

/// A runtime-editable series chain of units. An empty chain passes
/// its channels through unchanged.
#[derive(Debug)]
pub struct Net {
    /// The fixed number of channels entering the chain.
    pub channels: usize,
    /// The chained units, in processing order.
    pub units: Vec<Unit>,
}

/// The chain is well formed over `cin` input channels: every unit is
/// well formed, the first accepts `cin` channels, and adjacent units
/// agree on their channel counts.
pub open spec fn chain_wf(us: Seq<Unit>, cin: nat) -> bool {
    &&& forall|i: int| 0 <= i < us.len() ==> u_wf(#[trigger] us[i])
    &&& (us.len() > 0 ==> u_ins(us[0]) == cin)
    &&& forall|i: int| 0 <= i < us.len() - 1 ==> u_outs(#[trigger] us[i]) == u_ins(us[i + 1])
}

/// The number of channels leaving the chain.
pub open spec fn chain_outs(us: Seq<Unit>, cin: nat) -> nat {
    if us.len() == 0 {
        cin
    } else {
        u_outs(us[us.len() - 1])
    }
}

/// The output frame of one step of the whole chain: the input frame
/// pushed through every unit in order.
pub open spec fn chain_out_s(us: Seq<Unit>, x: Seq<Fx>) -> Seq<Fx>
    decreases us.len(),
{
    if us.len() == 0 {
        x
    } else {
        tick_out_s(us.last(), chain_out_s(us.drop_last(), x))
    }
}

/// The chain's units after one step.
pub open spec fn chain_next_s(us: Seq<Unit>, x: Seq<Fx>) -> Seq<Unit>
    decreases us.len(),
{
    if us.len() == 0 {
        us
    } else {
        chain_next_s(us.drop_last(), x).push(
            tick_next_s(us.last(), chain_out_s(us.drop_last(), x)),
        )
    }
}

/// The output descriptors of a response query on the whole chain.
pub open spec fn chain_route_s(us: Seq<Unit>, x: Seq<Signal>, f: Fx) -> Seq<Signal>
    decreases us.len(),
{
    if us.len() == 0 {
        x
    } else {
        route_s(us.last(), chain_route_s(us.drop_last(), x, f), f)
    }
}

/// A prefix of a well-formed chain is a well-formed chain.
pub proof fn lemma_chain_wf_prefix(us: Seq<Unit>, cin: nat, i: int)
    requires
        chain_wf(us, cin),
        0 <= i <= us.len(),
    ensures
        chain_wf(us.subrange(0, i), cin),
{
    let pre = us.subrange(0, i);
    assert(forall|j: int| 0 <= j < pre.len() ==> pre[j] == us[j]);
}

/// One chain step produces one sample per output channel and keeps
/// the shape of every unit in the chain.
pub proof fn lemma_chain_props(us: Seq<Unit>, cin: nat, x: Seq<Fx>)
    requires
        chain_wf(us, cin),
        x.len() == cin,
    ensures
        chain_out_s(us, x).len() == chain_outs(us, cin),
        chain_next_s(us, x).len() == us.len(),
        forall|i: int|
            0 <= i < us.len() ==> u_wf(#[trigger] chain_next_s(us, x)[i]) && u_ins(
                chain_next_s(us, x)[i],
            ) == u_ins(us[i]) && u_outs(chain_next_s(us, x)[i]) == u_outs(us[i]),
        chain_wf(chain_next_s(us, x), cin),
        chain_outs(chain_next_s(us, x), cin) == chain_outs(us, cin),
    decreases us.len(),
{
    if us.len() > 0 {
        let pre = us.drop_last();
        let u = us.last();
        lemma_chain_wf_prefix(us, cin, us.len() - 1);
        assert(pre =~= us.subrange(0, us.len() - 1));
        lemma_chain_props(pre, cin, x);
        assert(u_ins(u) == chain_outs(pre, cin)) by {
            if pre.len() > 0 {
                assert(pre[pre.len() - 1] == us[us.len() - 2]);
            }
        }
        lemma_tick_props(u, chain_out_s(pre, x));
        let nxt = chain_next_s(us, x);
        assert(nxt == chain_next_s(pre, x).push(tick_next_s(u, chain_out_s(pre, x))));
        assert(forall|i: int|
            0 <= i < pre.len() ==> nxt[i] == #[trigger] chain_next_s(pre, x)[i]);
        assert(forall|i: int| 0 <= i < pre.len() ==> pre[i] == us[i]);
        assert(nxt[us.len() - 1] == tick_next_s(u, chain_out_s(pre, x)));
    }
}

/// The same, for response queries.
pub proof fn lemma_chain_route_props(us: Seq<Unit>, cin: nat, x: Seq<Signal>, f: Fx)
    requires
        chain_wf(us, cin),
        x.len() == cin,
    ensures
        chain_route_s(us, x, f).len() == chain_outs(us, cin),
    decreases us.len(),
{
    if us.len() > 0 {
        let pre = us.drop_last();
        let u = us.last();
        lemma_chain_wf_prefix(us, cin, us.len() - 1);
        assert(pre =~= us.subrange(0, us.len() - 1));
        lemma_chain_route_props(pre, cin, x, f);
        assert(u_ins(u) == chain_outs(pre, cin)) by {
            if pre.len() > 0 {
                assert(pre[pre.len() - 1] == us[us.len() - 2]);
            }
        }
        lemma_route_props(u, chain_route_s(pre, x, f), f);
    }
}

/// Append determinism: one step of a nonempty chain is exactly one
/// step of the equivalent static series combinator, in both the
/// output it produces and the state it reaches.
pub proof fn lemma_chain_is_series(us: Seq<Unit>, cin: nat, x: Seq<Fx>)
    requires
        us.len() >= 1,
        chain_wf(us, cin),
        x.len() == cin,
    ensures
        chain_out_s(us, x) == tick_out_s(pipe_s(us), x),
        pipe_s(chain_next_s(us, x)) == tick_next_s(pipe_s(us), x),
    decreases us.len(),
{
    if us.len() == 1 {
        assert(us.drop_last() =~= Seq::<Unit>::empty());
        assert(us.last() == us[0]);
        assert(chain_out_s(Seq::<Unit>::empty(), x) == x);
        assert(chain_next_s(Seq::<Unit>::empty(), x) == Seq::<Unit>::empty());
        assert(chain_next_s(us, x) == Seq::<Unit>::empty().push(tick_next_s(us[0], x)));
        assert(pipe_s(chain_next_s(us, x)) == tick_next_s(us[0], x));
    } else {
        let pre = us.drop_last();
        let u = us.last();
        lemma_chain_wf_prefix(us, cin, us.len() - 1);
        assert(pre =~= us.subrange(0, us.len() - 1));
        lemma_chain_is_series(pre, cin, x);
        lemma_chain_props(pre, cin, x);
        let nxt = chain_next_s(us, x);
        assert(nxt == chain_next_s(pre, x).push(tick_next_s(u, chain_out_s(pre, x))));
        assert(nxt.len() == us.len());
        assert(nxt.drop_last() =~= chain_next_s(pre, x));
        assert(nxt.last() == tick_next_s(u, chain_out_s(pre, x)));
        assert(pipe_s(us) == Unit::Series(Box::new(pipe_s(pre)), Box::new(u)));
        assert(pipe_s(nxt) == Unit::Series(
            Box::new(pipe_s(chain_next_s(pre, x))),
            Box::new(tick_next_s(u, chain_out_s(pre, x))),
        ));
    }
}

/// The chain's units after the first `t` steps of a block.
pub open spec fn net_state_block(us: Seq<Unit>, bufs: Seq<Vec<Fx>>, t: int) -> Seq<Unit>
    decreases t,
{
    if t <= 0 {
        us
    } else {
        chain_next_s(net_state_block(us, bufs, t - 1), crate::unit::frame_at(bufs, t - 1))
    }
}

/// The chain's output frame at step `t` of a block: what the `t`-th
/// of a run of sequential chain ticks would produce.
pub open spec fn net_block_out_at(us: Seq<Unit>, bufs: Seq<Vec<Fx>>, t: int) -> Seq<Fx> {
    chain_out_s(net_state_block(us, bufs, t), crate::unit::frame_at(bufs, t))
}

/// A dynamic graph is well formed when its chain is.
pub open spec fn net_wf(n: Net) -> bool {
    chain_wf(n.units@, n.channels as nat)
}

/// The number of channels leaving a dynamic graph.
pub open spec fn net_outs(n: Net) -> nat {
    chain_outs(n.units@, n.channels as nat)
}

impl Net {
    /// An empty graph over a fixed number of channels; it passes them
    /// through until units are appended.
    pub fn new(channels: usize) -> (n: Net)
        ensures
            net_wf(n),
            n.channels == channels,
            n.units@.len() == 0,
            net_outs(n) == channels,
    {
        Net { channels, units: Vec::new() }
    }

    /// The fixed number of input channels.
    pub fn inputs(&self) -> (n: usize)
        ensures
            n == self.channels,
    {
        self.channels
    }

    /// The current number of output channels.
    pub fn outputs(&self) -> (n: usize)
        requires
            net_wf(*self),
        ensures
            n == net_outs(*self),
    {
        if self.units.len() == 0 {
            self.channels
        } else {
            self.units[self.units.len() - 1].outputs()
        }
    }

    /// Append a unit to the end of the chain. The unit must accept
    /// exactly the channels the chain currently produces; a mismatch
    /// is reported and leaves the graph unchanged.
    pub fn push(&mut self, unit: Unit) -> (r: Result<(), NetError>)
        requires
            net_wf(*old(self)),
            u_wf(unit),
        ensures
            net_wf(*final(self)),
            final(self).channels == old(self).channels,
            r is Ok ==> u_ins(unit) == net_outs(*old(self)) && final(self).units@ == old(
                self,
            ).units@.push(unit) && net_outs(*final(self)) == u_outs(unit),
            r is Err ==> u_ins(unit) != net_outs(*old(self)) && *final(self) == *old(self)
                && r == Result::<(), NetError>::Err(NetError::ChannelMismatch),
    {
        let want = self.outputs();
        if unit.inputs() != want {
            Err(NetError::ChannelMismatch)
        } else {
            proof {
                let us2 = old(self).units@.push(unit);
                assert(forall|i: int|
                    0 <= i < us2.len() - 1 ==> u_outs(#[trigger] us2[i]) == u_ins(us2[i + 1]));
            }
            self.units.push(unit);
            Ok(())
        }
    }

    /// Splice another graph onto the end of this one, in series. The
    /// other graph must accept exactly the channels this one
    /// produces; a mismatch is reported and leaves both ends of this
    /// graph unchanged.
    pub fn append(&mut self, other: Net) -> (r: Result<(), NetError>)
        requires
            net_wf(*old(self)),
            net_wf(other),
        ensures
            net_wf(*final(self)),
            final(self).channels == old(self).channels,
            r is Ok ==> other.channels == net_outs(*old(self)) && final(self).units@ == old(
                self,
            ).units@ + other.units@,
            r is Err ==> other.channels != net_outs(*old(self)) && *final(self) == *old(self)
                && r == Result::<(), NetError>::Err(NetError::ChannelMismatch),
    {
        let want = self.outputs();
        if other.inputs() != want {
            Err(NetError::ChannelMismatch)
        } else {
            proof {
                let us1 = old(self).units@;
                let us2 = other.units@;
                let cat = us1 + us2;
                assert(forall|i: int|
                    0 <= i < us1.len() ==> cat[i] == #[trigger] us1[i]);
                assert(forall|i: int|
                    us1.len() <= i < cat.len() ==> cat[i] == #[trigger] us2[i - us1.len()]);
                assert(forall|i: int| 0 <= i < cat.len() ==> u_wf(#[trigger] cat[i]));
                if us2.len() > 0 && us1.len() > 0 {
                    assert(u_outs(cat[us1.len() - 1]) == u_ins(cat[us1.len() as int]));
                }
                assert(forall|i: int|
                    0 <= i < cat.len() - 1 ==> u_outs(#[trigger] cat[i]) == u_ins(cat[i + 1]));
            }
            let mut tail = other;
            self.units.append(&mut tail.units);
            Ok(())
        }
    }

    /// Advance the whole chain by one sample.
    pub fn tick(&mut self, input: &Vec<Fx>) -> (out: Vec<Fx>)
        requires
            net_wf(*old(self)),
            input@.len() == old(self).channels,
        ensures
            out@ == chain_out_s(old(self).units@, input@),
            final(self).units@ == chain_next_s(old(self).units@, input@),
            final(self).channels == old(self).channels,
            net_wf(*final(self)),
    {
        let ghost us0 = self.units@;
        let ghost cin = self.channels as nat;
        // Copy the input so the loop owns its working frame.
        let mut curf: Vec<Fx> = frame_dup(input);
        let n = self.units.len();
        let mut i: usize = 0;
        while i < n
            invariant
                chain_wf(us0, cin),
                n == us0.len(),
                i <= n,
                self.channels as nat == cin,
                self.units@.len() == n,
                forall|j: int| i <= j < n ==> self.units@[j] == us0[j],
                self.units@.subrange(0, i as int) == chain_next_s(
                    us0.subrange(0, i as int),
                    input@,
                ),
                curf@ == chain_out_s(us0.subrange(0, i as int), input@),
                input@.len() == cin,
            decreases n - i,
        {
            let ghost pre = us0.subrange(0, i as int);
            proof {
                lemma_chain_wf_prefix(us0, cin, i as int);
                lemma_chain_props(pre, cin, input@);
                assert(u_ins(us0[i as int]) == chain_outs(pre, cin)) by {
                    if i > 0 {
                        assert(pre[pre.len() - 1] == us0[i - 1]);
                    }
                }
            }
            let u = &mut self.units[i];
            let nxt = u.tick(&curf);
            curf = nxt;
            i = i + 1;
            proof {
                let pre2 = us0.subrange(0, i as int);
                assert(pre2.drop_last() =~= pre);
                assert(pre2.last() == us0[i - 1]);
                assert(self.units@.subrange(0, i as int) =~= chain_next_s(pre2, input@));
            }
        }
        proof {
            assert(us0.subrange(0, n as int) =~= us0);
            assert(self.units@.subrange(0, n as int) =~= self.units@);
            lemma_chain_props(us0, cin, input@);
        }
        curf
    }

    /// Advance the whole chain by `size` samples over channel-major
    /// buffers. As for a single unit, block processing is exactly
    /// `size` sequential chain ticks, in outputs and in final state.
    pub fn process(&mut self, size: usize, input: &Vec<Vec<Fx>>) -> (out: Vec<Vec<Fx>>)
        requires
            net_wf(*old(self)),
            input@.len() == old(self).channels,
            forall|c: int| 0 <= c < input@.len() ==> (#[trigger] input@[c])@.len() >= size,
        ensures
            final(self).units@ == net_state_block(old(self).units@, input@, size as int),
            final(self).channels == old(self).channels,
            net_wf(*final(self)),
            out@.len() == net_outs(*old(self)),
            forall|c: int| 0 <= c < out@.len() ==> (#[trigger] out@[c])@.len() == size,
            forall|c: int, t: int|
                0 <= c < out@.len() && 0 <= t < size ==> (#[trigger] out@[c]@[t])
                    == net_block_out_at(old(self).units@, input@, t)[c],
    {
        let ghost us0 = self.units@;
        let ghost cin = self.channels as nat;
        let nin = self.channels;
        let mut frames: Vec<Vec<Fx>> = Vec::new();
        let mut t: usize = 0;
        while t < size
            invariant
                chain_wf(us0, cin),
                input@.len() == cin,
                forall|c: int| 0 <= c < input@.len() ==> (#[trigger] input@[c])@.len() >= size,
                nin as nat == cin,
                t <= size,
                self.channels as nat == cin,
                self.units@ == net_state_block(us0, input@, t as int),
                chain_wf(self.units@, cin),
                chain_outs(self.units@, cin) == chain_outs(us0, cin),
                frames@.len() == t,
                forall|tt: int|
                    0 <= tt < t ==> (#[trigger] frames@[tt])@ == net_block_out_at(us0, input@, tt),
                forall|tt: int|
                    0 <= tt < t ==> (#[trigger] frames@[tt])@.len() == chain_outs(us0, cin),
            decreases size - t,
        {
            let mut fr: Vec<Fx> = Vec::new();
            let mut c: usize = 0;
            while c < nin
                invariant
                    input@.len() == cin,
                    nin as nat == cin,
                    t < size,
                    forall|cc: int| 0 <= cc < input@.len() ==> (#[trigger] input@[cc])@.len()
                        >= size,
                    c <= nin,
                    fr@.len() == c,
                    forall|cc: int| 0 <= cc < c ==> fr@[cc] == input@[cc]@[t as int],
                decreases nin - c,
            {
                fr.push(input[c][t]);
                c = c + 1;
            }
            proof {
                assert(fr@ =~= crate::unit::frame_at(input@, t as int));
                lemma_chain_props(self.units@, cin, fr@);
            }
            let of = self.tick(&fr);
            frames.push(of);
            t = t + 1;
        }
        let nout = self.outputs();
        let mut out: Vec<Vec<Fx>> = Vec::new();
        let mut c: usize = 0;
        while c < nout
            invariant
                size == frames@.len(),
                nout == chain_outs(us0, cin),
                forall|tt: int|
                    0 <= tt < size ==> (#[trigger] frames@[tt])@.len() == chain_outs(us0, cin),
                forall|tt: int|
                    0 <= tt < size ==> (#[trigger] frames@[tt])@ == net_block_out_at(us0, input@, tt),
                c <= nout,
                out@.len() == c,
                forall|cc: int| 0 <= cc < c ==> (#[trigger] out@[cc])@.len() == size,
                forall|cc: int, tt: int|
                    0 <= cc < c && 0 <= tt < size ==> (#[trigger] out@[cc]@[tt])
                        == net_block_out_at(us0, input@, tt)[cc],
            decreases nout - c,
        {
            let mut col: Vec<Fx> = Vec::new();
            let mut t2: usize = 0;
            while t2 < size
                invariant
                    size == frames@.len(),
                    c < nout,
                    forall|tt: int| 0 <= tt < size ==> (#[trigger] frames@[tt])@.len() == nout,
                    t2 <= size,
                    col@.len() == t2,
                    forall|tt: int| 0 <= tt < t2 ==> col@[tt] == frames@[tt]@[c as int],
                decreases size - t2,
            {
                col.push(frames[t2][c]);
                t2 = t2 + 1;
            }
            out.push(col);
            c = c + 1;
        }
        out
    }

    /// Answer a response query through the whole chain.
    pub fn route(&self, input: &Vec<Signal>, frequency: Fx) -> (out: Vec<Signal>)
        requires
            net_wf(*self),
            input@.len() == self.channels,
        ensures
            out@ == chain_route_s(self.units@, input@, frequency),
    {
        let ghost us0 = self.units@;
        let ghost cin = self.channels as nat;
        let mut curf: Vec<Signal> = sig_dup(input);
        let n = self.units.len();
        let mut i: usize = 0;
        while i < n
            invariant
                chain_wf(us0, cin),
                n == us0.len(),
                i <= n,
                self.units@ == us0,
                curf@ == chain_route_s(us0.subrange(0, i as int), input@, frequency),
                input@.len() == cin,
            decreases n - i,
        {
            let ghost pre = us0.subrange(0, i as int);
            proof {
                lemma_chain_wf_prefix(us0, cin, i as int);
                lemma_chain_route_props(pre, cin, input@, frequency);
                assert(u_ins(us0[i as int]) == chain_outs(pre, cin)) by {
                    if i > 0 {
                        assert(pre[pre.len() - 1] == us0[i - 1]);
                    }
                }
            }
            let nxt = self.units[i].route(&curf, frequency);
            curf = nxt;
            i = i + 1;
            proof {
                let pre2 = us0.subrange(0, i as int);
                assert(pre2.drop_last() =~= pre);
                assert(pre2.last() == us0[i - 1]);
            }
        }
        proof {
            assert(us0.subrange(0, n as int) =~= us0);
        }
        curf
    }

    /// Clear all internal state of every unit in the chain.
    pub fn reset(&mut self)
        ensures
            final(self).channels == old(self).channels,
            final(self).units@.len() == old(self).units@.len(),
            forall|i: int|
                0 <= i < old(self).units@.len() ==> final(self).units@[i] == reset_s(
                    #[trigger] old(self).units@[i],
                ),
    {
        let n = self.units.len();
        let mut i: usize = 0;
        while i < n
            invariant
                n == self.units@.len(),
                i <= n,
                self.channels == old(self).channels,
                old(self).units@.len() == n,
                forall|j: int| i <= j < n ==> self.units@[j] == old(self).units@[j],
                forall|j: int|
                    0 <= j < i ==> self.units@[j] == reset_s(#[trigger] old(self).units@[j]),
            decreases n - i,
        {
            let u = &mut self.units[i];
            u.reset();
            i = i + 1;
        }
    }

    /// Set the sample rate of every unit in the chain.
    pub fn set_sample_rate(&mut self, sr: Fx)
        ensures
            final(self).channels == old(self).channels,
            final(self).units@.len() == old(self).units@.len(),
            forall|i: int|
                0 <= i < old(self).units@.len() ==> final(self).units@[i] == set_rate_s(
                    #[trigger] old(self).units@[i],
                    sr,
                ),
    {
        let n = self.units.len();
        let mut i: usize = 0;
        while i < n
            invariant
                n == self.units@.len(),
                i <= n,
                self.channels == old(self).channels,
                old(self).units@.len() == n,
                forall|j: int| i <= j < n ==> self.units@[j] == old(self).units@[j],
                forall|j: int|
                    0 <= j < i ==> self.units@[j] == set_rate_s(#[trigger] old(self).units@[j], sr),
            decreases n - i,
        {
            let u = &mut self.units[i];
            u.set_sample_rate(sr);
            i = i + 1;
        }
    }

    /// Deliver a setting to every unit in the chain.
    pub fn set(&mut self, s: Setting)
        ensures
            final(self).channels == old(self).channels,
            final(self).units@.len() == old(self).units@.len(),
            forall|i: int|
                0 <= i < old(self).units@.len() ==> final(self).units@[i] == set_s(
                    #[trigger] old(self).units@[i],
                    s,
                ),
    {
        let n = self.units.len();
        let mut i: usize = 0;
        while i < n
            invariant
                n == self.units@.len(),
                i <= n,
                self.channels == old(self).channels,
                old(self).units@.len() == n,
                forall|j: int| i <= j < n ==> self.units@[j] == old(self).units@[j],
                forall|j: int|
                    0 <= j < i ==> self.units@[j] == set_s(#[trigger] old(self).units@[j], s),
            decreases n - i,
        {
            let u = &mut self.units[i];
            u.set(s);
            i = i + 1;
        }
    }

    /// The equivalent static unit: the series fold of the chain. The
    /// graph must hold at least one unit, since a unit cannot stand
    /// for an empty chain of unknown width.
    pub fn to_unit(self) -> (r: Result<Unit, NetError>)
        requires
            net_wf(self),
        ensures
            self.units@.len() >= 1 ==> r == Result::<Unit, NetError>::Ok(pipe_s(self.units@))
                && u_wf(pipe_s(self.units@)) && u_ins(pipe_s(self.units@)) == self.channels
                && u_outs(pipe_s(self.units@)) == net_outs(self),
            self.units@.len() == 0 ==> r == Result::<Unit, NetError>::Err(
                NetError::ChannelMismatch,
            ),
    {
        if self.units.len() == 0 {
            Err(NetError::ChannelMismatch)
        } else {
            Ok(crate::unit::pipe(self.units))
        }
    }
}

/// Copy a frame of samples.
fn frame_dup(a: &Vec<Fx>) -> (r: Vec<Fx>)
    ensures
        r@ == a@,
{
    let mut r: Vec<Fx> = Vec::new();
    let mut i: usize = 0;
    while i < a.len()
        invariant
            i <= a@.len(),
            r@ == a@.subrange(0, i as int),
        decreases a@.len() - i,
    {
        r.push(a[i]);
        i = i + 1;
    }
    proof {
        assert(r@ =~= a@);
    }
    r
}

/// Copy a frame of descriptors.
fn sig_dup(a: &Vec<Signal>) -> (r: Vec<Signal>)
    ensures
        r@ == a@,
{
    let mut r: Vec<Signal> = Vec::new();
    let mut i: usize = 0;
    while i < a.len()
        invariant
            i <= a@.len(),
            r@ == a@.subrange(0, i as int),
        decreases a@.len() - i,
    {
        r.push(a[i]);
        i = i + 1;
    }
    proof {
        assert(r@ =~= a@);
    }
    r
}

} // verus!
