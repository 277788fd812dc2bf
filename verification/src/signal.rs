//! Signal descriptors: the values carried by an analytic frequency
//! response query in place of audio samples. A descriptor for one
//! channel either has no definite response or is a complex gain.

use vstd::prelude::*;

verus! {

use crate::fixed::Fx;
use crate::fixed::fxs_add;
use crate::fixed::fxs_sub;
use crate::fixed::fxs_mul;
use crate::fixed::fx_add;
use crate::fixed::fx_sub;
use crate::fixed::fx_mul;

/// A complex number with fixed-point parts.
#[derive(Clone, Copy, PartialEq, Eq, Structural, Debug)]
pub struct Cpx {
    pub re: Fx,
    pub im: Fx,
}

/// Complex addition at the value level.
pub open spec fn cpx_add_s(a: Cpx, b: Cpx) -> Cpx {
    Cpx { re: fxs_add(a.re, b.re), im: fxs_add(a.im, b.im) }
}

/// Complex multiplication at the value level.
pub open spec fn cpx_mul_s(a: Cpx, b: Cpx) -> Cpx {
    Cpx {
        re: fxs_sub(fxs_mul(a.re, b.re), fxs_mul(a.im, b.im)),
        im: fxs_add(fxs_mul(a.re, b.im), fxs_mul(a.im, b.re)),
    }
}

/// Scaling by a real constant at the value level.
pub open spec fn cpx_scale_s(a: Cpx, k: Fx) -> Cpx {
    Cpx { re: fxs_mul(a.re, k), im: fxs_mul(a.im, k) }
}

impl Cpx {
    /// The complex number zero.
    pub fn zero() -> (r: Cpx)
        ensures
            r == (Cpx { re: Fx { bits: 0 }, im: Fx { bits: 0 } }),
    {
        Cpx { re: Fx { bits: 0 }, im: Fx { bits: 0 } }
    }

    /// Complex addition.
    pub fn add_to(self, other: Cpx) -> (r: Cpx)
        ensures
            r == cpx_add_s(self, other),
    {
        Cpx { re: fx_add(self.re, other.re), im: fx_add(self.im, other.im) }
    }

    /// Complex multiplication.
    pub fn mul_by(self, other: Cpx) -> (r: Cpx)
        ensures
            r == cpx_mul_s(self, other),
    {
        Cpx {
            re: fx_sub(fx_mul(self.re, other.re), fx_mul(self.im, other.im)),
            im: fx_add(fx_mul(self.re, other.im), fx_mul(self.im, other.re)),
        }
    }

    /// Scaling by a real constant.
    pub fn scale_by(self, k: Fx) -> (r: Cpx)
        ensures
            r == cpx_scale_s(self, k),
    {
        Cpx { re: fx_mul(self.re, k), im: fx_mul(self.im, k) }
    }
}

/// The response of one channel at one analysis frequency: either not
/// known to be linear, or a definite complex gain. Callers can tell
/// "no response available" from a zero response.
#[derive(Clone, Copy, PartialEq, Eq, Structural, Debug)]
pub enum Signal {
    /// No definite linear response.
    Unknown,
    /// A definite complex gain.
    Response(Cpx),
}

/// Scaling a descriptor by a real constant at the value level.
pub open spec fn sig_scale_s(s: Signal, k: Fx) -> Signal {
    match s {
        Signal::Unknown => Signal::Unknown,
        Signal::Response(c) => Signal::Response(cpx_scale_s(c, k)),
    }
}

/// Scaling a descriptor by a complex gain at the value level.
pub open spec fn sig_mul_s(s: Signal, g: Cpx) -> Signal {
    match s {
        Signal::Unknown => Signal::Unknown,
        Signal::Response(c) => Signal::Response(cpx_mul_s(c, g)),
    }
}

/// Linear combination of two descriptors at the value level: the sum
/// is definite only when both sides are.
pub open spec fn sig_add_s(a: Signal, b: Signal) -> Signal {
    match a {
        Signal::Unknown => Signal::Unknown,
        Signal::Response(ca) => match b {
            Signal::Unknown => Signal::Unknown,
            Signal::Response(cb) => Signal::Response(cpx_add_s(ca, cb)),
        },
    }
}

impl Signal {
    /// Scale the response by a real constant.
    pub fn scale(self, k: Fx) -> (r: Signal)
        ensures
            r == sig_scale_s(self, k),
    {
        match self {
            Signal::Unknown => Signal::Unknown,
            Signal::Response(c) => Signal::Response(c.scale_by(k)),
        }
    }

    /// Scale the response by a complex gain.
    pub fn mul_gain(self, g: Cpx) -> (r: Signal)
        ensures
            r == sig_mul_s(self, g),
    {
        match self {
            Signal::Unknown => Signal::Unknown,
            Signal::Response(c) => Signal::Response(c.mul_by(g)),
        }
    }

    /// Merge a descriptor for the same channel arriving through a
    /// second path: complex addition when both responses are definite.
    pub fn combine_linear(self, other: Signal) -> (r: Signal)
        ensures
            r == sig_add_s(self, other),
    {
        match self {
            Signal::Unknown => Signal::Unknown,
            Signal::Response(ca) => match other {
                Signal::Unknown => Signal::Unknown,
                Signal::Response(cb) => Signal::Response(ca.add_to(cb)),
            },
        }
    }
}

/// A frame of descriptors with no definite response yet, one per
/// channel.
pub fn new_signal_frame(channels: usize) -> (r: Vec<Signal>)
    ensures
        r@.len() == channels,
        forall|i: int| 0 <= i < channels ==> r@[i] == Signal::Unknown,
{
    let mut v: Vec<Signal> = Vec::new();
    let mut i: usize = 0;
    while i < channels
        invariant
            i <= channels,
            v@.len() == i,
            forall|j: int| 0 <= j < i ==> v@[j] == Signal::Unknown,
        decreases channels - i,
    {
        v.push(Signal::Unknown);
        i = i + 1;
    }
    v
}

} // verus!
