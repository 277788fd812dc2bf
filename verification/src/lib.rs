//! A composable audio signal-processing library.
//!
//! Processing units are values that carry fixed input and output channel
//! counts, advance one frame at a time (`tick`) or a block at a time
//! (`process`), and answer analytic frequency-response queries (`route`).
//! Combinators build larger units out of smaller ones while the channel
//! arithmetic is checked at construction time.
//!
//! Samples are `Fx` values: signed 64-bit fixed-point numbers with 32
//! fractional bits, so every operation has an exact arithmetic meaning
//! that the contracts state over the integers.

pub mod fixed;
pub mod math;
pub mod net;
pub mod pan;
pub mod signal;
pub mod unit;
