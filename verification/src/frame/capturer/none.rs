use vstd::prelude::*;

verus! {

/// The pause between two ticks, in milliseconds.
pub const DELAY_MS: u64 = 200;

/// The capturer of an output whose screen cannot be captured.
#[derive(Debug, Default, PartialEq, Eq, Clone, Copy)]
pub struct Capturer {}

impl Capturer {
    /// The screen lightness to hand to the predictor on each tick, and the
    /// pause after it: a black screen, every `DELAY_MS`.
    pub fn run(&self) -> (tick: (u8, u64))
        ensures
            tick == (0u8, DELAY_MS),
    {
        (0, DELAY_MS)
    }
}

} // verus!
