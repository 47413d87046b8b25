//! Sampling of events: a seeded generator of draws, and the rule that
//! decides from a rate and a draw whether an event is kept.
//!
//! A rate is given in millionths: 0 keeps no event, 250 000 keeps about a
//! quarter of them, 1 000 000 and above keeps them all.

use vstd::prelude::*;

verus! {

/// The rate, in millionths, that stands for 1.
pub const FULL_RATE: u32 = 1_000_000;

/// The state that replaces a seed of 0, which the generator cannot leave.
pub const ZERO_SEED: u64 = 0x9E37_79B9_7F4A_7C15;

/// The state that follows `state`: one round of a 64-bit xorshift.
pub open spec fn next_state(state: u64) -> u64 {
    let a = state ^ (state << 13);
    let b = a ^ (a >> 7);
    b ^ (b << 17)
}

/// The draw that a state gives: a number below `FULL_RATE`.
pub open spec fn draw_of(state: u64) -> u32 {
    (state % (FULL_RATE as u64)) as u32
}

/// Whether an event is kept at `rate` when its draw is `draw`.
pub open spec fn keeps(rate: u32, draw: u32) -> bool {
    rate >= FULL_RATE || draw < rate
}

/// Decides whether an event is kept at `rate` when its draw is `draw`.
/// At rate 0 no event is kept; at `FULL_RATE` and above every event is.
pub fn should_keep(rate: u32, draw: u32) -> (r: bool)
    ensures
        r == keeps(rate, draw),
        rate == 0 ==> !r,
        rate >= FULL_RATE ==> r,
{
    rate >= FULL_RATE || draw < rate
}

/// A generator of draws. The draws that it gives are determined by its seed.
#[derive(Debug)]
pub struct Sampler {
    state: u64,
}

impl Sampler {
    /// The state of the generator.
    pub closed spec fn state(&self) -> u64 {
        self.state
    }

    /// A generator that starts from `seed`, or from `ZERO_SEED` where the
    /// seed is 0.
    pub fn new(seed: u64) -> (r: Sampler)
        ensures
            r.state() == if seed == 0 {
                ZERO_SEED
            } else {
                seed
            },
    {
        if seed == 0 {
            Sampler { state: ZERO_SEED }
        } else {
            Sampler { state: seed }
        }
    }

    /// Moves the generator on by one state and returns the draw of the new
    /// state.
    pub fn next_draw(&mut self) -> (draw: u32)
        ensures
            final(self).state() == next_state(old(self).state()),
            draw == draw_of(final(self).state()),
            draw < FULL_RATE,
    {
        let a = self.state ^ (self.state << 13);
        let b = a ^ (a >> 7);
        self.state = b ^ (b << 17);
        (self.state % (FULL_RATE as u64)) as u32
    }
}

} // verus!
