//! The parts of the bots that need no scoring: a seeded uniform-random
//! policy and the search depth of alpha-beta minimax.
use vstd::prelude::*;

use crate::rng::{below_spec, Prng};

verus! {

/// Picks uniformly at random among a decision point's legal actions.
///
/// Deterministic given its seed: the same seed and the same sequence of
/// positions produce the same choices, which keeps games reproducible.
pub struct Random {
    rng: Prng,
}

impl Random {
    /// The bot's generator position.
    pub closed spec fn spec_position(&self) -> u64 {
        self.rng@
    }

    /// Creates a bot seeded from `seed`.
    pub fn new(seed: u64) -> (bot: Random)
        ensures
            bot.spec_position() == crate::rng::seeded_spec(seed),
    {
        Random { rng: Prng::new(seed) }
    }

    /// Picks which of `count` legal actions to play: `None` when there are
    /// none, otherwise an index drawn uniformly from `0..count`.
    pub fn choose_index(&mut self, count: usize) -> (pick: Option<usize>)
        ensures
            count == 0 ==> pick is None && final(self).spec_position() == old(self).spec_position(),
            count > 0 ==> {
                let (i, s) = below_spec(old(self).spec_position(), count as u64);
                &&& pick == Some(i as usize)
                &&& i < count
                &&& final(self).spec_position() == s
            },
    {
        if count == 0 {
            return None;
        }
        let index = self.rng.below(count as u64);
        Some(index as usize)
    }
}

/// Depth-limited alpha-beta minimax for two-player, zero-sum,
/// perfect-information games; the search itself scores positions by the
/// game's rewards.
pub struct Minimax {
    max_depth: u32,
}

impl Minimax {
    /// The search depth, as a specification value.
    pub closed spec fn spec_max_depth(&self) -> u32 {
        self.max_depth
    }

    /// Creates a search that looks up to `max_depth` plies ahead.
    pub fn new(max_depth: u32) -> (m: Minimax)
        ensures
            m.spec_max_depth() == max_depth,
    {
        Minimax { max_depth }
    }

    /// How many plies the search looks ahead.
    pub fn max_depth(&self) -> (d: u32)
        ensures
            d == self.spec_max_depth(),
    {
        self.max_depth
    }
}

} // verus!
