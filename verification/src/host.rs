//! The bookkeeping of an in-memory game host: the version it stamps on every
//! view (one more for each action it applies, a player's or a committed
//! chance outcome), whether it accepts an action, and when it resolves a
//! chance node itself.
use vstd::prelude::*;

use crate::active::ActivePlayers;
use crate::error::{check_action, Error};
use crate::player::PlayerId;
use crate::rng::{chance_seed, seeded_spec, Prng, CHANCE_SEED_OFFSET};

verus! {

/// Whether an action from `player` is applied: the seat must be active and
/// the action legal for it; otherwise the error that says why not.
pub open spec fn acceptance(active: Set<u32>, player: PlayerId, legal: bool) -> Result<(), Error> {
    if !active.contains(player.spec_index()) {
        Err(Error::NotActive { player })
    } else if !legal {
        Err(Error::IllegalAction { player })
    } else {
        Ok(())
    }
}

/// A host's version counter and chance sampler.
pub struct HostLedger {
    version: u64,
    chance: Prng,
}

impl HostLedger {
    /// The number of actions applied so far.
    pub closed spec fn spec_version(&self) -> u64 {
        self.version
    }

    /// The generator committed chance outcomes are sampled from.
    pub closed spec fn spec_chance(&self) -> Prng {
        self.chance
    }

    /// A fresh host for a match seeded with `seed`: version 0, and the chance
    /// sampler seeded apart from the game's own generator.
    pub fn new(seed: u64) -> (h: HostLedger)
        ensures
            h.spec_version() == 0,
            h.spec_chance()@ == seeded_spec(seed ^ CHANCE_SEED_OFFSET),
    {
        HostLedger { version: 0, chance: Prng::new(chance_seed(seed)) }
    }

    /// A host resumed at a saved `version` and chance sampler.
    pub fn resume(version: u64, chance: Prng) -> (h: HostLedger)
        ensures
            h.spec_version() == version,
            h.spec_chance() == chance,
    {
        HostLedger { version, chance }
    }

    /// The number of actions applied so far.
    pub fn version(&self) -> (v: u64)
        ensures
            v == self.spec_version(),
    {
        self.version
    }

    /// The chance sampler.
    pub fn chance(&self) -> (g: Prng)
        ensures
            g == self.spec_chance(),
    {
        self.chance
    }

    /// The chance sampler, for drawing a committed outcome; the version is
    /// left alone.
    pub fn chance_mut(&mut self) -> (g: &mut Prng)
        ensures
            *g == old(self).spec_chance(),
            final(self).spec_chance() == *final(g),
            final(self).spec_version() == old(self).spec_version(),
    {
        &mut self.chance
    }

    /// Decides whether `player`'s action is applied, given the active seats
    /// and the game's verdict `legal` on it: accepted exactly when the seat
    /// is active and the action legal, and then the version moves on by one;
    /// a rejected action changes nothing.
    pub fn accept(&mut self, active: &ActivePlayers, player: PlayerId, legal: bool) -> (r: Result<(), Error>)
        requires
            active@.contains(player.spec_index()) && legal ==> old(self).spec_version() < u64::MAX,
        ensures
            r == acceptance(active@, player, legal),
            r is Ok ==> final(self).spec_version() == old(self).spec_version() + 1,
            r is Err ==> final(self).spec_version() == old(self).spec_version(),
            final(self).spec_chance() == old(self).spec_chance(),
    {
        let verdict = check_action(active, player, legal);
        if verdict.is_ok() {
            self.version = self.version + 1;
        }
        verdict
    }

    /// Records one committed chance outcome.
    pub fn record_chance(&mut self)
        requires
            old(self).spec_version() < u64::MAX,
        ensures
            final(self).spec_version() == old(self).spec_version() + 1,
            final(self).spec_chance() == old(self).spec_chance(),
    {
        self.version = self.version + 1;
    }

    /// Whether the host resolves a chance outcome itself now: the match is
    /// live and the first active seat is the chance pseudo-player.
    pub fn resolves_chance(terminal: bool, first_active: Option<PlayerId>) -> (b: bool)
        ensures
            b == (!terminal && match first_active {
                Some(p) => p.spec_index() == PlayerId::CHANCE_INDEX,
                None => false,
            }),
    {
        if terminal {
            return false;
        }
        match first_active {
            Some(p) => p.is_chance(),
            None => false,
        }
    }

    /// Splits the ledger into its version and chance sampler, for saving.
    pub fn into_parts(self) -> (parts: (u64, Prng))
        ensures
            parts.0 == self.spec_version(),
            parts.1 == self.spec_chance(),
    {
        (self.version, self.chance)
    }
}

} // verus!
