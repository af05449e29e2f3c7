//! The set of players who owe a decision right now.
use std::collections::BTreeSet;
use vstd::prelude::*;
use vstd::std_specs::btree::spec_btree_keys_iter;
use vstd::std_specs::cmp::OrdSpec;
use vstd::std_specs::iter::IteratorSpec;

use crate::player::PlayerId;

verus! {

/// An ordered, deterministic set of players who owe a decision.
///
/// Iteration order is stable (ascending by seat index). Determinism is the
/// engine's core promise, so ordering is part of the observable contract: two
/// replays of the same seed and inputs visit active players in the same order.
///
/// Cardinality carries meaning:
/// - empty during engine-only resolution steps,
/// - one for strictly alternating games (the common case),
/// - many during simultaneous or secret phases.
#[derive(Clone, PartialEq, Eq, Default, Debug)]
pub struct ActivePlayers(BTreeSet<u32>);

impl View for ActivePlayers {
    type V = Set<u32>;

    /// The seat indices of the active players.
    closed spec fn view(&self) -> Set<u32> {
        self.0@
    }
}

/// `seats` lists the seats of `set` in strictly ascending order of index.
pub open spec fn lists_ascending(seats: Seq<PlayerId>, set: Set<u32>) -> bool {
    &&& forall|i: int, j: int|
        0 <= i < j < seats.len() ==> seats[i].spec_index() < seats[j].spec_index()
    &&& forall|i: int| 0 <= i < seats.len() ==> set.contains(#[trigger] seats[i].spec_index())
    &&& forall|k: u32| set.contains(k) ==> exists|i: int| 0 <= i < seats.len() && #[trigger] seats[i].spec_index() == k
}

impl ActivePlayers {
    /// Returns the empty set (no player owes a decision).
    pub fn none() -> (a: ActivePlayers)
        ensures
            a@ == Set::<u32>::empty(),
    {
        ActivePlayers(BTreeSet::new())
    }

    /// Returns a singleton set containing just `player`.
    pub fn one(player: PlayerId) -> (a: ActivePlayers)
        ensures
            a@ == Set::<u32>::empty().insert(player.spec_index()),
    {
        let mut set = BTreeSet::new();
        set.insert(player.index());
        ActivePlayers(set)
    }

    /// Returns the set of all real seats `0..num_players`.
    ///
    /// Does not include the chance pseudo-player.
    pub fn all(num_players: u32) -> (a: ActivePlayers)
        ensures
            a@ == Set::new(|k: u32| k < num_players),
    {
        let mut set = BTreeSet::new();
        let mut k: u32 = 0;
        while k < num_players
            invariant
                k <= num_players,
                set@ == Set::new(|x: u32| x < k),
            decreases num_players - k,
        {
            set.insert(k);
            assert(set@ =~= Set::new(|x: u32| x < k + 1));
            k = k + 1;
        }
        ActivePlayers(set)
    }

    /// Builds the set of the given players; duplicates collapse.
    pub fn from_players(players: Vec<PlayerId>) -> (a: ActivePlayers)
        ensures
            forall|k: u32| a@.contains(k) <==> exists|i: int| 0 <= i < players@.len() && #[trigger] players@[i].spec_index() == k,
    {
        let mut set = BTreeSet::new();
        let mut n: usize = 0;
        while n < players.len()
            invariant
                n <= players@.len(),
                forall|k: u32| set@.contains(k) <==> exists|i: int| 0 <= i < n && #[trigger] players@[i].spec_index() == k,
            decreases players@.len() - n,
        {
            set.insert(players[n].index());
            assert forall|k: u32| set@.contains(k) <==> exists|i: int| 0 <= i < n + 1 && #[trigger] players@[i].spec_index() == k by {
                if set@.contains(k) && k != players@[n as int].spec_index() {
                    let i = choose|i: int| 0 <= i < n && #[trigger] players@[i].spec_index() == k;
                }
            }
            n = n + 1;
        }
        ActivePlayers(set)
    }

    /// Returns true if `player` owes a decision.
    pub fn contains(&self, player: PlayerId) -> (b: bool)
        ensures
            b == self@.contains(player.spec_index()),
    {
        self.0.contains(&player.index())
    }

    /// Returns the number of active players.
    pub fn len(&self) -> (n: usize)
        ensures
            n == self@.len(),
    {
        self.0.len()
    }

    /// Returns true if no player owes a decision.
    pub fn is_empty(&self) -> (b: bool)
        ensures
            b == (self@ == Set::<u32>::empty()),
    {
        self.0.is_empty()
    }

    /// Lists the active players in ascending seat order.
    pub fn iter(&self) -> (seats: Vec<PlayerId>)
        ensures
            lists_ascending(seats@, self@),
            seats@.len() == self@.len(),
    {
        broadcast use vstd::laws_cmp::group_laws_cmp;
        let ghost keys = spec_btree_keys_iter(&self.0).remaining();
        let mut seats: Vec<PlayerId> = Vec::new();
        for k in it: self.0.iter()
            invariant
                it.seq() == keys,
                seats@.len() == it.index(),
                forall|i: int| 0 <= i < seats@.len() ==> seats@[i].spec_index() == *keys[i],
        {
            seats.push(PlayerId::new(*k));
        }
        assert(seats@.len() == keys.len());
        assert(keys.unref().to_set() == self.0@);
        assert forall|i: int, j: int| 0 <= i < j < seats@.len() implies seats@[i].spec_index() < seats@[j].spec_index() by {
            assert(vstd::laws_cmp::obeys_cmp::<u32>());
            assert(vstd::laws_cmp::obeys_cmp::<&u32>());
            assert(vstd::std_specs::btree::increasing_seq(keys));
            assert((&keys[i]).cmp_spec(&&keys[j]) is Less);
        }
        assert forall|i: int| 0 <= i < seats@.len() implies self@.contains(#[trigger] seats@[i].spec_index()) by {
            assert(keys.unref().to_set().contains(keys.unref()[i]));
        }
        assert forall|k: u32| self@.contains(k) implies exists|i: int| 0 <= i < seats@.len() && #[trigger] seats@[i].spec_index() == k by {
            assert(keys.unref().to_set().contains(k));
            let i = choose|i: int| 0 <= i < keys.len() && keys.unref()[i] == k;
            assert(seats@[i].spec_index() == k);
        }
        seats
    }
}

} // verus!
