//! Provided state shape for games with hidden information.
use std::collections::BTreeMap;
use vstd::prelude::*;
use vstd::pervasive::cloned;

use crate::player::PlayerId;
use crate::rng::{below_spec, lemma_generator_is_its_position, seeded_spec, Prng};
use vstd::std_specs::btree::spec_keys_iter;
use vstd::std_specs::cmp::OrdSpec;
use vstd::std_specs::iter::IteratorSpec;

verus! {

/// `BTreeMap::get_mut`: a mutable borrow of the value stored under `key`, or
/// `None` when there is none. Writes through the borrow land in the map under
/// `key`; nothing else in the map changes.
#[verifier::external_body]
fn map_get_mut<V>(map: &mut BTreeMap<u32, V>, key: u32) -> (r: Option<&mut V>)
    ensures
        match r {
            Some(v) => {
                &&& old(map)@.contains_key(key)
                &&& *v == old(map)@[key]
                &&& final(map)@ == old(map)@.insert(key, *final(v))
            },
            None => {
                &&& !old(map)@.contains_key(key)
                &&& final(map)@ == old(map)@
            },
        },
{
    map.get_mut(&key)
}

/// The keys of `map` in ascending order.
fn ascending_keys<V>(map: &BTreeMap<u32, V>) -> (keys: Vec<u32>)
    ensures
        forall|i: int, j: int| 0 <= i < j < keys@.len() ==> keys@[i] < keys@[j],
        forall|i: int| 0 <= i < keys@.len() ==> map@.contains_key(#[trigger] keys@[i]),
        forall|k: u32| map@.contains_key(k) ==> keys@.contains(k),
{
    broadcast use vstd::laws_cmp::group_laws_cmp;

    let ghost order = spec_keys_iter(map).remaining();
    let mut keys: Vec<u32> = Vec::new();
    for k in it: map.keys()
        invariant
            it.seq() == order,
            keys@.len() == it.index(),
            forall|i: int| 0 <= i < keys@.len() ==> keys@[i] == *order[i],
    {
        keys.push(*k);
    }
    assert(keys@.len() == order.len());
    assert(order.unref().to_set() == map@.dom());
    assert forall|i: int, j: int| 0 <= i < j < keys@.len() implies keys@[i] < keys@[j] by {
        assert(vstd::laws_cmp::obeys_cmp::<u32>());
        assert(vstd::laws_cmp::obeys_cmp::<&u32>());
        assert(vstd::std_specs::btree::increasing_seq(order));
        assert((&order[i]).cmp_spec(&&order[j]) is Less);
    }
    assert forall|i: int| 0 <= i < keys@.len() implies map@.contains_key(#[trigger] keys@[i]) by {
        assert(order.unref().to_set().contains(order.unref()[i]));
    }
    assert forall|k: u32| map@.contains_key(k) implies keys@.contains(k) by {
        assert(order.unref().to_set().contains(k));
        let i = choose|i: int| 0 <= i < order.len() && order.unref()[i] == k;
        assert(keys@[i] == k);
    }
    keys
}

/// The private zones that inserting `entries` in order produces (a later
/// entry for the same seat replaces an earlier one).
pub open spec fn entries_map<Q>(entries: Seq<(PlayerId, Q)>) -> Map<u32, Q>
    decreases entries.len(),
{
    if entries.len() == 0 {
        Map::empty()
    } else {
        entries_map(entries.drop_last()).insert(entries.last().0.spec_index(), entries.last().1)
    }
}

/// `entries` lists the zones of `zones` once each, in ascending seat order.
pub open spec fn lists_zones<Q>(entries: Seq<(PlayerId, Q)>, zones: Map<u32, Q>) -> bool {
    &&& forall|i: int, j: int|
        0 <= i < j < entries.len() ==> entries[i].0.spec_index() < entries[j].0.spec_index()
    &&& forall|i: int| 0 <= i < entries.len() ==> {
        &&& zones.contains_key(#[trigger] entries[i].0.spec_index())
        &&& zones[entries[i].0.spec_index()] == entries[i].1
    }
    &&& forall|k: u32| zones.contains_key(k) ==> exists|i: int| 0 <= i < entries.len() && #[trigger] entries[i].0.spec_index() == k
}

/// State split into a public zone and per-player private zones, plus the
/// match's random generator.
///
/// Redaction is mechanical: a player's observation is the public zone plus
/// *their own* private entry, so there is no field to forget to strip. The
/// generator lives here so it clones and rewinds together with everything
/// else.
#[derive(Clone, PartialEq, Eq, Debug)]
pub struct State<P, Q> {
    public: P,
    private: BTreeMap<u32, Q>,
    prng: Prng,
}

/// The standard observation produced by [`State::view_for`]: the public zone
/// and the viewer's own private zone, if any.
#[derive(Clone, PartialEq, Eq, Debug)]
pub struct PlayerView<P, Q> {
    /// The public zone, visible to everyone.
    pub public: P,
    /// The viewer's own private zone, or `None` for a spectator.
    pub own_private: Option<Q>,
}

impl<P, Q> State<P, Q> {
    /// The public zone.
    pub closed spec fn spec_public(&self) -> P {
        self.public
    }

    /// The private zones, keyed by seat index.
    pub closed spec fn spec_private(&self) -> Map<u32, Q> {
        self.private@
    }

    /// The match's generator.
    pub closed spec fn spec_rng(&self) -> Prng {
        self.prng
    }

    /// Creates a state with the given public zone, no private entries, and a
    /// generator seeded from `seed`.
    pub fn new(public: P, seed: u64) -> (s: State<P, Q>)
        ensures
            s.spec_public() == public,
            s.spec_private() == Map::<u32, Q>::empty(),
            s.spec_rng()@ == seeded_spec(seed),
    {
        State { public, private: BTreeMap::new(), prng: Prng::new(seed) }
    }

    /// Builds a state from its parts: the public zone, the private zones
    /// (inserted in order, so a later entry for a seat wins) and the generator.
    pub fn from_parts(public: P, entries: Vec<(PlayerId, Q)>, prng: Prng) -> (s: State<P, Q>)
        ensures
            s.spec_public() == public,
            s.spec_private() == entries_map(entries@),
            s.spec_rng() == prng,
    {
        let mut private: BTreeMap<u32, Q> = BTreeMap::new();
        let ghost all = entries@;
        for entry in it: entries
            invariant
                it.seq() == all,
                private@ == entries_map(all.take(it.index())),
        {
            let (player, value) = entry;
            private.insert(player.index(), value);
            assert(all.take(it.index() + 1).drop_last() =~= all.take(it.index()));
        }
        assert(all.take(all.len() as int) =~= all);
        State { public, private, prng }
    }

    /// Takes the state apart: the public zone, every private zone in
    /// ascending seat order, and the generator.
    pub fn into_parts(self) -> (parts: (P, Vec<(PlayerId, Q)>, Prng))
        ensures
            parts.0 == self.spec_public(),
            lists_zones(parts.1@, self.spec_private()),
            parts.2 == self.spec_rng(),
    {
        let State { public, private, prng } = self;
        let mut private = private;
        let ghost zones = private@;
        let keys = ascending_keys(&private);
        let mut entries: Vec<(PlayerId, Q)> = Vec::new();
        let mut i: usize = 0;
        while i < keys.len()
            invariant
                i <= keys@.len(),
                forall|a: int, b: int| 0 <= a < b < keys@.len() ==> keys@[a] < keys@[b],
                forall|a: int| 0 <= a < keys@.len() ==> zones.contains_key(#[trigger] keys@[a]),
                forall|k: u32| zones.contains_key(k) ==> keys@.contains(k),
                forall|k: u32| #[trigger] private@.contains_key(k) <==> (zones.contains_key(k) && forall|a: int| 0 <= a < i ==> keys@[a] != k),
                forall|k: u32| #[trigger] private@.contains_key(k) ==> private@[k] == zones[k],
                entries@.len() == i,
                forall|a: int| 0 <= a < i ==> {
                    &&& #[trigger] entries@[a].0.spec_index() == keys@[a]
                    &&& entries@[a].1 == zones[keys@[a]]
                },
            decreases keys@.len() - i,
        {
            let k = keys[i];
            assert(private@.contains_key(k));
            let value = private.remove(&k);
            match value {
                Some(v) => {
                    entries.push((PlayerId::new(k), v));
                },
                None => {
                    // `k` is still in the map, so `remove` finds it.
                    assert(false);
                },
            }
            i = i + 1;
        }
        assert forall|k: u32| zones.contains_key(k) implies exists|a: int| 0 <= a < entries@.len() && #[trigger] entries@[a].0.spec_index() == k by {
            assert(keys@.contains(k));
            let a = choose|a: int| 0 <= a < keys@.len() && keys@[a] == k;
            assert(entries@[a].0.spec_index() == k);
        }
        (public, entries, prng)
    }

    /// Returns the public zone, visible to everyone.
    pub fn public(&self) -> (p: &P)
        ensures
            *p == self.spec_public(),
    {
        &self.public
    }

    /// Returns the public zone for mutation.
    pub fn public_mut(&mut self) -> (p: &mut P)
        ensures
            *p == old(self).spec_public(),
            final(self).spec_public() == *final(p),
            final(self).spec_private() == old(self).spec_private(),
            final(self).spec_rng() == old(self).spec_rng(),
    {
        &mut self.public
    }

    /// Sets `player`'s private zone, returning the previous value if any.
    pub fn insert_private(&mut self, player: PlayerId, value: Q) -> (prev: Option<Q>)
        ensures
            final(self).spec_private() == old(self).spec_private().insert(player.spec_index(), value),
            final(self).spec_public() == old(self).spec_public(),
            final(self).spec_rng() == old(self).spec_rng(),
            prev == (if old(self).spec_private().contains_key(player.spec_index()) {
                Some(old(self).spec_private()[player.spec_index()])
            } else {
                None
            }),
    {
        self.private.insert(player.index(), value)
    }

    /// Returns `player`'s private zone, or `None` if they have none.
    pub fn private(&self, player: PlayerId) -> (r: Option<&Q>)
        ensures
            r == (if self.spec_private().contains_key(player.spec_index()) {
                Some(&self.spec_private()[player.spec_index()])
            } else {
                None
            }),
    {
        self.private.get(&player.index())
    }

    /// Returns a mutable reference to `player`'s private zone.
    pub fn private_mut(&mut self, player: PlayerId) -> (r: Option<&mut Q>)
        ensures
            final(self).spec_public() == old(self).spec_public(),
            final(self).spec_rng() == old(self).spec_rng(),
            match r {
                Some(q) => {
                    &&& old(self).spec_private().contains_key(player.spec_index())
                    &&& *q == old(self).spec_private()[player.spec_index()]
                    &&& final(self).spec_private() == old(self).spec_private().insert(
                        player.spec_index(),
                        *final(q),
                    )
                },
                None => {
                    &&& !old(self).spec_private().contains_key(player.spec_index())
                    &&& final(self).spec_private() == old(self).spec_private()
                },
            },
    {
        map_get_mut(&mut self.private, player.index())
    }

    /// Removes and returns `player`'s private zone, if any.
    ///
    /// Needed to reverse a deal exactly: undoing a move that dealt a private
    /// card must leave no stale entry behind.
    pub fn remove_private(&mut self, player: PlayerId) -> (r: Option<Q>)
        ensures
            final(self).spec_private() == old(self).spec_private().remove(player.spec_index()),
            final(self).spec_public() == old(self).spec_public(),
            final(self).spec_rng() == old(self).spec_rng(),
            r == (if old(self).spec_private().contains_key(player.spec_index()) {
                Some(old(self).spec_private()[player.spec_index()])
            } else {
                None
            }),
    {
        self.private.remove(&player.index())
    }

    /// Returns the match's generator.
    pub fn rng(&self) -> (g: &Prng)
        ensures
            *g == self.spec_rng(),
    {
        &self.prng
    }

    /// Returns the match's generator for drawing randomness.
    pub fn rng_mut(&mut self) -> (g: &mut Prng)
        ensures
            *g == old(self).spec_rng(),
            final(self).spec_rng() == *final(g),
            final(self).spec_public() == old(self).spec_public(),
            final(self).spec_private() == old(self).spec_private(),
    {
        &mut self.prng
    }
}

/// What `viewer` may see of `s`: the public zone, and the viewer's own
/// private zone if it has one (nothing private for a spectator).
pub open spec fn visible_to<P, Q>(s: State<P, Q>, viewer: Option<PlayerId>) -> (P, Option<Q>) {
    (s.spec_public(), match viewer {
        Some(p) => if s.spec_private().contains_key(p.spec_index()) {
            Some(s.spec_private()[p.spec_index()])
        } else {
            None
        },
        None => None,
    })
}

/// Another seat's secret never reaches a seat's view: two states with the
/// same public zone and the same private zone for `p` show `p` the same
/// things, whatever the other seats hold and wherever their generators are;
/// a spectator sees nothing private.
pub proof fn lemma_view_ignores_other_seats<P, Q>(s1: State<P, Q>, s2: State<P, Q>, p: PlayerId)
    requires
        s1.spec_public() == s2.spec_public(),
        s1.spec_private().contains_key(p.spec_index()) == s2.spec_private().contains_key(p.spec_index()),
        s1.spec_private().contains_key(p.spec_index()) ==> s1.spec_private()[p.spec_index()] == s2.spec_private()[p.spec_index()],
    ensures
        visible_to(s1, Some(p)) == visible_to(s2, Some(p)),
        visible_to(s1, None).1 is None,
        visible_to(s1, None).0 == s1.spec_public(),
{
}

/// Equal states draw alike: states that agree in every part give the same
/// value for the same draw `low..high` through their generators, and once
/// each has drawn, the states still agree in every part; the draw changes
/// nothing but the generator. Repeating this step replays a whole match.
pub proof fn lemma_equal_states_draw_alike<P, Q>(
    s1: State<P, Q>,
    s2: State<P, Q>,
    t1: State<P, Q>,
    t2: State<P, Q>,
    low: u64,
    high: u64,
)
    requires
        low < high,
        s1.spec_public() == s2.spec_public(),
        s1.spec_private() == s2.spec_private(),
        s1.spec_rng() == s2.spec_rng(),
        t1.spec_public() == s1.spec_public(),
        t1.spec_private() == s1.spec_private(),
        t1.spec_rng()@ == below_spec(s1.spec_rng()@, (high - low) as u64).1,
        t2.spec_public() == s2.spec_public(),
        t2.spec_private() == s2.spec_private(),
        t2.spec_rng()@ == below_spec(s2.spec_rng()@, (high - low) as u64).1,
    ensures
        low + below_spec(s1.spec_rng()@, (high - low) as u64).0 == low + below_spec(
            s2.spec_rng()@,
            (high - low) as u64,
        ).0,
        t1.spec_public() == t2.spec_public(),
        t1.spec_private() == t2.spec_private(),
        t1.spec_rng() == t2.spec_rng(),
{
    lemma_generator_is_its_position(t1.spec_rng(), t2.spec_rng());
}

/// Equal states agree in every part.
pub proof fn lemma_equal_states_agree<P, Q>(s1: State<P, Q>, s2: State<P, Q>)
    requires
        s1 == s2,
    ensures
        s1.spec_public() == s2.spec_public(),
        s1.spec_private() == s2.spec_private(),
        s1.spec_rng() == s2.spec_rng(),
{
}

impl<P: Clone, Q: Clone> State<P, Q> {
    /// Produces the standard observation for `viewer`: the public zone plus
    /// their own private zone (a `None` viewer, a spectator, sees public only).
    ///
    /// The observed data are clones of what the state holds.
    pub fn view_for(&self, viewer: Option<PlayerId>) -> (v: PlayerView<P, Q>)
        ensures
            cloned(self.spec_public(), v.public),
            match viewer {
                Some(p) => if self.spec_private().contains_key(p.spec_index()) {
                    v.own_private matches Some(q) && cloned(self.spec_private()[p.spec_index()], q)
                } else {
                    v.own_private is None
                },
                None => v.own_private is None,
            },
            cloned(visible_to(*self, viewer).0, v.public),
            match visible_to(*self, viewer).1 {
                Some(q0) => v.own_private matches Some(q) && cloned(q0, q),
                None => v.own_private is None,
            },
    {
        let own_private = match viewer {
            Some(p) => match self.private(p) {
                Some(q) => Some(q.clone()),
                None => None,
            },
            None => None,
        };
        PlayerView { public: self.public.clone(), own_private }
    }
}

/// Undoing a deal: giving a seat that had no private zone one and then
/// removing it leaves the private zones exactly as they were, with no stale
/// entry behind.
pub proof fn lemma_deal_then_undo_restores<Q>(zones: Map<u32, Q>, seat: u32, value: Q)
    requires
        !zones.contains_key(seat),
    ensures
        zones.insert(seat, value).remove(seat) == zones,
{
    assert(zones.insert(seat, value).remove(seat) =~= zones);
}

} // verus!
