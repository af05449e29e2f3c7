//! Who controls each seat, and the decisions a match driver makes from it:
//! which seat waits on a human, which seat a dashboard renders for.
use std::collections::BTreeSet;
use vstd::prelude::*;

use crate::active::{lists_ascending, ActivePlayers};
use crate::player::PlayerId;

verus! {

/// Who controls a seat, as chosen in a setup screen: a human, or the AI type
/// at this index into the offered bot options.
#[derive(Clone, Copy, PartialEq, Eq, Debug)]
pub enum SeatKind {
    /// A seat played by a person.
    Human,
    /// A seat played by the bot option at this index.
    Ai(usize),
}

/// The position of a seat kind in the setup list: Human first, then each AI.
pub open spec fn kind_index_spec(kind: SeatKind) -> int {
    match kind {
        SeatKind::Human => 0,
        SeatKind::Ai(index) => index + 1,
    }
}

/// The position of a seat kind in the setup list: Human first, then each AI.
pub fn kind_index(kind: SeatKind) -> (i: usize)
    requires
        kind matches SeatKind::Ai(index) ==> index < usize::MAX,
    ensures
        i == kind_index_spec(kind),
{
    match kind {
        SeatKind::Human => 0,
        SeatKind::Ai(index) => index + 1,
    }
}

/// The seat kind at a position of the setup list: Human first, then each AI.
pub open spec fn index_kind_spec(index: usize) -> SeatKind {
    if index == 0 {
        SeatKind::Human
    } else {
        SeatKind::Ai((index - 1) as usize)
    }
}

/// The seat kind at a position of the setup list; inverse of [`kind_index`].
pub fn index_kind(index: usize) -> (kind: SeatKind)
    ensures
        kind == index_kind_spec(index),
        kind_index_spec(kind) == index,
{
    if index == 0 {
        SeatKind::Human
    } else {
        SeatKind::Ai(index - 1)
    }
}

/// The number of human seats among `seats`.
pub open spec fn human_count(seats: Seq<SeatKind>) -> nat
    decreases seats.len(),
{
    if seats.len() == 0 {
        0
    } else {
        human_count(seats.drop_last()) + if seats.last() is Human { 1nat } else { 0nat }
    }
}

/// Human seats are counted wherever they sit: the count of two seat lists
/// put together is the sum of their counts, and a single seat counts one
/// exactly when a human plays it. Together these fix the count of every
/// list as the number of its human seats.
pub proof fn lemma_human_count_adds_up(a: Seq<SeatKind>, b: Seq<SeatKind>, kind: SeatKind)
    ensures
        human_count(a + b) == human_count(a) + human_count(b),
        human_count(seq![kind]) == if kind is Human { 1nat } else { 0nat },
    decreases b.len(),
{
    if b.len() == 0 {
        assert(a + b =~= a);
    } else {
        lemma_human_count_adds_up(a, b.drop_last(), kind);
        assert((a + b).drop_last() =~= a + b.drop_last());
        assert((a + b).last() == b.last());
    }
    assert(seq![kind].drop_last() =~= Seq::<SeatKind>::empty());
    assert(seq![kind].last() == kind);
    assert(human_count(Seq::<SeatKind>::empty()) == 0);
}

/// Counts the human-controlled seats. Two or more means local pass-and-play,
/// which gates each seat's reveal behind a device handoff.
pub fn count_humans(seats: &[SeatKind]) -> (n: usize)
    ensures
        n == human_count(seats@),
{
    let mut n: usize = 0;
    let mut i: usize = 0;
    while i < seats.len()
        invariant
            i <= seats@.len(),
            n == human_count(seats@.take(i as int)),
            n <= i,
        decreases seats@.len() - i,
    {
        assert(seats@.take(i + 1).drop_last() =~= seats@.take(i as int));
        if let SeatKind::Human = seats[i] {
            n = n + 1;
        }
        i = i + 1;
    }
    assert(seats@.take(seats@.len() as int) =~= seats@);
    n
}

/// The position among `seats` of the lowest seat a human controls, if any.
pub open spec fn first_human_index(seats: Seq<SeatKind>) -> Option<nat>
    decreases seats.len(),
{
    if seats.len() == 0 {
        None
    } else if seats[0] is Human {
        Some(0)
    } else {
        match first_human_index(seats.drop_first()) {
            Some(i) => Some(i + 1),
            None => None,
        }
    }
}

/// The lowest seat a human controls, if any.
pub open spec fn first_human_spec(seats: Seq<SeatKind>) -> Option<PlayerId> {
    match first_human_index(seats) {
        Some(i) => Some(PlayerId::spec_new(i as u32)),
        None => None,
    }
}

/// The seat a dashboard renders from for a freshly built match with these
/// seats: a spectator in pass-and-play, otherwise the lowest human seat.
pub open spec fn viewer_spec(seats: Seq<SeatKind>) -> Option<PlayerId> {
    if human_count(seats) >= 2 {
        None
    } else {
        first_human_spec(seats)
    }
}

/// Skipping a prefix with no human seat shifts the first human seat by the
/// prefix's length.
proof fn lemma_first_human_skip(seats: Seq<SeatKind>, i: int)
    requires
        0 <= i <= seats.len(),
        forall|j: int| 0 <= j < i ==> !(#[trigger] seats[j] is Human),
    ensures
        first_human_index(seats) == match first_human_index(seats.skip(i)) {
            Some(k) => Some((k + i) as nat),
            None => None::<nat>,
        },
    decreases i,
{
    if i == 0 {
        assert(seats.skip(0) =~= seats);
    } else {
        assert(seats.drop_first().skip(i - 1) =~= seats.skip(i));
        assert forall|j: int| 0 <= j < i - 1 implies !(#[trigger] seats.drop_first()[j] is Human) by {
            assert(seats.drop_first()[j] == seats[j + 1]);
        }
        lemma_first_human_skip(seats.drop_first(), i - 1);
    }
}

/// The lowest seat a human controls, if any: the seat a match driver renders
/// from when a single human plays.
pub fn first_human(seats: &[SeatKind]) -> (r: Option<PlayerId>)
    requires
        seats@.len() <= u32::MAX,
    ensures
        r == first_human_spec(seats@),
{
    let mut i: usize = 0;
    while i < seats.len()
        invariant
            i <= seats@.len() <= u32::MAX,
            forall|j: int| 0 <= j < i ==> !(#[trigger] seats@[j] is Human),
        decreases seats@.len() - i,
    {
        if let SeatKind::Human = seats[i] {
            proof {
                lemma_first_human_skip(seats@, i as int);
            }
            return Some(PlayerId::new(i as u32));
        }
        i = i + 1;
    }
    proof {
        lemma_first_human_skip(seats@, i as int);
    }
    None
}

/// The seat a dashboard renders from for a freshly built match: with two or
/// more human seats the view follows the acting seat (starting as a neutral
/// spectator), otherwise it is fixed at `primary_human`, the lowest human seat
/// (a spectator when every seat is AI).
pub fn viewer_for(seats: &[SeatKind], primary_human: Option<PlayerId>) -> (viewer: Option<PlayerId>)
    ensures
        human_count(seats@) >= 2 ==> viewer is None,
        human_count(seats@) < 2 ==> viewer == primary_human,
{
    if count_humans(seats) >= 2 {
        None
    } else {
        primary_human
    }
}

/// The seat a human is expected to act for right now, if any: the first
/// (lowest) active seat that no bot drives.
pub fn awaiting_human(active: &ActivePlayers, bot_seats: &BTreeSet<u32>) -> (r: Option<PlayerId>)
    ensures
        match r {
            Some(p) => active@.contains(p.spec_index()) && !bot_seats@.contains(p.spec_index())
                && forall|k: u32| active@.contains(k) && k < p.spec_index() ==> bot_seats@.contains(k),
            None => forall|k: u32| active@.contains(k) ==> bot_seats@.contains(k),
        },
{
    let order = active.iter();
    let mut i: usize = 0;
    while i < order.len()
        invariant
            lists_ascending(order@, active@),
            i <= order@.len(),
            forall|j: int| 0 <= j < i ==> bot_seats@.contains(#[trigger] order@[j].spec_index()),
        decreases order@.len() - i,
    {
        let seat = order[i];
        if !bot_seats.contains(&seat.index()) {
            proof {
                assert forall|k: u32| active@.contains(k) && k < seat.spec_index() implies bot_seats@.contains(k) by {
                    let j = choose|j: int| 0 <= j < order@.len() && #[trigger] order@[j].spec_index() == k;
                    if j >= i {
                        assert(order@[i as int].spec_index() <= order@[j].spec_index());
                    }
                }
            }
            return Some(seat);
        }
        i = i + 1;
    }
    proof {
        assert forall|k: u32| active@.contains(k) implies bot_seats@.contains(k) by {
            let j = choose|j: int| 0 <= j < order@.len() && #[trigger] order@[j].spec_index() == k;
        }
    }
    None
}

/// The seat the turn loop asks a bot to move for: the lowest active seat,
/// when the match is live and a bot drives that seat; otherwise none (the
/// match is over, nobody is active, or the lowest active seat waits on a
/// human).
pub fn bot_to_move(terminal: bool, active: &ActivePlayers, bot_seats: &BTreeSet<u32>) -> (r: Option<PlayerId>)
    ensures
        terminal ==> r is None,
        active@.len() == 0 ==> r is None,
        !terminal ==> forall|p: PlayerId|
            active@.contains(p.spec_index()) && (forall|k: u32| active@.contains(k) ==> p.spec_index() <= k)
            ==> r == (if bot_seats@.contains(p.spec_index()) { Some(p) } else { None::<PlayerId> }),
{
    broadcast use crate::player::PlayerId::lemma_index_determines_seat;
    if terminal {
        return None;
    }
    let order = active.iter();
    if order.len() == 0 {
        proof {
            assert forall|k: u32| !active@.contains(k) by {
                if active@.contains(k) {
                    let j = choose|j: int| 0 <= j < order@.len() && #[trigger] order@[j].spec_index() == k;
                }
            }
            assert(active@ =~= Set::<u32>::empty());
        }
        return None;
    }
    let first = order[0];
    proof {
        assert forall|p: PlayerId|
            active@.contains(p.spec_index()) && (forall|k: u32| active@.contains(k) ==> p.spec_index() <= k)
            implies p == first by {
            let j = choose|j: int| 0 <= j < order@.len() && #[trigger] order@[j].spec_index() == p.spec_index();
            if j > 0 {
                assert(order@[0].spec_index() < order@[j].spec_index());
            }
            assert(active@.contains(first.spec_index()));
        }
    }
    if bot_seats.contains(&first.index()) {
        Some(first)
    } else {
        None
    }
}

/// The lowest-indexed seat of `seats`, if any; the result does not depend on
/// the order `seats` are listed in.
pub fn lowest_seat(seats: &[PlayerId]) -> (r: Option<PlayerId>)
    ensures
        seats@.len() == 0 ==> r is None,
        seats@.len() > 0 ==> (r matches Some(p) && seats@.contains(p)
            && forall|i: int| 0 <= i < seats@.len() ==> p.spec_index() <= #[trigger] seats@[i].spec_index()),
{
    if seats.len() == 0 {
        return None;
    }
    let mut best = seats[0];
    let mut i: usize = 1;
    while i < seats.len()
        invariant
            1 <= i <= seats@.len(),
            seats@.contains(best),
            forall|j: int| 0 <= j < i ==> best.spec_index() <= #[trigger] seats@[j].spec_index(),
        decreases seats@.len() - i,
    {
        if seats[i].index() < best.index() {
            best = seats[i];
        }
        i = i + 1;
    }
    Some(best)
}

} // verus!
