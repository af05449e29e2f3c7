//! The order of seats: by index, the chance pseudo-player last.
use std::cmp::Ordering;
use vstd::prelude::*;
use vstd::std_specs::cmp::{PartialOrdSpec, PartialOrdSpecImpl};

use crate::player::PlayerId;

verus! {

broadcast use {crate::player::PlayerId::lemma_spec_new_index, crate::player::PlayerId::lemma_index_determines_seat};

impl PartialOrd for PlayerId {
    /// Seats compare by index, as the derived total order does.
    fn partial_cmp(&self, other: &PlayerId) -> (r: Option<Ordering>) {
        let a = self.index();
        let b = other.index();
        if a < b {
            Some(Ordering::Less)
        } else if a == b {
            Some(Ordering::Equal)
        } else {
            Some(Ordering::Greater)
        }
    }
}

impl PartialOrdSpecImpl for PlayerId {
    open spec fn obeys_partial_cmp_spec() -> bool {
        true
    }

    open spec fn partial_cmp_spec(&self, other: &PlayerId) -> Option<Ordering> {
        if self.spec_index() < other.spec_index() {
            Some(Ordering::Less)
        } else if self.spec_index() == other.spec_index() {
            Some(Ordering::Equal)
        } else {
            Some(Ordering::Greater)
        }
    }
}

/// Seats are ordered by index: a seat made from an index keeps it, one seat
/// comes before another exactly when its index is smaller, and two seats are
/// the same exactly when their indices are. The chance pseudo-player, with
/// the largest index, comes after every real seat.
pub proof fn lemma_seat_order(a: u32, b: u32)
    ensures
        PlayerId::spec_new(a).spec_index() == a,
        (PartialOrdSpec::partial_cmp_spec(&PlayerId::spec_new(a), &PlayerId::spec_new(b)) == Some(Ordering::Less)) <==> a < b,
        (PlayerId::spec_new(a) == PlayerId::spec_new(b)) <==> a == b,
        a < PlayerId::CHANCE_INDEX ==> PartialOrdSpec::partial_cmp_spec(&PlayerId::spec_new(a), &PlayerId::spec_new(PlayerId::CHANCE_INDEX))
            == Some(Ordering::Less),
{
}

} // verus!
