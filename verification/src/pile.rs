//! An ordered pile of items: a deck, hand, discard, or any zone of cards.
use vstd::prelude::*;
use vstd::std_specs::cmp::PartialEqSpec;

use crate::rng::{shuffle_spec, Prng};

verus! {

/// An ordered pile of items with deterministic operations.
///
/// The "top" is the end of the pile: [`draw`](Pile::draw) takes from the top
/// and [`put`](Pile::put) adds to it. Shuffling is deterministic given a
/// [`Prng`], and the pile carries no generator of its own.
#[derive(Clone, PartialEq, Eq, Debug, Default)]
pub struct Pile<T> {
    items: Vec<T>,
}

impl<T> View for Pile<T> {
    type V = Seq<T>;

    /// The items, bottom to top.
    closed spec fn view(&self) -> Seq<T> {
        self.items@
    }
}

impl<T> Pile<T> {
    /// Creates an empty pile.
    pub fn new() -> (p: Pile<T>)
        ensures
            p@ == Seq::<T>::empty(),
    {
        Pile { items: Vec::new() }
    }

    /// Creates a pile from `items`, with the last element on top.
    pub fn from_items(items: Vec<T>) -> (p: Pile<T>)
        ensures
            p@ == items@,
    {
        Pile { items }
    }

    /// Returns the number of items.
    pub fn len(&self) -> (n: usize)
        ensures
            n == self@.len(),
    {
        self.items.len()
    }

    /// Returns true if the pile is empty.
    pub fn is_empty(&self) -> (b: bool)
        ensures
            b == (self@.len() == 0),
    {
        self.items.is_empty()
    }

    /// Removes and returns the top item, or `None` if empty.
    pub fn draw(&mut self) -> (top: Option<T>)
        ensures
            old(self)@.len() == 0 ==> top is None && final(self)@ == old(self)@,
            old(self)@.len() > 0 ==> top == Some(old(self)@.last())
                && final(self)@ == old(self)@.drop_last(),
    {
        self.items.pop()
    }

    /// Removes up to `n` items from the top, returned top-first.
    pub fn draw_n(&mut self, n: usize) -> (drawn: Vec<T>)
        ensures
            ({
                let len = old(self)@.len();
                let k = if n < len { n as int } else { len as int };
                &&& drawn@ == old(self)@.subrange(len - k, len as int).reverse()
                &&& final(self)@ == old(self)@.subrange(0, len - k)
            }),
    {
        let mut drawn: Vec<T> = Vec::new();
        let ghost len = old(self)@.len();
        let mut taken: usize = 0;
        while taken < n
            invariant
                len == old(self)@.len(),
                taken <= n,
                taken <= len,
                drawn@ == old(self)@.subrange(len - taken, len as int).reverse(),
                self@ == old(self)@.subrange(0, len - taken),
            ensures
                taken == n || taken == len,
                drawn@ == old(self)@.subrange(len - taken, len as int).reverse(),
                self@ == old(self)@.subrange(0, len - taken),
            decreases n - taken,
        {
            match self.items.pop() {
                Some(item) => {
                    drawn.push(item);
                    taken = taken + 1;
                    assert(drawn@ =~= old(self)@.subrange(len - taken, len as int).reverse());
                },
                None => {
                    break;
                },
            }
        }
        drawn
    }

    /// Adds an item to the top.
    pub fn put(&mut self, item: T)
        ensures
            final(self)@ == old(self)@.push(item),
    {
        self.items.push(item);
    }

    /// Adds an item to the bottom.
    pub fn put_bottom(&mut self, item: T)
        ensures
            final(self)@ == old(self)@.insert(0, item),
    {
        self.items.insert(0, item);
    }

    /// Inserts an item at `index` (clamped to the length), preserving order.
    ///
    /// Use this to reverse a draw exactly, e.g. in an undo.
    pub fn insert(&mut self, index: usize, item: T)
        ensures
            final(self)@ == old(self)@.insert(
                if index < old(self)@.len() { index as int } else { old(self)@.len() as int },
                item,
            ),
    {
        let len = self.items.len();
        let at = if index < len { index } else { len };
        self.items.insert(at, item);
    }

    /// Removes and returns the item at `index`, or `None` if out of range.
    pub fn remove(&mut self, index: usize) -> (r: Option<T>)
        ensures
            index < old(self)@.len() ==> r == Some(old(self)@[index as int])
                && final(self)@ == old(self)@.remove(index as int),
            index >= old(self)@.len() ==> r is None && final(self)@ == old(self)@,
    {
        if index < self.items.len() {
            Some(self.items.remove(index))
        } else {
            None
        }
    }

    /// Shuffles the pile in place with a deterministic Fisher-Yates using `rng`.
    pub fn shuffle(&mut self, rng: &mut Prng)
        ensures
            (final(self)@, final(rng)@) == shuffle_spec(old(rng)@, old(self)@),
    {
        rng.shuffle(self.items.as_mut_slice());
    }

    /// Returns the items, bottom to top.
    pub fn as_slice(&self) -> (s: &[T])
        ensures
            s@ == self@,
    {
        self.items.as_slice()
    }

    /// Iterates the items, bottom to top.
    pub fn iter(&self) -> (it: std::slice::Iter<'_, T>)
        ensures
            vstd::std_specs::iter::IteratorSpec::remaining(&it) == self@.map_values(|x: T| &x),
    {
        self.items.iter()
    }
}

impl<T: PartialEq> Pile<T> {
    /// Returns the index of the first item equal to `item`, or `None`.
    ///
    /// What "equal" means is `T`'s `==`; the contract speaks of it where `T`
    /// follows the specification of `==`.
    pub fn position(&self, item: &T) -> (r: Option<usize>)
        ensures
            T::obeys_eq_spec() ==> match r {
                Some(i) => i < self@.len() && self@[i as int].eq_spec(item)
                    && forall|j: int| 0 <= j < i ==> !self@[j].eq_spec(item),
                None => forall|j: int| 0 <= j < self@.len() ==> !self@[j].eq_spec(item),
            },
    {
        let mut i: usize = 0;
        while i < self.items.len()
            invariant
                i <= self@.len(),
                T::obeys_eq_spec() ==> forall|j: int| 0 <= j < i ==> !self@[j].eq_spec(item),
            decreases self@.len() - i,
        {
            if self.items[i] == *item {
                return Some(i);
            }
            i = i + 1;
        }
        None
    }

    /// Returns true if the pile contains `item`.
    pub fn contains(&self, item: &T) -> (b: bool)
        ensures
            T::obeys_eq_spec() ==> (b <==> exists|j: int| 0 <= j < self@.len() && self@[j].eq_spec(item)),
    {
        self.position(item).is_some()
    }

    /// Removes and returns the first item equal to `item`, or `None`.
    pub fn remove_item(&mut self, item: &T) -> (r: Option<T>)
        ensures
            T::obeys_eq_spec() ==> match r {
                Some(found) => exists|i: int|
                    0 <= i < old(self)@.len() && old(self)@[i].eq_spec(item)
                    && (forall|j: int| 0 <= j < i ==> !old(self)@[j].eq_spec(item))
                    && found == old(self)@[i]
                    && final(self)@ == old(self)@.remove(i),
                None => final(self)@ == old(self)@
                    && forall|j: int| 0 <= j < old(self)@.len() ==> !old(self)@[j].eq_spec(item),
            },
    {
        match self.position(item) {
            Some(index) => self.remove(index),
            None => None,
        }
    }
}

/// Removing the item at `index` and inserting it back at `index` restores
/// the pile exactly; this is how an undo reverses a draw from the middle.
pub proof fn lemma_remove_then_insert_restores<T>(items: Seq<T>, index: int)
    requires
        0 <= index < items.len(),
    ensures
        items.remove(index).insert(index, items[index]) == items,
{
    assert(items.remove(index).insert(index, items[index]) =~= items);
}

/// Drawing the top item and putting it back restores the pile.
pub proof fn lemma_draw_then_put_restores<T>(items: Seq<T>)
    requires
        items.len() > 0,
    ensures
        items.drop_last().push(items.last()) == items,
{
    assert(items.drop_last().push(items.last()) =~= items);
}

} // verus!
