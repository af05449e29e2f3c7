//! Player identity.
use vstd::prelude::*;
use vstd::string::StringExecFns;

verus! {

/// Identifies one seat in a match.
///
/// A seat is not necessarily a human: scripted opponents, a dealer, and the
/// reserved chance "player" ([`PlayerId::chance`]) are all seats. Real players
/// are numbered from 0.
#[derive(Clone, Copy, PartialEq, Eq, Ord, Hash, Debug)]
pub struct PlayerId(u32);

impl PlayerId {
    /// The seat index reserved for the chance pseudo-player.
    pub const CHANCE_INDEX: u32 = 0xFFFF_FFFFu32;

    /// The reserved chance pseudo-player.
    ///
    /// Committed random outcomes (a card revealed, a hand dealt) are modeled as
    /// actions taken by this seat. Real players must not use this index.
    pub fn chance() -> (p: PlayerId)
        ensures
            p.spec_index() == Self::CHANCE_INDEX,
    {
        PlayerId(Self::CHANCE_INDEX)
    }

    /// The seat index, as a specification value.
    pub closed spec fn spec_index(self) -> u32 {
        self.0
    }

    /// Two seats are the same seat exactly when their indices agree.
    pub broadcast proof fn lemma_index_determines_seat(a: PlayerId, b: PlayerId)
        ensures
            #[trigger] a.spec_index() == #[trigger] b.spec_index() <==> a == b,
    {
    }

    /// The seat with the given index, as a specification value.
    pub closed spec fn spec_new(index: u32) -> PlayerId {
        PlayerId(index)
    }

    /// The specification seat with an index has that index.
    pub broadcast proof fn lemma_spec_new_index(index: u32)
        ensures
            #[trigger] PlayerId::spec_new(index).spec_index() == index,
    {
    }

    /// Creates a seat with the given index.
    pub fn new(index: u32) -> (p: PlayerId)
        ensures
            p.spec_index() == index,
            p == PlayerId::spec_new(index),
    {
        PlayerId(index)
    }

    /// Returns the zero-based seat index.
    pub fn index(self) -> (i: u32)
        ensures
            i == self.spec_index(),
    {
        self.0
    }

    /// Returns true if this is the reserved chance pseudo-player.
    pub fn is_chance(self) -> (b: bool)
        ensures
            b == (self.spec_index() == u32::MAX),
    {
        self.0 == u32::MAX
    }
}

/// The character of decimal digit `d`.
pub open spec fn digit_char(d: nat) -> char {
    if d == 0 { '0' } else if d == 1 { '1' } else if d == 2 { '2' } else if d == 3 { '3' }
    else if d == 4 { '4' } else if d == 5 { '5' } else if d == 6 { '6' } else if d == 7 { '7' }
    else if d == 8 { '8' } else { '9' }
}

/// The decimal representation of `n`, most significant digit first.
pub open spec fn decimal_digits(n: nat) -> Seq<char>
    decreases n,
{
    if n < 10 {
        seq![digit_char(n)]
    } else {
        decimal_digits(n / 10).push(digit_char(n % 10))
    }
}

/// The display text of a seat: `chance` for the chance pseudo-player,
/// otherwise `p` followed by the seat index in decimal.
pub open spec fn seat_text(index: u32) -> Seq<char> {
    if index == u32::MAX {
        seq!['c', 'h', 'a', 'n', 'c', 'e']
    } else {
        seq!['p'] + decimal_digits(index as nat)
    }
}

/// Appends the decimal representation of `n` to `s`.
pub fn push_decimal(s: &mut String, n: u32)
    ensures
        final(s)@ == old(s)@ + decimal_digits(n as nat),
    decreases n,
{
    if n >= 10 {
        push_decimal(s, n / 10);
    }
    let d = n % 10;
    let text = if d == 0 { "0" } else if d == 1 { "1" } else if d == 2 { "2" } else if d == 3 { "3" }
        else if d == 4 { "4" } else if d == 5 { "5" } else if d == 6 { "6" } else if d == 7 { "7" }
        else if d == 8 { "8" } else { "9" };
    proof {
        reveal_strlit("0");
        reveal_strlit("1");
        reveal_strlit("2");
        reveal_strlit("3");
        reveal_strlit("4");
        reveal_strlit("5");
        reveal_strlit("6");
        reveal_strlit("7");
        reveal_strlit("8");
        reveal_strlit("9");
        assert(text@ =~= seq![digit_char(d as nat)]);
    }
    s.append(text);
    proof {
        if n >= 10 {
            assert(decimal_digits(n as nat) =~= decimal_digits((n / 10) as nat) + seq![digit_char(d as nat)]);
        } else {
            assert(decimal_digits(n as nat) =~= seq![digit_char(d as nat)]);
        }
    }
}

impl PlayerId {
    /// The seat as display text: `chance` for the chance pseudo-player,
    /// otherwise `p` and the index, e.g. `p1`.
    pub fn to_string(self) -> (text: String)
        ensures
            text@ == seat_text(self.spec_index()),
    {
        if self.is_chance() {
            proof {
                reveal_strlit("chance");
            }
            String::from_str("chance")
        } else {
            let mut text = String::from_str("p");
            proof {
                reveal_strlit("p");
            }
            push_decimal(&mut text, self.0);
            text
        }
    }
}

} // verus!
