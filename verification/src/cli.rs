//! The command-line runner's own logic: the seat list a player asks to
//! control, per-seat bot seeds, and the match seed.
use std::collections::hash_map::{DefaultHasher, RandomState};
use std::hash::{BuildHasher, Hasher};
use vstd::prelude::*;
use vstd::wrapping::u64_specs;
use vstd::std_specs::hash::DefaultHasherAdditionalSpecFns;

use crate::player::PlayerId;

verus! {

/// A guard against a game whose random-play match never terminates, so
/// self-play and interactive play always return instead of looping forever.
pub const STEP_LIMIT: usize = 10000usize;

/// The multiplier that spreads seat numbers over the seed space.
pub const SEAT_SEED_MULT: u64 = 0x9E37_79B9_7F4A_7C15u64;

/// Unicode `White_Space`, the characters that `str::trim` removes.
pub open spec fn is_white_space(c: char) -> bool {
    let v = c as u32;
    ||| 0x9 <= v <= 0xD
    ||| v == 0x20
    ||| v == 0x85
    ||| v == 0xA0
    ||| v == 0x1680
    ||| 0x2000 <= v <= 0x200A
    ||| v == 0x2028
    ||| v == 0x2029
    ||| v == 0x202F
    ||| v == 0x205F
    ||| v == 0x3000
}

/// `t` without its leading white space.
pub open spec fn trim_start(t: Seq<char>) -> Seq<char>
    decreases t.len(),
{
    if t.len() > 0 && is_white_space(t[0]) {
        trim_start(t.drop_first())
    } else {
        t
    }
}

/// `t` without its trailing white space.
pub open spec fn trim_end(t: Seq<char>) -> Seq<char>
    decreases t.len(),
{
    if t.len() > 0 && is_white_space(t.last()) {
        trim_end(t.drop_last())
    } else {
        t
    }
}

/// `t` without leading and trailing white space.
pub open spec fn trim(t: Seq<char>) -> Seq<char> {
    trim_end(trim_start(t))
}

/// Whether `c` is an ASCII decimal digit.
pub open spec fn is_digit(c: char) -> bool {
    '0' <= c <= '9'
}

/// The value of ASCII decimal digit `c`.
pub open spec fn digit_value(c: char) -> nat {
    (c as int - '0' as int) as nat
}

/// The number a run of decimal digits spells.
pub open spec fn digits_value(d: Seq<char>) -> nat
    decreases d.len(),
{
    if d.len() == 0 {
        0
    } else {
        digits_value(d.drop_last()) * 10 + digit_value(d.last())
    }
}

/// What `u32::from_str` makes of `digits` once an optional leading `+` is
/// gone: a value when they are one or more decimal digits whose number fits
/// in a `u32`, otherwise nothing.
pub open spec fn parse_digits(digits: Seq<char>) -> Option<u32> {
    if digits.len() > 0 && (forall|i: int| 0 <= i < digits.len() ==> is_digit(#[trigger] digits[i]))
        && digits_value(digits) <= u32::MAX {
        Some(digits_value(digits) as u32)
    } else {
        None
    }
}

/// What `u32::from_str` makes of `t`: an optional `+`, then decimal digits.
pub open spec fn parse_u32(t: Seq<char>) -> Option<u32> {
    if t.len() > 0 && t[0] == '+' {
        parse_digits(t.drop_first())
    } else {
        parse_digits(t)
    }
}

/// The pieces of `s` between commas, as `str::split(',')` yields them
/// (always at least one, possibly empty).
pub open spec fn split_commas(s: Seq<char>) -> Seq<Seq<char>>
    decreases s.len(),
{
    if s.len() == 0 {
        seq![Seq::<char>::empty()]
    } else {
        let prev = split_commas(s.drop_last());
        if s.last() == ',' {
            prev.push(Seq::<char>::empty())
        } else {
            prev.update(prev.len() - 1, prev.last().push(s.last()))
        }
    }
}

/// The seat numbers among `pieces`, each trimmed, in order; pieces that are
/// not numbers are skipped.
pub open spec fn parsed_seats(pieces: Seq<Seq<char>>) -> Seq<u32>
    decreases pieces.len(),
{
    if pieces.len() == 0 {
        Seq::empty()
    } else {
        let prev = parsed_seats(pieces.drop_last());
        match parse_u32(trim(pieces.last())) {
            Some(v) => prev.push(v),
            None => prev,
        }
    }
}

/// The seats a `--manual` list asks for: the numbers in the comma list, or
/// seat 0 when the list is absent or names no seat.
pub open spec fn manual_seats_spec(manual: Option<Seq<char>>) -> Seq<u32> {
    match manual {
        None => seq![0u32],
        Some(raw) => {
            let seats = parsed_seats(split_commas(raw));
            if seats.len() == 0 {
                seq![0u32]
            } else {
                seats
            }
        },
    }
}

/// Splitting always yields at least one piece.
proof fn lemma_split_commas_nonempty(s: Seq<char>)
    ensures
        split_commas(s).len() >= 1,
    decreases s.len(),
{
    if s.len() > 0 {
        lemma_split_commas_nonempty(s.drop_last());
    }
}

/// The seats asked for are never none: at least seat 0 is controlled.
pub proof fn lemma_manual_seats_nonempty(manual: Option<Seq<char>>)
    ensures
        manual_seats_spec(manual).len() >= 1,
{
}

/// Whether `c` is white space in the sense of [`is_white_space`].
fn char_is_white_space(c: char) -> (b: bool)
    ensures
        b == is_white_space(c),
{
    let v = c as u32;
    (0x9 <= v && v <= 0xD) || v == 0x20 || v == 0x85 || v == 0xA0 || v == 0x1680 || (0x2000 <= v
        && v <= 0x200A) || v == 0x2028 || v == 0x2029 || v == 0x202F || v == 0x205F || v == 0x3000
}

proof fn lemma_trim_start_skip(t: Seq<char>, lo: int)
    requires
        0 <= lo < t.len(),
        is_white_space(t[lo]),
    ensures
        trim_start(t.subrange(lo, t.len() as int)) == trim_start(t.subrange(lo + 1, t.len() as int)),
{
    assert(t.subrange(lo, t.len() as int).drop_first() =~= t.subrange(lo + 1, t.len() as int));
}

proof fn lemma_trim_end_skip(t: Seq<char>, hi: int)
    requires
        0 < hi <= t.len(),
        is_white_space(t[hi - 1]),
    ensures
        trim_end(t.subrange(0, hi)) == trim_end(t.subrange(0, hi - 1)),
{
    assert(t.subrange(0, hi).drop_last() =~= t.subrange(0, hi - 1));
}

/// `token` with leading and trailing white space removed.
fn trim_chars(token: &Vec<char>) -> (r: Vec<char>)
    ensures
        r@ == trim(token@),
{
    let n = token.len();
    let mut lo: usize = 0;
    assert(token@.subrange(0, n as int) =~= token@);
    while lo < n && char_is_white_space(token[lo])
        invariant
            n == token@.len(),
            lo <= n,
            trim_start(token@) == trim_start(token@.subrange(lo as int, n as int)),
        decreases n - lo,
    {
        proof {
            lemma_trim_start_skip(token@, lo as int);
        }
        lo = lo + 1;
    }
    let ghost started = token@.subrange(lo as int, n as int);
    assert(trim_start(started) == started);
    let mut hi: usize = n;
    while hi > lo && char_is_white_space(token[hi - 1])
        invariant
            n == token@.len(),
            lo <= hi <= n,
            started == token@.subrange(lo as int, n as int),
            trim_end(started) == trim_end(token@.subrange(lo as int, hi as int)),
        decreases hi - lo,
    {
        proof {
            assert(token@.subrange(lo as int, hi as int) =~= started.subrange(0, hi - lo));
            assert(token@.subrange(lo as int, hi - 1) =~= started.subrange(0, hi - lo - 1));
            lemma_trim_end_skip(started, hi - lo);
        }
        hi = hi - 1;
    }
    let mut r: Vec<char> = Vec::new();
    let mut k: usize = lo;
    while k < hi
        invariant
            n == token@.len(),
            lo <= k <= hi <= n,
            r@ == token@.subrange(lo as int, k as int),
        decreases hi - k,
    {
        r.push(token[k]);
        assert(r@ =~= token@.subrange(lo as int, k + 1));
        k = k + 1;
    }
    r
}

/// What `u32::from_str` makes of `token`.
fn parse_u32_chars(token: &Vec<char>) -> (r: Option<u32>)
    ensures
        r == parse_u32(token@),
{
    let n = token.len();
    let start: usize = if n > 0 && token[0] == '+' { 1 } else { 0 };
    let ghost digits = token@.subrange(start as int, n as int);
    assert(start == 1 ==> token@.drop_first() =~= digits);
    assert(start == 0 ==> token@ =~= digits);
    assert(parse_u32(token@) == parse_digits(digits));
    if start >= n {
        return None;
    }
    let mut value: u64 = 0;
    let mut k: usize = start;
    while k < n
        invariant
            n == token@.len(),
            start <= k <= n,
            digits == token@.subrange(start as int, n as int),
            parse_u32(token@) == parse_digits(digits),
            forall|i: int| start <= i < k ==> is_digit(#[trigger] token@[i]),
            value == digits_value(token@.subrange(start as int, k as int)),
            value <= u32::MAX,
        decreases n - k,
    {
        let c = token[k];
        assert(token@.subrange(start as int, k + 1).drop_last() =~= token@.subrange(start as int, k as int));
        if !('0' <= c && c <= '9') {
            assert(!is_digit(digits[k - start]));
            return None;
        }
        let d = (c as u32 - '0' as u32) as u64;
        let next = value * 10 + d;
        assert(digits_value(token@.subrange(start as int, k + 1)) == next);
        assert(token@.subrange(start as int, k + 1) =~= digits.subrange(0, k - start + 1));
        if next > 0xFFFF_FFFFu64 {
            proof {
                lemma_digits_value_prefix(digits, k - start + 1);
                assert(parse_digits(digits) is None);
            }
            return None;
        }
        value = next;
        k = k + 1;
    }
    assert(forall|i: int| 0 <= i < digits.len() ==> is_digit(#[trigger] digits[i])) by {
        assert forall|i: int| 0 <= i < digits.len() implies is_digit(#[trigger] digits[i]) by {
            assert(digits[i] == token@[start + i]);
        }
    }
    assert(parse_digits(digits) == Some(value as u32));
    Some(value as u32)
}

/// A longer run of digits spells at least the number of its prefix.
proof fn lemma_digits_value_prefix(d: Seq<char>, k: int)
    requires
        0 <= k <= d.len(),
    ensures
        digits_value(d.subrange(0, k)) <= digits_value(d),
    decreases d.len() - k,
{
    if k < d.len() {
        lemma_digits_value_prefix(d, k + 1);
        assert(d.subrange(0, k + 1).drop_last() =~= d.subrange(0, k));
    } else {
        assert(d.subrange(0, k) =~= d);
    }
}

/// The choice among `count` that `digits` names: a value when they are one
/// or more decimal digits spelling a number below `count`.
pub open spec fn index_digits(digits: Seq<char>, count: usize) -> Option<usize> {
    if digits.len() > 0 && (forall|i: int| 0 <= i < digits.len() ==> is_digit(#[trigger] digits[i]))
        && digits_value(digits) < count {
        Some(digits_value(digits) as usize)
    } else {
        None
    }
}

/// The choice among `count` that `t` names: an optional `+`, then digits.
pub open spec fn parse_index(t: Seq<char>, count: usize) -> Option<usize> {
    if t.len() > 0 && t[0] == '+' {
        index_digits(t.drop_first(), count)
    } else {
        index_digits(t, count)
    }
}

/// What a prompt makes of a typed `line` when `count` choices are on offer:
/// the index it names when, trimmed, it is an optional `+` and decimal digits
/// naming one of the choices; otherwise nothing.
pub open spec fn choice_spec(line: Seq<char>, count: usize) -> Option<usize> {
    parse_index(trim(line), count)
}

/// The choice `token` names among `count`.
fn parse_index_chars(token: &Vec<char>, count: usize) -> (r: Option<usize>)
    ensures
        r == parse_index(token@, count),
{
    let n = token.len();
    let start: usize = if n > 0 && token[0] == '+' { 1 } else { 0 };
    let ghost digits = token@.subrange(start as int, n as int);
    assert(start == 1 ==> token@.drop_first() =~= digits);
    assert(start == 0 ==> token@ =~= digits);
    assert(parse_index(token@, count) == index_digits(digits, count));
    if start >= n {
        return None;
    }
    let limit = count as u128;
    let mut value: u128 = 0;
    let mut k: usize = start;
    while k < n
        invariant
            n == token@.len(),
            start <= k <= n,
            digits == token@.subrange(start as int, n as int),
            parse_index(token@, count) == index_digits(digits, count),
            limit == count,
            forall|i: int| start <= i < k ==> is_digit(#[trigger] token@[i]),
            value == digits_value(token@.subrange(start as int, k as int)),
            value < count || k == start,
            value <= count,
        decreases n - k,
    {
        let c = token[k];
        assert(token@.subrange(start as int, k + 1).drop_last() =~= token@.subrange(start as int, k as int));
        if !('0' <= c && c <= '9') {
            assert(!is_digit(digits[k - start]));
            return None;
        }
        let d = (c as u32 - '0' as u32) as u128;
        let next = value * 10 + d;
        assert(digits_value(token@.subrange(start as int, k + 1)) == next);
        assert(token@.subrange(start as int, k + 1) =~= digits.subrange(0, k - start + 1));
        if next >= limit {
            proof {
                lemma_digits_value_prefix(digits, k - start + 1);
            }
            return None;
        }
        value = next;
        k = k + 1;
    }
    assert(forall|i: int| 0 <= i < digits.len() ==> is_digit(#[trigger] digits[i])) by {
        assert forall|i: int| 0 <= i < digits.len() implies is_digit(#[trigger] digits[i]) by {
            assert(digits[i] == token@[start + i]);
        }
    }
    assert(token@.subrange(start as int, n as int) =~= digits);
    assert(index_digits(digits, count) == Some(value as usize));
    Some(value as usize)
}

/// Reads a prompt's typed `line` as one of `count` choices: the index it
/// names, if it names one.
pub fn parse_choice(line: &str, count: usize) -> (r: Option<usize>)
    ensures
        r == choice_spec(line@, count),
{
    let mut chars: Vec<char> = Vec::new();
    for c in it: line.chars()
        invariant
            it.seq() == line@,
            chars@ == line@.take(it.index()),
    {
        chars.push(c);
        assert(chars@ =~= line@.take(it.index() + 1));
    }
    assert(line@.take(line@.len() as int) =~= line@);
    let trimmed = trim_chars(&chars);
    parse_index_chars(&trimmed, count)
}

/// The seat a text match renders from: the one seat the human controls, or
/// a spectator when they control none or several.
pub fn play_viewer(manual: &[u32]) -> (v: Option<PlayerId>)
    ensures
        manual@.len() == 1 ==> v == Some(PlayerId::spec_new(manual@[0])),
        manual@.len() != 1 ==> v is None,
{
    if manual.len() == 1 {
        Some(PlayerId::new(manual[0]))
    } else {
        None
    }
}

/// What a text or self-play match loop does next.
#[derive(Clone, Copy, PartialEq, Eq, Debug)]
pub enum PlayStep {
    /// Stop: the match is over, the step limit is reached, a bot made no
    /// move, or the human seat to act has nothing to choose from.
    Stop,
    /// Prompt this human seat for one of its actions.
    Prompt(PlayerId),
    /// Ask the bot of the active seat for a move.
    Bot,
}

/// The next step of a match loop that has taken `steps` steps: `terminal`
/// is whether the match is over, `stalled` whether the last bot step made no
/// move, `awaiting` the human seat owed a decision and `choices` how many
/// actions it has.
pub open spec fn play_step_spec(terminal: bool, steps: usize, stalled: bool, awaiting: Option<PlayerId>, choices: usize) -> PlayStep {
    if terminal || steps >= STEP_LIMIT || stalled {
        PlayStep::Stop
    } else {
        match awaiting {
            Some(p) => if choices > 0 { PlayStep::Prompt(p) } else { PlayStep::Stop },
            None => PlayStep::Bot,
        }
    }
}

/// Decides a match loop's next step; a loop that follows it takes at most
/// [`STEP_LIMIT`] steps.
pub fn play_step(terminal: bool, steps: usize, stalled: bool, awaiting: Option<PlayerId>, choices: usize) -> (s: PlayStep)
    ensures
        s == play_step_spec(terminal, steps, stalled, awaiting, choices),
        s != PlayStep::Stop ==> steps < STEP_LIMIT,
{
    if terminal || steps >= STEP_LIMIT || stalled {
        PlayStep::Stop
    } else {
        match awaiting {
            Some(p) => if choices > 0 { PlayStep::Prompt(p) } else { PlayStep::Stop },
            None => PlayStep::Bot,
        }
    }
}

/// Parses a `--manual` list ("0" or "0,1"), defaulting to seat 0 when it is
/// absent or names no seat.
pub fn parse_seats(manual: Option<&str>) -> (seats: Vec<u32>)
    ensures
        seats@ == manual_seats_spec(match manual {
            Some(raw) => Some(raw@),
            None => None,
        }),
{
    let raw = match manual {
        Some(raw) => raw,
        None => {
            return vec![0u32];
        },
    };
    let mut seats: Vec<u32> = Vec::new();
    let mut current: Vec<char> = Vec::new();
    for c in it: raw.chars()
        invariant
            it.seq() == raw@,
            ({
                let pieces = split_commas(raw@.take(it.index()));
                &&& current@ == pieces.last()
                &&& seats@ == parsed_seats(pieces.drop_last())
            }),
    {
        let ghost prefix = raw@.take(it.index());
        proof {
            lemma_split_commas_nonempty(prefix);
            assert(raw@.take(it.index() + 1).drop_last() =~= prefix);
            assert(raw@.take(it.index() + 1).last() == c);
        }
        if c == ',' {
            let trimmed = trim_chars(&current);
            match parse_u32_chars(&trimmed) {
                Some(v) => seats.push(v),
                None => {},
            }
            current = Vec::new();
            proof {
                let pieces = split_commas(prefix);
                assert(pieces.push(Seq::<char>::empty()).drop_last() =~= pieces);
            }
        } else {
            current.push(c);
            proof {
                let pieces = split_commas(prefix);
                assert(pieces.update(pieces.len() - 1, pieces.last().push(c)).drop_last() =~= pieces.drop_last());
            }
        }
    }
    proof {
        assert(raw@.take(raw@.len() as int) =~= raw@);
        lemma_split_commas_nonempty(raw@);
        let pieces = split_commas(raw@);
        assert(pieces.drop_last().push(pieces.last()) =~= pieces);
    }
    let trimmed = trim_chars(&current);
    match parse_u32_chars(&trimmed) {
        Some(v) => seats.push(v),
        None => {},
    }
    if seats.len() == 0 {
        vec![0u32]
    } else {
        seats
    }
}

/// The bot seed of seat `seat` in a match seeded with `seed`.
pub open spec fn seat_seed_spec(seed: u64, seat: u32) -> u64 {
    seed ^ u64_specs::wrapping_mul(u64_specs::wrapping_add(seat as u64, 1), SEAT_SEED_MULT)
}

/// Multiplying by [`SEAT_SEED_MULT`] modulo 2^64 loses nothing: the constant
/// is odd, so `0xF1DE_83E1_9937_733D` undoes it.
proof fn lemma_seat_mult_injective(x: u64, y: u64)
    requires
        u64_specs::wrapping_mul(x, SEAT_SEED_MULT) == u64_specs::wrapping_mul(y, SEAT_SEED_MULT),
    ensures
        x == y,
{
    lemma_seat_mult_undone(x);
    lemma_seat_mult_undone(y);
}

/// `(x * SEAT_SEED_MULT mod 2^64) * 0xF1DE_83E1_9937_733D mod 2^64 == x`.
proof fn lemma_seat_mult_undone(x: u64)
    ensures
        ((u64_specs::wrapping_mul(x, SEAT_SEED_MULT) as int) * 0xF1DE_83E1_9937_733Dint) % 0x1_0000_0000_0000_0000int == x,
{
    let m: int = 0x1_0000_0000_0000_0000int;
    let c: int = SEAT_SEED_MULT as int;
    let inv: int = 0xF1DE_83E1_9937_733Dint;
    let k: int = 10771413168148108919int;
    assert(c * inv == 1 + k * m);
    let xc = x as int * c;
    assert(u64_specs::wrapping_mul(x, SEAT_SEED_MULT) as int == xc % m);
    vstd::arithmetic::div_mod::lemma_mul_mod_noop_left(xc, inv, m);
    vstd::arithmetic::mul::lemma_mul_is_associative(x as int, c, inv);
    vstd::arithmetic::mul::lemma_mul_is_distributive_add(x as int, 1, k * m);
    vstd::arithmetic::mul::lemma_mul_is_associative(x as int, k, m);
    assert(x as int * (k * m) == m * (x as int * k)) by {
        vstd::arithmetic::mul::lemma_mul_is_commutative(x as int * k, m);
    }
    vstd::arithmetic::div_mod::lemma_mod_multiples_vanish(x as int * k, x as int, m);
    vstd::arithmetic::div_mod::lemma_small_mod(x as nat, m as nat);
}

/// Different seats of one match get different bot seeds, and the same seat
/// always gets the same one.
pub proof fn lemma_seat_seeds_distinct(seed: u64, a: u32, b: u32)
    ensures
        seat_seed_spec(seed, a) == seat_seed_spec(seed, b) <==> a == b,
{
    let pa = u64_specs::wrapping_mul(u64_specs::wrapping_add(a as u64, 1), SEAT_SEED_MULT);
    let pb = u64_specs::wrapping_mul(u64_specs::wrapping_add(b as u64, 1), SEAT_SEED_MULT);
    if seat_seed_spec(seed, a) == seat_seed_spec(seed, b) {
        assert(pa == pb) by (bit_vector)
            requires
                seed ^ pa == seed ^ pb,
        ;
        lemma_seat_mult_injective(u64_specs::wrapping_add(a as u64, 1), u64_specs::wrapping_add(b as u64, 1));
    }
}

/// Mixes a per-seat bot seed off the match seed, so two bot seats do not
/// share a random stream.
pub fn seat_seed(seed: u64, seat: u32) -> (s: u64)
    ensures
        s == seat_seed_spec(seed, seat),
{
    seed ^ (seat as u64).wrapping_add(1).wrapping_mul(SEAT_SEED_MULT)
}

/// The bot seed of seat `seat` in a self-playing demo match seeded with
/// `seed`: distinct for every seat of the match.
pub fn demo_seat_seed(seed: u64, seat: u32) -> (s: u64)
    ensures
        s == seed ^ ((seat + 1) as u64),
{
    seed ^ (seat as u64 + 1)
}

/// A fresh hashing key, random per process.
///
/// Calls `RandomState::new`. Nothing is promised of the key.
#[verifier::external_body]
fn random_state() -> RandomState {
    RandomState::new()
}

/// A hasher keyed by `state`, with nothing written to it yet.
///
/// Calls `BuildHasher::build_hasher` on a `RandomState`. The key is random,
/// so nothing is promised of what the hasher will finish with.
#[verifier::external_body]
fn keyed_hasher(state: &RandomState) -> DefaultHasher {
    state.build_hasher()
}

/// A process-random seed, so an unseeded match differs from run to run: the
/// hash of nothing under a per-process random key, that is, what a hasher
/// finishes with rather than any fixed number.
fn random_seed() -> (seed: u64)
    ensures
        exists|h: DefaultHasher| #[trigger] DefaultHasher::spec_finish(h@) == seed,
{
    let hasher = keyed_hasher(&random_state());
    let seed = hasher.finish();
    assert(DefaultHasher::spec_finish(hasher@) == seed);
    seed
}

/// The seed a match uses: the one requested, or a process-random one when
/// none was requested.
pub fn seed_or_random(requested: Option<u64>) -> (seed: u64)
    ensures
        requested matches Some(s) ==> seed == s,
        requested is None ==> exists|h: DefaultHasher| #[trigger] DefaultHasher::spec_finish(h@) == seed,
{
    match requested {
        Some(seed) => seed,
        None => random_seed(),
    }
}

/// Arguments for the interactive `play` command.
pub struct PlayArgs {
    seed: Option<u64>,
    manual: Option<String>,
}

impl PlayArgs {
    /// The requested seed, as a specification value.
    pub closed spec fn spec_seed(&self) -> Option<u64> {
        self.seed
    }

    /// The requested `--manual` list, as a specification value.
    pub closed spec fn spec_manual(&self) -> Option<Seq<char>> {
        match self.manual {
            Some(m) => Some(m@),
            None => None,
        }
    }

    /// Bundles the parsed command-line values.
    pub fn new(seed: Option<u64>, manual: Option<String>) -> (args: PlayArgs)
        ensures
            args.spec_seed() == seed,
            args.spec_manual() == (match manual {
                Some(m) => Some(m@),
                None => None::<Seq<char>>,
            }),
    {
        PlayArgs { seed, manual }
    }

    /// The seed requested on the command line, if any.
    pub fn seed(&self) -> (s: Option<u64>)
        ensures
            s == self.spec_seed(),
    {
        self.seed
    }

    /// The seats the human asked to control, defaulting to seat 0.
    pub fn manual_seats(&self) -> (seats: Vec<u32>)
        ensures
            seats@ == manual_seats_spec(self.spec_manual()),
    {
        match &self.manual {
            Some(m) => parse_seats(Some(m.as_str())),
            None => parse_seats(None),
        }
    }
}

} // verus!
