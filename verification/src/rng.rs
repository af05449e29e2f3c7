//! Deterministic, snapshot-able pseudo-random generator.
use vstd::prelude::*;
use vstd::set_lib::*;
use vstd::relations::injective_on;
use vstd::wrapping::u64_specs;

verus! {

/// The multiplier of the underlying linear congruential step.
pub const MULT: u64 = 6364136223846793005u64;

/// The increment of the underlying linear congruential step.
pub const INC: u64 = 1442695040888963407u64;

/// How many 64-bit draws one call of [`Prng::below`] examines at most.
///
/// This is the size of the generator's state space: by the pigeonhole
/// principle the draws of a rejection loop repeat within this many attempts,
/// so a loop that rejects this many draws in a row would reject forever
/// (see [`lemma_budget_exhaustion_is_permanent`]).
pub const DRAW_BUDGET: u128 = 0x1_0000_0000_0000_0000u128;

/// One step of the generator's state: `state * MULT + INC`, modulo 2^64.
pub open spec fn step_spec(s: u64) -> u64 {
    u64_specs::wrapping_add(u64_specs::wrapping_mul(s, MULT), INC)
}

/// Two steps of the generator's state (the cost of one 64-bit draw).
pub open spec fn step2_spec(s: u64) -> u64 {
    step_spec(step_spec(s))
}

/// Rotation of a 32-bit word to the right by `r` bits (`r` taken modulo 32).
pub open spec fn rotr32(x: u32, r: u32) -> u32 {
    let k = r % 32;
    if k == 0 {
        x
    } else {
        (x >> k) | (x << ((32 - k) as u32))
    }
}

/// The 32-bit output word for a generator sitting at state `s`
/// (PCG XSH-RR: xorshift high bits, then a random rotation).
pub open spec fn output_spec(s: u64) -> u32 {
    rotr32((((s >> 18u64) ^ s) >> 27u64) as u32, (s >> 59u64) as u32)
}

/// The 64-bit value drawn at state `s`: two output words, the first one high.
pub open spec fn draw_u64_spec(s: u64) -> u64 {
    ((output_spec(s) as u64) << 32u64) | (output_spec(step_spec(s)) as u64)
}

/// The generator state reached from seed `seed`.
pub open spec fn seeded_spec(seed: u64) -> u64 {
    step_spec(u64_specs::wrapping_add(INC, seed))
}

/// The state after `k` further 64-bit draws from `s`.
pub open spec fn skip_draws(s: u64, k: nat) -> u64
    decreases k,
{
    if k == 0 {
        s
    } else {
        skip_draws(step2_spec(s), (k - 1) as nat)
    }
}

/// Rejection threshold for a bound: the `2^64 % bound` lowest 64-bit values
/// are rejected, so the accepted values divide evenly among `0..bound`.
pub open spec fn threshold_spec(bound: u64) -> u64 {
    u64_specs::wrapping_sub(0, bound) % bound
}

/// Rejection sampling from state `s`, having already rejected `tries` draws:
/// the value returned by [`Prng::below`] and the state left behind.
pub open spec fn below_from(s: u64, bound: u64, tries: nat) -> (u64, u64)
    decreases DRAW_BUDGET - tries,
{
    let value = draw_u64_spec(s);
    if value >= threshold_spec(bound) || tries + 1 >= DRAW_BUDGET {
        ((value % bound) as u64, step2_spec(s))
    } else {
        below_from(step2_spec(s), bound, tries + 1)
    }
}

/// The value and the final state of [`Prng::below`] from state `s`.
#[verifier::opaque]
pub open spec fn below_spec(s: u64, bound: u64) -> (u64, u64) {
    below_from(s, bound, 0)
}

/// `s` with the elements at `i` and `j` exchanged.
pub open spec fn swap_spec<T>(s: Seq<T>, i: int, j: int) -> Seq<T> {
    s.update(i, s[j]).update(j, s[i])
}

/// The Fisher-Yates shuffle of `items` from state `s`, with the first `i`
/// positions still to be settled: the shuffled items and the final state.
pub open spec fn shuffle_from<T>(s: u64, items: Seq<T>, i: nat) -> (Seq<T>, u64)
    decreases i,
{
    if i <= 1 {
        (items, s)
    } else {
        let (j, s2) = below_spec(s, i as u64);
        shuffle_from(s2, swap_spec(items, i - 1, j as int), (i - 1) as nat)
    }
}

/// The result of [`Prng::shuffle`] on `items` from state `s`.
pub open spec fn shuffle_spec<T>(s: u64, items: Seq<T>) -> (Seq<T>, u64) {
    shuffle_from(s, items, items.len())
}

/// `<[T]>::swap` exchanges the elements at `a` and `b`, and panics when
/// either index is out of bounds (here excluded by `requires`).
pub assume_specification<SliceItem>[ <[SliceItem]>::swap ](s: &mut [SliceItem], a: usize, b: usize)
    requires
        a < old(s)@.len(),
        b < old(s)@.len(),
    ensures
        final(s)@ == swap_spec(old(s)@, a as int, b as int),
;

/// Mixed into a match seed to seed the chance sampler, so committed chance
/// outcomes do not correlate with a game's own in-state generator. Every
/// driver uses the same value, so a match resolved headlessly and one played
/// interactively deal the same chance outcomes for a given seed.
pub const CHANCE_SEED_OFFSET: u64 = 0x00C0_FFEEu64;

/// The seed of the chance sampler for a match seeded with `seed`.
pub fn chance_seed(seed: u64) -> (s: u64)
    ensures
        s == seed ^ CHANCE_SEED_OFFSET,
{
    seed ^ CHANCE_SEED_OFFSET
}

/// A small, deterministic pseudo-random generator that lives inside game state.
///
/// The whole reproducible position is a single `u64` ([`Prng::position`]), so
/// the generator is `Copy`, and an undo record can restore its position
/// exactly. Everything is integer-only with a fixed algorithm (PCG XSH-RR
/// 64/32, single stream), so a seed reproduces the same stream everywhere.
///
/// This is not cryptographically secure and must not be used for security.
#[derive(Clone, Copy, PartialEq, Eq, Hash, Debug)]
pub struct Prng {
    state: u64,
}

impl View for Prng {
    type V = u64;

    /// The generator's position in its stream.
    closed spec fn view(&self) -> u64 {
        self.state
    }
}

/// Rotates `x` right by `r` bits.
fn rotate_right_u32(x: u32, r: u32) -> (y: u32)
    requires
        r < 32,
    ensures
        y == rotr32(x, r),
{
    if r == 0 {
        x
    } else {
        (x >> r) | (x << (32 - r))
    }
}

impl Prng {
    /// Creates a generator seeded from `seed`.
    ///
    /// Equal seeds produce identical streams.
    pub fn new(seed: u64) -> (rng: Prng)
        ensures
            rng@ == seeded_spec(seed),
    {
        let mut rng = Prng { state: INC.wrapping_add(seed) };
        rng.step();
        rng
    }

    /// Returns the generator's current position in its stream.
    ///
    /// Capture this before a move and pass it to [`Prng::set_position`] to
    /// rewind.
    pub fn position(&self) -> (p: u64)
        ensures
            p == self@,
    {
        self.state
    }

    /// Restores a position previously read from [`Prng::position`].
    pub fn set_position(&mut self, position: u64)
        ensures
            final(self)@ == position,
    {
        self.state = position;
    }

    fn step(&mut self)
        ensures
            final(self)@ == step_spec(old(self)@),
    {
        self.state = self.state.wrapping_mul(MULT).wrapping_add(INC);
    }

    /// Returns the next 32-bit value and advances the stream by one step.
    pub fn next_u32(&mut self) -> (r: u32)
        ensures
            r == output_spec(old(self)@),
            final(self)@ == step_spec(old(self)@),
    {
        let old = self.state;
        self.step();
        let xorshifted = (((old >> 18u64) ^ old) >> 27u64) as u32;
        let rot = (old >> 59u64) as u32;
        assert(rot < 32) by (bit_vector)
            requires
                rot == (old >> 59u64) as u32,
        ;
        rotate_right_u32(xorshifted, rot)
    }

    /// Returns the next 64-bit value (two steps of the stream).
    pub fn next_u64(&mut self) -> (r: u64)
        ensures
            r == draw_u64_spec(old(self)@),
            final(self)@ == step2_spec(old(self)@),
    {
        let hi = self.next_u32() as u64;
        let lo = self.next_u32() as u64;
        (hi << 32u64) | lo
    }

    /// Returns a uniformly distributed value in `0..bound` by rejection
    /// sampling, so a single call consumes a variable number of steps.
    ///
    /// At most [`DRAW_BUDGET`] draws are examined; running out of them is
    /// possible only for a stream that would reject forever (see
    /// [`lemma_budget_exhaustion_is_permanent`]).
    pub fn below(&mut self, bound: u64) -> (r: u64)
        requires
            bound != 0,
        ensures
            (r, final(self)@) == below_spec(old(self)@, bound),
            r < bound,
    {
        let threshold = 0u64.wrapping_sub(bound) % bound;
        let mut tries: u128 = 0;
        proof {
            reveal(below_spec);
        }
        loop
            invariant
                bound != 0,
                threshold == threshold_spec(bound),
                tries < DRAW_BUDGET,
                below_from(self@, bound, tries as nat) == below_spec(old(self)@, bound),
            decreases DRAW_BUDGET - tries,
        {
            let value = self.next_u64();
            if value >= threshold || tries + 1 >= DRAW_BUDGET {
                return value % bound;
            }
            tries = tries + 1;
        }
    }

    /// Returns a uniformly distributed value in `low..high`.
    pub fn range(&mut self, low: u64, high: u64) -> (r: u64)
        requires
            low < high,
        ensures
            r == low + below_spec(old(self)@, (high - low) as u64).0,
            final(self)@ == below_spec(old(self)@, (high - low) as u64).1,
            low <= r < high,
    {
        low + self.below(high - low)
    }

    /// Returns a reference to a uniformly chosen element, or `None` if empty.
    pub fn choose_one<'a, T>(&mut self, items: &'a [T]) -> (r: Option<&'a T>)
        ensures
            items@.len() == 0 ==> r is None && final(self)@ == old(self)@,
            items@.len() > 0 ==> {
                let (i, s) = below_spec(old(self)@, items@.len() as u64);
                &&& r == Some(&items@[i as int])
                &&& final(self)@ == s
            },
    {
        if items.len() == 0 {
            None
        } else {
            let index = self.below(items.len() as u64) as usize;
            Some(&items[index])
        }
    }

    /// Shuffles `items` in place with an unbiased Fisher-Yates shuffle.
    pub fn shuffle<T>(&mut self, items: &mut [T])
        ensures
            (final(items)@, final(self)@) == shuffle_spec(old(self)@, old(items)@),
    {
        let mut i = items.len();
        while i > 1
            invariant
                i <= items@.len(),
                items@.len() == old(items)@.len(),
                shuffle_from(self@, items@, i as nat) == shuffle_spec(old(self)@, old(items)@),
            decreases i,
        {
            i -= 1;
            let j = self.below(i as u64 + 1) as usize;
            items.swap(i, j);
        }
    }
}

/// The values drawn from a generator depend on its position alone: two
/// generators at the same position produce the same next words, the same
/// bounded draws and the same shuffles, and land at the same position.
pub proof fn lemma_same_position_same_stream<T>(a: Prng, b: Prng, bound: u64, items: Seq<T>)
    requires
        a@ == b@,
    ensures
        output_spec(a@) == output_spec(b@),
        draw_u64_spec(a@) == draw_u64_spec(b@),
        below_spec(a@, bound) == below_spec(b@, bound),
        shuffle_spec(a@, items) == shuffle_spec(b@, items),
{
}

/// A generator is its position: two generators are equal exactly when they
/// stand at the same position.
pub proof fn lemma_generator_is_its_position(a: Prng, b: Prng)
    ensures
        a == b <==> a@ == b@,
{
}

/// Skipping `a + m` draws is skipping `a` draws and then `m` more.
proof fn lemma_skip_draws_add(s: u64, a: nat, m: nat)
    ensures
        skip_draws(s, a + m) == skip_draws(skip_draws(s, a), m),
    decreases a,
{
    if a > 0 {
        lemma_skip_draws_add(step2_spec(s), (a - 1) as nat, m);
        assert((a + m - 1) as nat == (a - 1) as nat + m);
    }
}

/// Pigeonhole: among the first `DRAW_BUDGET + 1` states of a draw sequence,
/// two coincide.
proof fn lemma_draw_states_repeat(s: u64) -> (ij: (nat, nat))
    ensures
        ij.0 < ij.1 <= DRAW_BUDGET,
        skip_draws(s, ij.0) == skip_draws(s, ij.1),
{
    let n: int = DRAW_BUDGET as int;
    let dom = set_int_range(0, n + 1);
    let f = |k: int| skip_draws(s, k as nat) as int;
    let all = set_int_range(0, n);
    lemma_int_range(0, n + 1);
    lemma_int_range(0, n);
    let img = dom.map(f);
    assert forall|v: int| img.contains(v) implies all.contains(v) by {
        let k = choose|k: int| dom.contains(k) && f(k) == v;
        assert(0 <= skip_draws(s, k as nat) < n);
    }
    if injective_on(f, dom) {
        lemma_map_size(dom, img, f);
        lemma_len_subset(img, all);
        assert(false);
    }
    let (x, y) = choose|x: int, y: int| dom.contains(x) && dom.contains(y) && x != y && f(x) == f(y);
    if x < y {
        (x as nat, y as nat)
    } else {
        (y as nat, x as nat)
    }
}

/// Once the state at draw `i` recurs at draw `j`, every later state is one of
/// the states at draws `i..j`.
proof fn lemma_skip_draws_periodic(s: u64, i: nat, j: nat, k: nat) -> (r: nat)
    requires
        i < j,
        skip_draws(s, i) == skip_draws(s, j),
        i <= k,
    ensures
        i <= r < j,
        skip_draws(s, k) == skip_draws(s, r),
    decreases k,
{
    if k < j {
        k
    } else {
        let rest = (k - j) as nat;
        lemma_skip_draws_add(s, j, rest);
        lemma_skip_draws_add(s, i, rest);
        assert(j + rest == k);
        lemma_skip_draws_periodic(s, i, j, i + rest)
    }
}

/// Exhausting the draw budget is permanent: if every draw within
/// [`DRAW_BUDGET`] is rejected, every later draw is rejected as well, so the
/// budget runs out only where unbounded rejection sampling would never return.
pub proof fn lemma_budget_exhaustion_is_permanent(s: u64, bound: u64, k: nat)
    requires
        bound != 0,
        forall|t: nat| t < DRAW_BUDGET ==> draw_u64_spec(#[trigger] skip_draws(s, t)) < threshold_spec(bound),
    ensures
        draw_u64_spec(skip_draws(s, k)) < threshold_spec(bound),
{
    if k >= DRAW_BUDGET {
        let (i, j) = lemma_draw_states_repeat(s);
        let r = lemma_skip_draws_periodic(s, i, j, k);
        assert(r < DRAW_BUDGET);
        assert(draw_u64_spec(skip_draws(s, r)) < threshold_spec(bound));
    }
}

/// Helper for [`lemma_below_is_first_accepted`], from draw `u` onwards.
proof fn lemma_below_from_first_accepted(s: u64, bound: u64, t: nat, u: nat)
    requires
        u <= t < DRAW_BUDGET,
        draw_u64_spec(skip_draws(s, t)) >= threshold_spec(bound),
        forall|v: nat| v < t ==> draw_u64_spec(#[trigger] skip_draws(s, v)) < threshold_spec(bound),
    ensures
        below_from(skip_draws(s, u), bound, u) == (
            (draw_u64_spec(skip_draws(s, t)) % bound) as u64,
            skip_draws(s, t + 1),
        ),
    decreases t - u,
{
    lemma_skip_draws_add(s, u, 1);
    assert(skip_draws(skip_draws(s, u), 1) == step2_spec(skip_draws(s, u))) by {
        reveal_with_fuel(skip_draws, 2);
    }
    if u < t {
        lemma_below_from_first_accepted(s, bound, t, u + 1);
    }
}

/// [`Prng::below`] is rejection sampling: it returns the first accepted draw
/// (at or above [`threshold_spec`]) reduced modulo `bound`, and leaves the
/// generator just after that draw.
pub proof fn lemma_below_is_first_accepted(s: u64, bound: u64, t: nat)
    requires
        t < DRAW_BUDGET,
        draw_u64_spec(skip_draws(s, t)) >= threshold_spec(bound),
        forall|v: nat| v < t ==> draw_u64_spec(#[trigger] skip_draws(s, v)) < threshold_spec(bound),
    ensures
        below_spec(s, bound) == (
            (draw_u64_spec(skip_draws(s, t)) % bound) as u64,
            skip_draws(s, t + 1),
        ),
{
    reveal(below_spec);
    lemma_below_from_first_accepted(s, bound, t, 0);
}

/// Every value [`Prng::below`] produces lies in `0..bound`.
proof fn lemma_below_from_in_range(s: u64, bound: u64, tries: nat)
    requires
        bound != 0,
    ensures
        below_from(s, bound, tries).0 < bound,
    decreases DRAW_BUDGET - tries,
{
    let value = draw_u64_spec(s);
    if !(value >= threshold_spec(bound) || tries + 1 >= DRAW_BUDGET) {
        lemma_below_from_in_range(step2_spec(s), bound, tries + 1);
    }
}

/// A bounded draw always lies in `0..bound`.
pub proof fn lemma_below_in_range(s: u64, bound: u64)
    requires
        bound != 0,
    ensures
        below_spec(s, bound).0 < bound,
{
    reveal(below_spec);
    lemma_below_from_in_range(s, bound, 0);
}

/// Overwriting position `i` with `v` trades one `s[i]` for one `v`.
proof fn lemma_update_to_multiset<T>(s: Seq<T>, i: int, v: T)
    requires
        0 <= i < s.len(),
    ensures
        s.update(i, v).to_multiset() =~= s.to_multiset().remove(s[i]).insert(v),
{
    broadcast use vstd::seq_lib::group_to_multiset_ensures;

    let u = s.update(i, v);
    assert(u.remove(i) =~= s.remove(i));
    assert(u.contains(v)) by {
        assert(u[i] == v);
    }
    assert(u.to_multiset().count(v) > 0);
    assert(u.to_multiset() =~= u.to_multiset().remove(v).insert(v));
}

/// Exchanging two elements keeps the same items.
pub proof fn lemma_swap_to_multiset<T>(s: Seq<T>, i: int, j: int)
    requires
        0 <= i < s.len(),
        0 <= j < s.len(),
    ensures
        swap_spec(s, i, j).to_multiset() =~= s.to_multiset(),
        swap_spec(s, i, j).len() == s.len(),
{
    broadcast use vstd::seq_lib::group_to_multiset_ensures;

    let s1 = s.update(i, s[j]);
    lemma_update_to_multiset(s, i, s[j]);
    lemma_update_to_multiset(s1, j, s[i]);
    assert(s1[j] == s[j]);
    assert(s.contains(s[i]));
    assert(s.to_multiset().count(s[i]) > 0);
}

/// Helper for [`lemma_shuffle_permutes`], from `i` unsettled positions.
#[verifier::spinoff_prover]
proof fn lemma_shuffle_from_permutes<T>(s: u64, items: Seq<T>, i: nat)
    requires
        i <= items.len(),
        items.len() <= u64::MAX,
    ensures
        shuffle_from(s, items, i).0.to_multiset() =~= items.to_multiset(),
        shuffle_from(s, items, i).0.len() == items.len(),
    decreases i,
{
    if i > 1 {
        let drawn = below_spec(s, i as u64);
        let j = drawn.0;
        let s2 = drawn.1;
        let next = swap_spec(items, i - 1, j as int);
        assert(shuffle_from(s, items, i) == shuffle_from(s2, next, (i - 1) as nat));
        lemma_below_in_range(s, i as u64);
        lemma_swap_to_multiset(items, i - 1, j as int);
        lemma_shuffle_from_permutes(s2, next, (i - 1) as nat);
        assert(next.to_multiset() == items.to_multiset());
    }
}

/// Shuffling is a permutation: the shuffled sequence holds exactly the items
/// it started with, each as many times. (`items` is as long as a sequence
/// held in memory can be.)
pub proof fn lemma_shuffle_permutes<T>(s: u64, items: Seq<T>)
    requires
        items.len() <= usize::MAX,
    ensures
        shuffle_spec(s, items).0.to_multiset() =~= items.to_multiset(),
        shuffle_spec(s, items).0.len() == items.len(),
{
    lemma_shuffle_from_permutes(s, items, items.len());
}

} // verus!
