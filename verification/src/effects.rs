//! Triggered effects: an ordered effect queue.
//!
//! A game whose moves resolve as a queue of effects, where applying one effect
//! can trigger more, implements [`EffectSystem`] and drives resolution with
//! [`resolve_effects`]. Effects are always appended and resolved in FIFO order,
//! never invoked inline.
use std::collections::VecDeque;
use vstd::prelude::*;

verus! {

/// Upper bound on effects resolved by one [`resolve_effects`] call, a guard
/// against a game whose triggers never terminate.
pub const MAX_EFFECTS: usize = 100000usize;

/// A game that resolves effects through a queue.
///
/// The game's move logic builds the initial effects of a move and calls
/// [`resolve_effects`]; the queue does the rest. An implementation describes
/// its two steps by [`EffectSystem::apply_spec`] and
/// [`EffectSystem::react_spec`], which its methods follow.
pub trait EffectSystem {
    /// The state effects mutate.
    type State;
    /// One atomic effect (a game-defined enum).
    type Effect;

    /// The state after `effect`'s direct consequence.
    ///
    /// A verified implementation defines it; the provided default is left
    /// unspecified, so [`EffectSystem::apply`] cannot be proved against it.
    open spec fn apply_spec(&self, state: Self::State, effect: Self::Effect) -> Self::State {
        vstd::pervasive::arbitrary()
    }

    /// The state after the state-based actions that follow `effect`, and the
    /// follow-up effects they trigger, in order.
    ///
    /// A verified implementation defines it; the provided default is left
    /// unspecified, so [`EffectSystem::react`] cannot be proved against it.
    open spec fn react_spec(&self, state: Self::State, effect: Self::Effect) -> (Self::State, Seq<Self::Effect>) {
        vstd::pervasive::arbitrary()
    }

    /// Applies one effect's direct consequence to state.
    fn apply(&self, state: &mut Self::State, effect: &Self::Effect)
        ensures
            *final(state) == self.apply_spec(*old(state), *effect),
    ;

    /// After `effect` is applied, performs state-based actions (deaths,
    /// removals) and returns the follow-up effects they trigger, in
    /// deterministic order. Returned effects are appended to the queue and
    /// resolved later, never inline.
    fn react(&self, state: &mut Self::State, effect: &Self::Effect) -> (follow_ups: Vec<Self::Effect>)
        ensures
            (*final(state), follow_ups@) == self.react_spec(*old(state), *effect),
    ;
}

/// Resolution of the FIFO `queue` from `state`, with `resolved` effects
/// already resolved: the final state and the total number resolved.
///
/// The first effect of the queue is applied, its reaction runs, its follow-ups
/// join the back of the queue; resolution stops when the queue is empty or
/// [`MAX_EFFECTS`] effects have been resolved.
pub open spec fn resolve_from<S: EffectSystem>(
    system: S,
    state: S::State,
    queue: Seq<S::Effect>,
    resolved: nat,
) -> (S::State, nat)
    decreases MAX_EFFECTS - resolved,
{
    if queue.len() == 0 || resolved >= MAX_EFFECTS {
        (state, resolved)
    } else {
        let effect = queue[0];
        let applied = system.apply_spec(state, effect);
        let (reacted, follow_ups) = system.react_spec(applied, effect);
        resolve_from(system, reacted, queue.drop_first() + follow_ups, resolved + 1)
    }
}

/// The final state and count of [`resolve_effects`] from `state` and `initial`.
pub open spec fn resolve_spec<S: EffectSystem>(system: S, state: S::State, initial: Seq<S::Effect>) -> (
    S::State,
    nat,
) {
    resolve_from(system, state, initial, 0)
}

/// Resolution never counts past [`MAX_EFFECTS`].
pub proof fn lemma_resolve_from_bounded<S: EffectSystem>(
    system: S,
    state: S::State,
    queue: Seq<S::Effect>,
    resolved: nat,
)
    requires
        resolved <= MAX_EFFECTS,
    ensures
        resolved <= resolve_from(system, state, queue, resolved).1 <= MAX_EFFECTS,
    decreases MAX_EFFECTS - resolved,
{
    if queue.len() > 0 && resolved < MAX_EFFECTS {
        let effect = queue[0];
        let applied = system.apply_spec(state, effect);
        let (reacted, follow_ups) = system.react_spec(applied, effect);
        lemma_resolve_from_bounded(system, reacted, queue.drop_first() + follow_ups, resolved + 1);
    }
}

/// Each resolution step applies the effect at the head of the queue and then
/// runs the reaction on the state that application left: resolution goes on
/// from the reacted state, with the reaction's follow-ups behind the rest of
/// the queue and one more effect counted.
pub proof fn lemma_react_sees_the_applied_state<S: EffectSystem>(
    system: S,
    state: S::State,
    queue: Seq<S::Effect>,
    resolved: nat,
)
    requires
        queue.len() > 0,
        resolved < MAX_EFFECTS,
    ensures
        ({
            let after = system.react_spec(system.apply_spec(state, queue[0]), queue[0]);
            resolve_from(system, state, queue, resolved) == resolve_from(
                system,
                after.0,
                queue.drop_first() + after.1,
                resolved + 1,
            )
        }),
{
}

/// A single effect whose reaction triggers nothing resolves to the reaction
/// of the applied state, and counts as one effect resolved.
pub proof fn lemma_single_effect<S: EffectSystem>(system: S, state: S::State, effect: S::Effect)
    requires
        system.react_spec(system.apply_spec(state, effect), effect).1.len() == 0,
    ensures
        resolve_spec(system, state, seq![effect]) == (system.react_spec(
            system.apply_spec(state, effect),
            effect,
        ).0, 1nat),
{
    let after = system.react_spec(system.apply_spec(state, effect), effect);
    assert(seq![effect][0] == effect);
    lemma_react_sees_the_applied_state(system, state, seq![effect], 0);
    assert(seq![effect].drop_first() + after.1 =~= Seq::<S::Effect>::empty());
    assert(resolve_from(system, after.0, Seq::<S::Effect>::empty(), 1) == (after.0, 1nat));
}

/// Two effects whose reactions trigger nothing resolve in order: the second
/// is applied to the state the first one's reaction left, and each reaction
/// runs on the state its own effect's application left.
pub proof fn lemma_two_effects_in_order<S: EffectSystem>(
    system: S,
    state: S::State,
    first: S::Effect,
    second: S::Effect,
)
    requires
        system.react_spec(system.apply_spec(state, first), first).1.len() == 0,
        system.react_spec(
            system.apply_spec(system.react_spec(system.apply_spec(state, first), first).0, second),
            second,
        ).1.len() == 0,
    ensures
        ({
            let mid = system.react_spec(system.apply_spec(state, first), first).0;
            resolve_spec(system, state, seq![first, second]) == (system.react_spec(
                system.apply_spec(mid, second),
                second,
            ).0, 2nat)
        }),
{
    let after1 = system.react_spec(system.apply_spec(state, first), first);
    let after2 = system.react_spec(system.apply_spec(after1.0, second), second);
    let q0 = seq![first, second];
    let q1 = q0.drop_first() + after1.1;
    assert(q0[0] == first);
    lemma_react_sees_the_applied_state(system, state, q0, 0);
    assert(q1 =~= seq![second]);
    assert(q1[0] == second);
    lemma_react_sees_the_applied_state(system, after1.0, q1, 1);
    assert(q1.drop_first() + after2.1 =~= Seq::<S::Effect>::empty());
    assert(resolve_from(system, after2.0, Seq::<S::Effect>::empty(), 2) == (after2.0, 2nat));
}

/// Resolving nothing changes nothing: an empty initial queue leaves the
/// state as it was and resolves zero effects.
pub proof fn lemma_resolve_nothing<S: EffectSystem>(system: S, state: S::State)
    ensures
        resolve_spec(system, state, Seq::<S::Effect>::empty()) == (state, 0nat),
{
}

/// The effects resolution applies, in order, and the follow-ups their
/// reactions return, in order, when resolving `queue` from `state` with
/// `resolved` effects already resolved.
pub open spec fn resolve_trace<S: EffectSystem>(
    system: S,
    state: S::State,
    queue: Seq<S::Effect>,
    resolved: nat,
) -> (Seq<S::Effect>, Seq<S::Effect>)
    decreases MAX_EFFECTS - resolved,
{
    if queue.len() == 0 || resolved >= MAX_EFFECTS {
        (Seq::empty(), Seq::empty())
    } else {
        let effect = queue[0];
        let applied = system.apply_spec(state, effect);
        let (reacted, follow_ups) = system.react_spec(applied, effect);
        let (rest, produced) = resolve_trace(system, reacted, queue.drop_first() + follow_ups, resolved + 1);
        (seq![effect] + rest, follow_ups + produced)
    }
}

/// Resolution from any point walks the queue followed by every follow-up
/// in the order they are produced, and stops only at the cap.
proof fn lemma_trace_walks_the_queue<S: EffectSystem>(
    system: S,
    state: S::State,
    queue: Seq<S::Effect>,
    resolved: nat,
)
    requires
        resolved <= MAX_EFFECTS,
    ensures
        ({
            let (applied, produced) = resolve_trace(system, state, queue, resolved);
            &&& applied.len() <= (queue + produced).len()
            &&& applied == (queue + produced).take(applied.len() as int)
            &&& resolved + applied.len() == resolve_from(system, state, queue, resolved).1
            &&& resolved + applied.len() < MAX_EFFECTS ==> applied.len() == (queue + produced).len()
        }),
    decreases MAX_EFFECTS - resolved,
{
    if queue.len() > 0 && resolved < MAX_EFFECTS {
        let effect = queue[0];
        let applied_state = system.apply_spec(state, effect);
        let (reacted, follow_ups) = system.react_spec(applied_state, effect);
        let next = queue.drop_first() + follow_ups;
        lemma_trace_walks_the_queue(system, reacted, next, resolved + 1);
        let (rest, produced) = resolve_trace(system, reacted, next, resolved + 1);
        let all = follow_ups + produced;
        assert(queue + all =~= seq![effect] + (next + produced));
        assert((queue + all).len() == 1 + (next + produced).len());
        assert forall|i: int| 0 <= i < rest.len() + 1 implies (seq![effect] + rest)[i] == (queue
            + all)[i] by {
            if i > 0 {
                assert(rest[i - 1] == (next + produced)[i - 1]);
            }
        }
        assert((seq![effect] + rest) =~= (queue + all).take(rest.len() + 1int));
    } else if queue.len() == 0 {
        let (applied, produced) = resolve_trace(system, state, queue, resolved);
        assert(queue + produced =~= Seq::<S::Effect>::empty());
        assert(applied =~= Seq::<S::Effect>::empty());
    }
}

/// Effects resolve in first-in, first-out order over one flattened queue:
/// the initial effects followed by each applied effect's follow-ups, in the
/// order they were returned. Resolution applies a prefix of that queue, as
/// many effects as it reports, and it stops short of the queue's end only
/// when [`MAX_EFFECTS`] effects have been resolved.
pub proof fn lemma_resolution_is_fifo<S: EffectSystem>(system: S, state: S::State, initial: Seq<S::Effect>)
    ensures
        ({
            let (applied, produced) = resolve_trace(system, state, initial, 0);
            let flattened = initial + produced;
            &&& applied == flattened.take(applied.len() as int)
            &&& applied.len() == resolve_spec(system, state, initial).1
            &&& applied.len() == if flattened.len() < MAX_EFFECTS {
                flattened.len()
            } else {
                MAX_EFFECTS as nat
            }
        }),
{
    lemma_trace_walks_the_queue(system, state, initial, 0);
    lemma_resolve_from_bounded(system, state, initial, 0);
}

/// Resolves `initial` and everything it triggers, applying each effect then
/// enqueuing its follow-ups, in FIFO order.
///
/// Returns the number of effects resolved. Stops at [`MAX_EFFECTS`] to bound a
/// non-terminating trigger loop (a game bug).
pub fn resolve_effects<S: EffectSystem>(
    system: &S,
    state: &mut S::State,
    initial: Vec<S::Effect>,
) -> (resolved: usize)
    ensures
        (*final(state), resolved as nat) == resolve_spec(*system, *old(state), initial@),
        resolved <= MAX_EFFECTS,
{
    let mut queue: VecDeque<S::Effect> = VecDeque::new();
    for effect in it: initial
        invariant
            queue@ == it.seq().take(it.index()),
            it.seq() == initial@,
    {
        queue.push_back(effect);
        proof {
            assert(it.seq().take(it.index() + 1) =~= it.seq().take(it.index()).push(effect));
        }
    }
    assert(queue@ =~= initial@);
    proof {
        lemma_resolve_from_bounded(*system, *state, queue@, 0);
    }
    let mut resolved: usize = 0;
    loop
        invariant_except_break
            resolved < MAX_EFFECTS,
        invariant
            resolved <= MAX_EFFECTS,
            resolve_from(*system, *state, queue@, resolved as nat) == resolve_spec(
                *system,
                *old(state),
                initial@,
            ),
        ensures
            resolved <= MAX_EFFECTS,
            (*state, resolved as nat) == resolve_spec(*system, *old(state), initial@),
        decreases MAX_EFFECTS - resolved,
    {
        let ghost q0 = queue@;
        let ghost s0 = *state;
        let effect = match queue.pop_front() {
            Some(effect) => effect,
            None => {
                break;
            },
        };
        system.apply(state, &effect);
        let follow_ups = system.react(state, &effect);
        let ghost before = queue@;
        let ghost added = follow_ups@;
        assert(resolve_from(*system, *state, before + added, resolved as nat + 1) == resolve_from(
            *system,
            s0,
            q0,
            resolved as nat,
        ));
        for next in jt: follow_ups
            invariant
                jt.seq() == added,
                queue@ == before + jt.seq().take(jt.index()),
        {
            queue.push_back(next);
            proof {
                assert(jt.seq().take(jt.index() + 1) =~= jt.seq().take(jt.index()).push(next));
            }
        }
        assert(queue@ =~= before + added);
        resolved = resolved + 1;
        if resolved >= MAX_EFFECTS {
            break;
        }
    }
    resolved
}

} // verus!
