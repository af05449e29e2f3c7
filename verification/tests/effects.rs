use turnbase::{resolve_effects, EffectSystem, MAX_EFFECTS};

/// Knocking domino `i` knocks `i + 1`: a one-at-a-time cascade.
struct Dominoes;

impl EffectSystem for Dominoes {
    type State = Vec<bool>;
    type Effect = usize;

    fn apply(&self, state: &mut Self::State, effect: &Self::Effect) {
        state[*effect] = true;
    }

    fn react(&self, state: &mut Self::State, effect: &Self::Effect) -> Vec<Self::Effect> {
        let next = *effect + 1;
        if next < state.len() && !state[next] {
            vec![next]
        } else {
            Vec::new()
        }
    }
}

struct Forever;

impl EffectSystem for Forever {
    type State = u32;
    type Effect = ();
    fn apply(&self, state: &mut u32, _effect: &()) {
        *state += 1;
    }
    fn react(&self, _state: &mut u32, _effect: &()) -> Vec<()> {
        vec![()]
    }
}

/// Each effect records itself and triggers two follow-ups until depth 2,
/// so the resolution order shows whether the queue is first-in first-out.
struct Tree;

impl EffectSystem for Tree {
    type State = Vec<u32>;
    type Effect = u32;
    fn apply(&self, state: &mut Vec<u32>, effect: &u32) {
        state.push(*effect);
    }
    fn react(&self, _state: &mut Vec<u32>, effect: &u32) -> Vec<u32> {
        if *effect < 10 {
            vec![effect * 10 + 1, effect * 10 + 2]
        } else {
            Vec::new()
        }
    }
}

#[test]
fn cascade_resolves_in_order() {
    let mut state = vec![false; 5];
    let steps = resolve_effects(&Dominoes, &mut state, vec![0]);
    assert!(state.iter().all(|&knocked| knocked));
    assert_eq!(steps, 5);
}

#[test]
fn nonterminating_triggers_are_capped() {
    let mut count = 0;
    let steps = resolve_effects(&Forever, &mut count, vec![()]);
    assert_eq!(steps, MAX_EFFECTS);
    assert_eq!(count as usize, MAX_EFFECTS);
}

#[test]
fn follow_ups_resolve_breadth_first() {
    let mut order = Vec::new();
    let steps = resolve_effects(&Tree, &mut order, vec![1, 2]);
    assert_eq!(order, vec![1, 2, 11, 12, 21, 22]);
    assert_eq!(steps, 6);
}

#[test]
fn nothing_to_resolve_changes_nothing() {
    let mut state = vec![false; 3];
    assert_eq!(resolve_effects(&Dominoes, &mut state, Vec::new()), 0);
    assert_eq!(state, vec![false; 3]);
}
