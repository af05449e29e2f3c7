//! A two-seat roll game built on `State`: each move "rolls" 1..=6 from the
//! state's own generator into a shared total, consuming a variable number of
//! draws, with a make/unmake undo record that snapshots the generator.
use turnbase::{PlayerId, State};

type RollState = State<u32, u32>;

struct Undo {
    prev_total: u32,
    prev_position: u64,
}

fn new_initial_state(seed: u64) -> RollState {
    State::new(0, seed)
}

fn apply(state: &mut RollState) {
    let roll = state.rng_mut().range(1, 7);
    *state.public_mut() += u32::try_from(roll).unwrap();
}

fn apply_undoable(state: &mut RollState) -> Undo {
    let record = Undo {
        prev_total: *state.public(),
        prev_position: state.rng().position(),
    };
    apply(state);
    record
}

fn undo(state: &mut RollState, record: Undo) {
    *state.public_mut() = record.prev_total;
    state.rng_mut().set_position(record.prev_position);
}

fn play(seed: u64, moves: usize) -> RollState {
    let mut state = new_initial_state(seed);
    for _ in 0..moves {
        apply(&mut state);
    }
    state
}

#[test]
fn reversible_round_trip_restores_state_and_rng() {
    let mut state = new_initial_state(42);
    let before = state.clone();

    let record = apply_undoable(&mut state);
    assert_ne!(state, before);
    undo(&mut state, record);
    assert_eq!(state, before, "undo restores total and generator position");
}

#[test]
fn undo_then_reapply_reproduces_the_same_draw() {
    let mut state = new_initial_state(42);

    let first = {
        let r = apply_undoable(&mut state);
        let total = *state.public();
        undo(&mut state, r);
        total
    };
    apply(&mut state);
    assert_eq!(*state.public(), first);
}

#[test]
fn replay_from_seed_is_deterministic() {
    assert_eq!(play(99, 20), play(99, 20));
}

#[test]
fn the_active_seat_alternates_with_the_total() {
    let state = play(5, 1);
    let seat = PlayerId::new(*state.public() % 2);
    assert!(seat.index() < 2);
    assert!((1..=6).contains(state.public()));
}

/// A snapshot of a state as JSON: its public zone, its private zones by seat
/// index, and its generator position.
fn snapshot(state: &RollState) -> String {
    let (public, zones, prng) = state.clone().into_parts();
    let zones: Vec<(u32, u32)> = zones.into_iter().map(|(seat, zone)| (seat.index(), zone)).collect();
    serde_json::to_string(&(public, zones, prng.position())).unwrap()
}

/// The state a snapshot was taken of.
fn resume(json: &str) -> RollState {
    let (public, zones, position): (u32, Vec<(u32, u32)>, u64) = serde_json::from_str(json).unwrap();
    let mut prng = turnbase::Prng::new(0);
    prng.set_position(position);
    let zones = zones.into_iter().map(|(seat, zone)| (PlayerId::new(seat), zone)).collect();
    State::from_parts(public, zones, prng)
}

#[test]
fn prng_position_survives_the_round_trip() {
    let state = play(1, 4);
    let back = resume(&snapshot(&state));
    assert_eq!(state, back);
    assert_eq!(state.rng().position(), back.rng().position());
}

#[test]
fn resumed_state_continues_identically() {
    let mut first = play(42, 3);
    let mut resumed = resume(&snapshot(&first));
    for _ in 0..5 {
        apply(&mut first);
        apply(&mut resumed);
    }
    assert_eq!(first, resumed, "resumed rolls match, so the generator was snapshotted");
}

#[test]
fn resume_from_snapshot_equals_straight_through() {
    let straight = play(7, 8);
    let mut resumed = resume(&snapshot(&play(7, 3)));
    for _ in 0..5 {
        apply(&mut resumed);
    }
    assert_eq!(resumed, straight, "no replay from turn 1 needed to resume");
}

#[test]
fn private_zones_survive_the_round_trip() {
    let mut state: RollState = State::new(5, 1);
    state.insert_private(PlayerId::new(0), 10);
    state.insert_private(PlayerId::new(1), 20);
    let back = resume(&snapshot(&state));
    assert_eq!(state, back);
    assert_eq!(back.private(PlayerId::new(1)), Some(&20));
}
