use turnbase::{PlayerId, State};

#[test]
fn private_zones_are_per_player() {
    let mut state: State<u32, &str> = State::new(0, 1);
    state.insert_private(PlayerId::new(0), "a");
    state.insert_private(PlayerId::new(1), "b");
    assert_eq!(state.private(PlayerId::new(0)), Some(&"a"));
    assert_eq!(state.private(PlayerId::new(1)), Some(&"b"));
    assert_eq!(state.private(PlayerId::new(2)), None);
}

#[test]
fn view_for_shows_only_the_viewers_private_zone() {
    let mut state: State<u32, &str> = State::new(7, 1);
    state.insert_private(PlayerId::new(0), "secret0");
    state.insert_private(PlayerId::new(1), "secret1");

    let view = state.view_for(Some(PlayerId::new(0)));
    assert_eq!(view.public, 7);
    assert_eq!(view.own_private, Some("secret0"));

    let spectator = state.view_for(None);
    assert_eq!(spectator.public, 7);
    assert_eq!(spectator.own_private, None);
}

#[test]
fn remove_private_undoes_a_deal() {
    let mut state: State<(), u8> = State::new((), 0);
    state.insert_private(PlayerId::new(0), 7);
    assert_eq!(state.remove_private(PlayerId::new(0)), Some(7));
    assert_eq!(state.private(PlayerId::new(0)), None);
    assert_eq!(state.remove_private(PlayerId::new(0)), None);
}

#[test]
fn insert_private_returns_the_previous_zone() {
    let mut state: State<(), u8> = State::new((), 0);
    assert_eq!(state.insert_private(PlayerId::new(3), 1), None);
    assert_eq!(state.insert_private(PlayerId::new(3), 2), Some(1));
    assert_eq!(state.private(PlayerId::new(3)), Some(&2));
}

#[test]
fn mutable_accessors_write_through() {
    let mut state: State<u32, u32> = State::new(1, 5);
    *state.public_mut() += 4;
    assert_eq!(*state.public(), 5);
    state.insert_private(PlayerId::new(0), 10);
    if let Some(zone) = state.private_mut(PlayerId::new(0)) {
        *zone += 1;
    }
    assert_eq!(state.private(PlayerId::new(0)), Some(&11));
    assert!(state.private_mut(PlayerId::new(1)).is_none());
    let mark = state.rng().position();
    state.rng_mut().next_u64();
    assert_ne!(state.rng().position(), mark);
    assert_eq!(*state.rng(), {
        let mut g = turnbase::Prng::new(5);
        g.next_u64();
        g
    });
}

#[test]
fn view_for_a_seat_without_a_zone_sees_public_only() {
    let state: State<u32, u32> = State::new(3, 1);
    let view = state.view_for(Some(PlayerId::new(4)));
    assert_eq!(view.public, 3);
    assert_eq!(view.own_private, None);
}

#[test]
fn a_draw_through_the_generator_touches_only_the_generator() {
    let mut a: State<u32, u8> = State::new(5, 42);
    a.insert_private(PlayerId::new(1), 9);
    let mut b = a.clone();
    let before = a.rng().position();
    let x = a.rng_mut().range(1, 7);
    let y = b.rng_mut().range(1, 7);
    assert_eq!(x, y);
    assert_ne!(a.rng().position(), before);
    assert_eq!(*a.public(), 5);
    assert_eq!(a.private(PlayerId::new(1)), Some(&9));
    assert_eq!(a, b);
}
