use turnbase::{ActivePlayers, PlayerId};

#[test]
fn none_is_empty() {
    let a = ActivePlayers::none();
    assert!(a.is_empty());
    assert_eq!(a.len(), 0);
}

#[test]
fn one_contains_only_that_player() {
    let a = ActivePlayers::one(PlayerId::new(2));
    assert_eq!(a.len(), 1);
    assert!(a.contains(PlayerId::new(2)));
    assert!(!a.contains(PlayerId::new(0)));
}

#[test]
fn all_covers_the_range_excluding_chance() {
    let a = ActivePlayers::all(3);
    assert_eq!(a.len(), 3);
    assert!(a.contains(PlayerId::new(0)));
    assert!(a.contains(PlayerId::new(2)));
    assert!(!a.contains(PlayerId::chance()));
}

#[test]
fn iteration_is_ascending_and_deduplicated() {
    let a = ActivePlayers::from_players(vec![PlayerId::new(2), PlayerId::new(0), PlayerId::new(2)]);
    let order: Vec<u32> = a.iter().into_iter().map(PlayerId::index).collect();
    assert_eq!(order, vec![0, 2]);
}

#[test]
fn all_of_zero_is_empty_and_one_lists_itself() {
    assert!(ActivePlayers::all(0).is_empty());
    assert_eq!(ActivePlayers::one(PlayerId::chance()).iter(), vec![PlayerId::chance()]);
    assert!(!ActivePlayers::one(PlayerId::new(1)).is_empty());
}

#[test]
fn iteration_of_all_counts_up() {
    let order: Vec<u32> = ActivePlayers::all(4).iter().into_iter().map(PlayerId::index).collect();
    assert_eq!(order, vec![0, 1, 2, 3]);
}
