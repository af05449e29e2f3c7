use std::collections::BTreeSet;

use turnbase::{
    awaiting_human, check_action, count_humans, index_kind, kind_index, lowest_seat, viewer_for,
    ActivePlayers, Error, PlayerId, SeatKind,
};

#[test]
fn kind_index_and_index_kind_are_inverse() {
    assert_eq!(kind_index(SeatKind::Human), 0);
    assert_eq!(kind_index(SeatKind::Ai(2)), 3);
    assert_eq!(index_kind(0), SeatKind::Human);
    assert_eq!(index_kind(1), SeatKind::Ai(0));
    for i in 0..10 {
        assert_eq!(kind_index(index_kind(i)), i);
    }
}

#[test]
fn count_humans_counts_only_humans() {
    assert_eq!(count_humans(&[]), 0);
    assert_eq!(count_humans(&[SeatKind::Ai(0), SeatKind::Human, SeatKind::Human]), 2);
}

#[test]
fn viewer_follows_seat_config() {
    let p1 = Some(PlayerId::new(1));
    assert_eq!(viewer_for(&[SeatKind::Ai(0), SeatKind::Human], p1), p1);
    assert_eq!(viewer_for(&[SeatKind::Human, SeatKind::Human], Some(PlayerId::new(0))), None);
    assert_eq!(viewer_for(&[SeatKind::Ai(0), SeatKind::Ai(1)], None), None);
}

#[test]
fn awaiting_human_picks_the_first_active_seat_without_a_bot() {
    let active = ActivePlayers::all(3);
    let mut bots = BTreeSet::new();
    bots.insert(0);
    assert_eq!(awaiting_human(&active, &bots), Some(PlayerId::new(1)));
    bots.insert(1);
    bots.insert(2);
    assert_eq!(awaiting_human(&active, &bots), None);
    assert_eq!(awaiting_human(&ActivePlayers::none(), &BTreeSet::new()), None);
}

#[test]
fn primary_human_picks_the_lowest_seat() {
    assert_eq!(lowest_seat(&[PlayerId::new(3), PlayerId::new(1), PlayerId::new(2)]), Some(PlayerId::new(1)));
    assert_eq!(lowest_seat(&[]), None);
}

#[test]
fn check_action_reports_inactive_before_illegal() {
    let active = ActivePlayers::one(PlayerId::new(0));
    assert_eq!(
        check_action(&active, PlayerId::new(1), false),
        Err(Error::NotActive { player: PlayerId::new(1) })
    );
    assert_eq!(
        check_action(&active, PlayerId::new(0), false),
        Err(Error::IllegalAction { player: PlayerId::new(0) })
    );
    assert_eq!(check_action(&active, PlayerId::new(0), true), Ok(()));
}

#[test]
fn display_mentions_the_player() {
    let e = Error::IllegalAction {
        player: PlayerId::new(1),
    };
    assert_eq!(e.to_string(), "illegal action for p1");
    assert_eq!(Error::NotActive { player: PlayerId::chance() }.to_string(), "chance is not active");
}

#[test]
fn bot_to_move_is_the_lowest_active_seat_when_a_bot_drives_it() {
    let bots: BTreeSet<u32> = [1u32, 2].into_iter().collect();
    let both = ActivePlayers::from_players(vec![PlayerId::new(2), PlayerId::new(1)]);
    assert_eq!(turnbase::bot_to_move(false, &both, &bots), Some(PlayerId::new(1)));
    assert_eq!(turnbase::bot_to_move(true, &both, &bots), None);
    let human_first = ActivePlayers::from_players(vec![PlayerId::new(0), PlayerId::new(1)]);
    assert_eq!(turnbase::bot_to_move(false, &human_first, &bots), None);
    assert_eq!(turnbase::bot_to_move(false, &ActivePlayers::none(), &bots), None);
}

#[test]
fn first_human_is_the_lowest_human_seat() {
    assert_eq!(turnbase::first_human(&[SeatKind::Ai(0), SeatKind::Human, SeatKind::Human]), Some(PlayerId::new(1)));
    assert_eq!(turnbase::first_human(&[SeatKind::Ai(0), SeatKind::Ai(1)]), None);
    assert_eq!(turnbase::first_human(&[]), None);
}
