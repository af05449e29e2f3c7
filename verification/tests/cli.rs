use turnbase::{play_step, PlayStep, STEP_LIMIT, chance_seed, demo_seat_seed, parse_choice, parse_seats, play_viewer, seat_seed, seed_or_random, PlayArgs, PlayerId};

#[test]
fn parse_seats_defaults_to_seat_zero() {
    assert_eq!(parse_seats(None), vec![0]);
    assert_eq!(parse_seats(Some("")), vec![0]);
    assert_eq!(parse_seats(Some("nonsense")), vec![0]);
}

#[test]
fn parse_seats_reads_a_comma_list() {
    assert_eq!(parse_seats(Some("0")), vec![0]);
    assert_eq!(parse_seats(Some("0,2")), vec![0, 2]);
    assert_eq!(parse_seats(Some(" 1 , 3 ")), vec![1, 3]);
}

#[test]
fn seat_seed_is_stable_and_distinct_per_seat() {
    assert_eq!(seat_seed(42, 0), seat_seed(42, 0), "same inputs, same seed");
    assert_ne!(
        seat_seed(42, 0),
        seat_seed(42, 1),
        "different seats get different streams"
    );
}

#[test]
fn seat_seed_has_known_values() {
    assert_eq!(seat_seed(42, 0), 11_400_714_819_323_198_527);
    assert_eq!(seat_seed(42, 1), 4_354_685_564_936_845_312);
    assert_eq!(seat_seed(0, u32::MAX), 0x9E37_79B9_7F4A_7C15u64.wrapping_mul(1 << 32));
}

#[test]
fn parse_seats_follows_number_parsing() {
    assert_eq!(parse_seats(Some("+4,\t5\n,x,,6")), vec![4, 5, 6]);
    assert_eq!(parse_seats(Some("-1,+,4294967295,4294967296")), vec![4_294_967_295]);
    assert_eq!(parse_seats(Some("1 2,\u{3000}7\u{2003}")), vec![7]);
    assert_eq!(parse_seats(Some(",,,")), vec![0]);
    assert_eq!(parse_seats(Some("007")), vec![7]);
}

#[test]
fn play_args_report_their_values() {
    let args = PlayArgs::new(Some(9), Some("1,3".to_owned()));
    assert_eq!(args.seed(), Some(9));
    assert_eq!(args.manual_seats(), vec![1, 3]);
    let defaults = PlayArgs::new(None, None);
    assert_eq!(defaults.seed(), None);
    assert_eq!(defaults.manual_seats(), vec![0]);
}

#[test]
fn a_requested_seed_is_kept() {
    assert_eq!(seed_or_random(Some(17)), 17);
    let _ = seed_or_random(None);
}

#[test]
fn parse_choice_reads_an_index_in_range() {
    assert_eq!(parse_choice("2\n", 3), Some(2));
    assert_eq!(parse_choice(" +1 ", 3), Some(1));
    assert_eq!(parse_choice("0", 1), Some(0));
    assert_eq!(parse_choice("3", 3), None);
    assert_eq!(parse_choice("x", 3), None);
    assert_eq!(parse_choice("1x", 3), None);
    assert_eq!(parse_choice("", 3), None);
    assert_eq!(parse_choice("-1", 3), None);
    assert_eq!(parse_choice("99999999999999999999999", 5), None);
}

#[test]
fn play_viewer_is_the_single_controlled_seat() {
    assert_eq!(play_viewer(&[2]), Some(PlayerId::new(2)));
    assert_eq!(play_viewer(&[0, 1]), None);
    assert_eq!(play_viewer(&[]), None);
}

#[test]
fn chance_seed_mixes_in_the_offset() {
    assert_eq!(chance_seed(0), 0x00C0_FFEE);
    assert_eq!(chance_seed(0x00C0_FFEE), 0);
    assert_eq!(chance_seed(1), 0x00C0_FFEF);
}

#[test]
fn demo_seat_seeds_differ_per_seat() {
    assert_eq!(demo_seat_seed(0, 0), 1);
    assert_eq!(demo_seat_seed(7, 1), 7 ^ 2);
    assert_eq!(demo_seat_seed(u64::MAX, u32::MAX), u64::MAX ^ 0x1_0000_0000);
    assert_ne!(demo_seat_seed(42, 0), demo_seat_seed(42, 1));
}

#[test]
fn play_step_stops_at_the_end_the_limit_or_a_stall() {
    let p0 = PlayerId::new(0);
    assert_eq!(play_step(false, 0, false, Some(p0), 3), PlayStep::Prompt(p0));
    assert_eq!(play_step(false, 0, false, None, 0), PlayStep::Bot);
    assert_eq!(play_step(true, 0, false, None, 0), PlayStep::Stop);
    assert_eq!(play_step(false, STEP_LIMIT, false, None, 0), PlayStep::Stop);
    assert_eq!(play_step(false, STEP_LIMIT - 1, false, None, 0), PlayStep::Bot);
    assert_eq!(play_step(false, 5, true, None, 0), PlayStep::Stop);
    assert_eq!(play_step(false, 5, false, Some(p0), 0), PlayStep::Stop);
}
