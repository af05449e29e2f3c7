use turnbase::Prng;

#[test]
fn same_seed_same_stream() {
    let mut a = Prng::new(42);
    let mut b = Prng::new(42);
    for _ in 0..1000 {
        assert_eq!(a.next_u64(), b.next_u64());
    }
}

#[test]
fn different_seeds_diverge() {
    let mut a = Prng::new(1);
    let mut b = Prng::new(2);
    assert_ne!(a.next_u64(), b.next_u64());
}

#[test]
fn position_round_trips_through_variable_draws() {
    let mut rng = Prng::new(7);
    let mark = rng.position();
    let first: Vec<u64> = (0..20).map(|_| rng.below(100)).collect();

    rng.set_position(mark);
    let second: Vec<u64> = (0..20).map(|_| rng.below(100)).collect();

    assert_eq!(first, second, "restoring position replays the same draws");
}

#[test]
fn below_is_in_bounds() {
    let mut rng = Prng::new(9);
    for _ in 0..10_000 {
        assert!(rng.below(6) < 6);
    }
}

#[test]
fn range_is_in_bounds() {
    let mut rng = Prng::new(9);
    for _ in 0..10_000 {
        let v = rng.range(10, 20);
        assert!((10..20).contains(&v));
    }
}

#[test]
fn shuffle_is_a_permutation() {
    let mut rng = Prng::new(3);
    let mut data: Vec<u32> = (0..50).collect();
    rng.shuffle(&mut data);
    let mut sorted = data.clone();
    sorted.sort_unstable();
    assert_eq!(sorted, (0..50).collect::<Vec<_>>());
}

#[test]
fn choose_empty_is_none() {
    let mut rng = Prng::new(1);
    assert!(rng.choose_one::<u8>(&[]).is_none());
}

#[test]
fn seeded_stream_has_known_values() {
    assert_eq!(Prng::new(42).position(), 10_915_315_373_440_060_052);
    assert_eq!(Prng::new(42).next_u32(), 3_270_867_926);
    assert_eq!(Prng::new(42).next_u64(), 14_048_270_773_501_019_305);
    assert_eq!(Prng::new(1).next_u64(), 6_067_806_098_226_807_350);
    assert_eq!(Prng::new(2).next_u64(), 14_865_382_546_851_214_771);
}

#[test]
fn bounded_draws_have_known_values() {
    assert_eq!(Prng::new(7).below(100), 4);
    assert_eq!(Prng::new(7).below(6), 0);
    assert_eq!(Prng::new(9).range(10, 20), 16);
    assert_eq!(Prng::new(5).choose_one(&['a', 'b', 'c']), Some(&'b'));
    let mut data = [0u32, 1, 2, 3, 4];
    Prng::new(3).shuffle(&mut data);
    assert_eq!(data, [3, 4, 1, 0, 2]);
}

#[test]
fn a_draw_advances_the_position() {
    let mut rng = Prng::new(11);
    let before = rng.position();
    rng.next_u32();
    assert_ne!(rng.position(), before);
    let mut copy = rng;
    assert_eq!(copy.next_u64(), rng.next_u64());
}

#[test]
fn below_one_is_always_zero() {
    let mut rng = Prng::new(123);
    for _ in 0..100 {
        assert_eq!(rng.below(1), 0);
    }
}

#[test]
fn below_accepts_the_largest_bound() {
    let mut rng = Prng::new(8);
    for _ in 0..100 {
        assert!(rng.below(u64::MAX) < u64::MAX);
        assert!(rng.range(u64::MAX - 2, u64::MAX) >= u64::MAX - 2);
    }
}
