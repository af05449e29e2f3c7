use turnbase::PlayerId;

#[test]
fn index_round_trips() {
    assert_eq!(PlayerId::new(3).index(), 3);
}

#[test]
fn chance_is_distinct_and_flagged() {
    assert!(PlayerId::chance().is_chance());
    assert!(!PlayerId::new(0).is_chance());
    assert_ne!(PlayerId::chance(), PlayerId::new(0));
}

#[test]
fn ordering_is_by_index() {
    assert!(PlayerId::new(0) < PlayerId::new(1));
    assert!(PlayerId::new(2) < PlayerId::chance());
}

#[test]
fn display() {
    assert_eq!(PlayerId::new(1).to_string(), "p1");
    assert_eq!(PlayerId::chance().to_string(), "chance");
}

#[test]
fn display_writes_every_digit() {
    assert_eq!(PlayerId::new(0).to_string(), "p0");
    assert_eq!(PlayerId::new(10).to_string(), "p10");
    assert_eq!(PlayerId::new(4_294_967_294).to_string(), "p4294967294");
}

#[test]
fn chance_index_is_the_reserved_maximum() {
    assert_eq!(PlayerId::chance().index(), u32::MAX);
    assert_eq!(PlayerId::CHANCE_INDEX, u32::MAX);
    assert!(PlayerId::new(u32::MAX).is_chance());
}
