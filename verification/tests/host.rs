use turnbase::{ActivePlayers, Error, HostLedger, PlayerId, Prng, CHANCE_SEED_OFFSET};

fn p(index: u32) -> PlayerId {
    PlayerId::new(index)
}

#[test]
fn a_fresh_ledger_starts_at_version_zero_with_an_offset_sampler() {
    let ledger = HostLedger::new(5);
    assert_eq!(ledger.version(), 0);
    assert_eq!(ledger.chance().position(), Prng::new(5 ^ CHANCE_SEED_OFFSET).position());
    assert_ne!(ledger.chance().position(), Prng::new(5).position());
}

#[test]
fn only_an_accepted_action_bumps_the_version() {
    let mut ledger = HostLedger::new(0);
    let active = ActivePlayers::one(p(0));
    assert_eq!(ledger.accept(&active, p(1), true), Err(Error::NotActive { player: p(1) }));
    assert_eq!(ledger.version(), 0);
    assert_eq!(ledger.accept(&active, p(0), false), Err(Error::IllegalAction { player: p(0) }));
    assert_eq!(ledger.version(), 0);
    assert_eq!(ledger.accept(&active, p(0), true), Ok(()));
    assert_eq!(ledger.version(), 1);
    ledger.record_chance();
    assert_eq!(ledger.version(), 2);
}

#[test]
fn chance_is_resolved_only_at_a_live_chance_node() {
    assert!(HostLedger::resolves_chance(false, Some(PlayerId::chance())));
    assert!(!HostLedger::resolves_chance(true, Some(PlayerId::chance())));
    assert!(!HostLedger::resolves_chance(false, Some(p(0))));
    assert!(!HostLedger::resolves_chance(false, None));
}

#[test]
fn drawing_from_the_sampler_leaves_the_version_alone() {
    let mut ledger = HostLedger::new(3);
    let before = ledger.chance().position();
    let _ = ledger.chance_mut().next_u64();
    assert_ne!(ledger.chance().position(), before);
    assert_eq!(ledger.version(), 0);
}

#[test]
fn a_resumed_ledger_keeps_its_parts() {
    let mut rng = Prng::new(9);
    let _ = rng.next_u32();
    let ledger = HostLedger::resume(7, rng);
    assert_eq!(ledger.version(), 7);
    let (version, chance) = ledger.into_parts();
    assert_eq!(version, 7);
    assert_eq!(chance, rng);
}

#[test]
fn new_resolves_an_opening_chance_node() {
    // The opening position is a chance node revealing 0, 1 or 2; the host
    // resolves it, landing on a terminal state at version 1.
    let mut state: Option<u8> = None;
    let mut ledger = HostLedger::new(5);
    loop {
        let terminal = state.is_some();
        let active = if terminal { ActivePlayers::none() } else { ActivePlayers::one(PlayerId::chance()) };
        let first = active.iter().into_iter().next();
        if !HostLedger::resolves_chance(terminal, first) {
            break;
        }
        let outcome = u8::try_from(ledger.chance_mut().below(3)).unwrap();
        state = Some(outcome);
        ledger.record_chance();
    }
    assert!(matches!(state, Some(0..=2)));
    assert_eq!(ledger.version(), 1, "one chance outcome was applied");
}
