use std::collections::{BTreeMap, BTreeSet};

use turnbase::{awaiting_human, bot_to_move, check_action, ActivePlayers, Error, PlayerId, Random};

const P0: u32 = 0;
const P1: u32 = 1;

/// Two seats alternately add 1 to a shared total; the match ends at 3. The
/// turn decisions (who a bot moves for, who waits on a human, whether a move
/// is accepted) are the library's.
struct CountToThree {
    total: u32,
    bots: BTreeMap<u32, Random>,
    log: Vec<String>,
}

impl CountToThree {
    fn new(bot_seats: &[u32]) -> Self {
        let bots = bot_seats.iter().map(|&seat| (seat, Random::new(u64::from(seat) + 7))).collect();
        CountToThree { total: 0, bots, log: Vec::new() }
    }

    fn is_terminal(&self) -> bool {
        self.total >= 3
    }

    fn active(&self) -> ActivePlayers {
        if self.is_terminal() {
            ActivePlayers::none()
        } else {
            ActivePlayers::one(PlayerId::new(self.total % 2))
        }
    }

    fn bot_seats(&self) -> BTreeSet<u32> {
        self.bots.keys().copied().collect()
    }

    fn awaiting_human(&self) -> Option<PlayerId> {
        awaiting_human(&self.active(), &self.bot_seats())
    }

    fn commit(&mut self, player: PlayerId) -> Result<(), Error> {
        let active = self.active();
        let legal = active.contains(player) && !self.is_terminal();
        check_action(&active, player, legal)?;
        self.log.push(format!("{} chose: Bump", player.to_string()));
        self.total += 1;
        Ok(())
    }

    fn step(&mut self) -> Result<bool, Error> {
        let Some(player) = bot_to_move(self.is_terminal(), &self.active(), &self.bot_seats()) else {
            return Ok(false);
        };
        let bot = self.bots.get_mut(&player.index()).expect("a bot drives this seat");
        if bot.choose_index(1).is_none() {
            return Ok(false);
        }
        self.commit(player)?;
        Ok(true)
    }
}

#[test]
fn steps_all_ai_seats_to_a_terminal_state() {
    let mut game = CountToThree::new(&[P0, P1]);
    let mut steps = 0;
    while !game.is_terminal() && game.step().unwrap() {
        steps += 1;
    }
    assert_eq!(steps, 3, "three bumps reach the target from zero");
    assert!(game.is_terminal());
    assert_eq!(game.log.len(), 3);
    assert_eq!(game.log[0], "p0 chose: Bump");
}

#[test]
fn step_blocks_on_a_human_seat_until_driven() {
    let mut game = CountToThree::new(&[P1]);
    assert_eq!(game.awaiting_human(), Some(PlayerId::new(P0)));
    assert_eq!(game.step(), Ok(false), "step refuses to act for a human");
    assert!(game.log.is_empty());

    game.commit(PlayerId::new(P0)).unwrap();
    assert_eq!(game.awaiting_human(), None);
    assert!(game.step().unwrap(), "the AI seat advances once unblocked");
    assert_eq!(game.log.len(), 2);
}

#[test]
fn a_move_out_of_turn_is_refused() {
    let mut game = CountToThree::new(&[]);
    assert_eq!(game.commit(PlayerId::new(P1)), Err(Error::NotActive { player: PlayerId::new(P1) }));
    assert_eq!(game.total, 0);
}
