use turnbase::{
    menu_select, runner_step, turn_of, Panel, Pointer, RunnerStep, Turn, WHEEL_LINES, Command, Key, Overlay, PlayerId, SeatKind, SessionControls, TurnStep, DEFAULT_SPEED,
    SPEED_COUNT,
};

/// Auto-mode tick intervals in milliseconds, slowest first.
const SPEEDS_MS: [u64; SPEED_COUNT] = [1000, 600, 380, 220, 110];

/// A two-seat game that takes one action per seat then ends, driven the way
/// the interactive dashboard drives a match: the controls decide, this
/// harness carries the decisions out.
struct Harness {
    controls: SessionControls,
    state: u32,
    elapsed_ms: u64,
    log_len: usize,
}

impl Harness {
    fn new(controls: SessionControls) -> Self {
        Harness { controls, state: 0, elapsed_ms: 0, log_len: 0 }
    }

    fn terminal(&self) -> bool {
        self.state >= 2
    }

    fn active(&self) -> Option<u32> {
        if self.terminal() { None } else { Some(self.state % 2) }
    }

    fn awaiting_human(&self) -> Option<PlayerId> {
        let seat = self.active()?;
        match self.controls.seats()[seat as usize] {
            SeatKind::Human => Some(PlayerId::new(seat)),
            SeatKind::Ai(_) => None,
        }
    }

    fn play(&mut self) {
        self.state += 1;
        self.log_len += 1;
    }

    fn perform(&mut self, command: Command) {
        match command {
            Command::Rebuild => {
                self.state = 0;
                self.log_len = 0;
                self.elapsed_ms = 0;
            }
            Command::StepOnce => {
                if !self.terminal() && self.awaiting_human().is_none() {
                    self.play();
                    self.elapsed_ms = 0;
                }
            }
            Command::RestartClock => self.elapsed_ms = 0,
            Command::Nothing => {}
        }
    }

    fn frame(&mut self, keys: &[Key], delta_ms: u64) {
        match self.controls.overlay() {
            Overlay::Setup(_) => {
                for key in keys {
                    let command = self.controls.setup_key(*key);
                    self.perform(command);
                    if !matches!(self.controls.overlay(), Overlay::Setup(_)) {
                        break;
                    }
                }
            }
            Overlay::Help => {
                for key in keys {
                    self.controls.help_key(*key);
                    if !matches!(self.controls.overlay(), Overlay::Help) {
                        break;
                    }
                }
            }
            Overlay::Handoff(seat) => {
                for key in keys {
                    self.controls.handoff_key(seat, *key);
                    if !matches!(self.controls.overlay(), Overlay::Handoff(_)) {
                        break;
                    }
                }
            }
            Overlay::Live => {
                for key in keys {
                    let command = self.controls.control_key(*key, self.log_len);
                    self.perform(command);
                }
                let awaiting = self.awaiting_human();
                match self.controls.next_turn(self.terminal(), awaiting) {
                    TurnStep::Menu(_) => {
                        if self.controls.menu(1, keys).is_some() {
                            self.play();
                        }
                    }
                    TurnStep::Tick => {
                        self.elapsed_ms += delta_ms;
                        if self.elapsed_ms >= SPEEDS_MS[self.controls.speed()] {
                            self.elapsed_ms = 0;
                            self.play();
                        }
                    }
                    TurnStep::Wait => {}
                }
            }
        }
        self.controls.anchor_log(self.log_len);
        self.controls.set_log_rows(5);
    }
}

/// Drives up to `frames` frames of 250 ms, pressing Enter each frame when
/// `enter` is set, and reports whether the match finished.
fn drive(controls: SessionControls, enter: bool, frames: u64) -> bool {
    let mut harness = Harness::new(controls);
    let keys: &[Key] = if enter { &[Key::Enter] } else { &[] };
    for _ in 0..frames {
        harness.frame(keys, 250);
        if harness.controls.exit() {
            break;
        }
        if harness.controls.is_done(harness.terminal()) {
            return true;
        }
    }
    harness.controls.is_done(harness.terminal())
}

fn two_seats(seed: u64) -> SessionControls {
    SessionControls::new(2, 2, seed)
}

#[test]
fn all_ai_auto_plays_to_the_end() {
    assert!(drive(two_seats(1), false, 60), "an all-AI match should finish on its own");
}

#[test]
fn one_human_needs_no_handoff() {
    let mut controls = two_seats(2);
    assert_eq!(controls.with_human_seat(0), Command::Rebuild);
    assert_eq!(controls.viewer(), Some(PlayerId::new(0)));
    assert!(drive(controls, true, 60), "one human + Enter should finish");
}

#[test]
fn two_humans_block_on_a_handoff() {
    let mut controls = two_seats(3);
    controls.with_human_seat(0);
    controls.with_human_seat(1);
    assert_eq!(controls.viewer(), None);
    assert!(!drive(controls, false, 60), "a 2-human match must stall on the handoff without input");

    let mut controls = two_seats(3);
    controls.with_human_seat(0);
    controls.with_human_seat(1);
    assert!(drive(controls, true, 60), "Enter should pass the device and play both seats");
}

#[test]
fn a_fresh_dashboard_is_all_ai_in_auto_mode() {
    let controls = SessionControls::new(3, 2, 9);
    assert_eq!(controls.seats(), &[SeatKind::Ai(0); 3]);
    assert!(controls.auto());
    assert!(!controls.paused());
    assert_eq!(controls.speed(), DEFAULT_SPEED);
    assert_eq!(controls.viewer(), None);
    assert_eq!(controls.overlay(), Overlay::Live);
    assert_eq!(controls.seed(), 9);
    assert!(!controls.exit());
}

#[test]
fn out_of_range_human_seat_is_ignored() {
    let mut controls = two_seats(0);
    assert_eq!(controls.with_human_seat(5), Command::Nothing);
    assert_eq!(controls.seats(), &[SeatKind::Ai(0), SeatKind::Ai(0)]);
}

#[test]
fn setup_cycles_kinds_and_cancel_restores() {
    let mut controls = two_seats(0);
    assert_eq!(controls.control_key(Key::Char('c'), 0), Command::Nothing);
    assert_eq!(controls.overlay(), Overlay::Setup(0));
    controls.setup_key(Key::Right);
    assert_eq!(controls.seats()[0], SeatKind::Ai(1));
    controls.setup_key(Key::Right);
    assert_eq!(controls.seats()[0], SeatKind::Human);
    controls.setup_key(Key::Right);
    assert_eq!(controls.seats()[0], SeatKind::Ai(0));
    controls.setup_key(Key::Left);
    assert_eq!(controls.seats()[0], SeatKind::Human);
    controls.setup_key(Key::Down);
    assert_eq!(controls.overlay(), Overlay::Setup(1));
    controls.setup_key(Key::Down);
    assert_eq!(controls.overlay(), Overlay::Setup(0));
    controls.setup_key(Key::Up);
    assert_eq!(controls.overlay(), Overlay::Setup(1));
    controls.setup_key(Key::Left);
    assert_eq!(controls.seats(), &[SeatKind::Human, SeatKind::Human]);
    assert_eq!(controls.setup_key(Key::Escape), Command::Nothing);
    assert_eq!(controls.overlay(), Overlay::Live);
    assert_eq!(controls.seats(), &[SeatKind::Ai(0), SeatKind::Ai(0)]);
}

#[test]
fn setup_confirm_rebuilds_with_the_edits() {
    let mut controls = two_seats(0);
    controls.with_setup_open(true);
    controls.setup_key(Key::Down);
    controls.setup_key(Key::Left);
    assert_eq!(controls.setup_key(Key::Enter), Command::Rebuild);
    assert_eq!(controls.overlay(), Overlay::Live);
    assert_eq!(controls.seats(), &[SeatKind::Ai(0), SeatKind::Human]);
    assert_eq!(controls.viewer(), Some(PlayerId::new(1)));
}

#[test]
fn run_mode_pause_and_speed() {
    let mut controls = two_seats(0);
    assert_eq!(controls.control_key(Key::Char('p'), 0), Command::Nothing);
    assert!(controls.paused());
    assert_eq!(controls.control_key(Key::Tab, 0), Command::RestartClock);
    assert!(!controls.auto());
    assert!(!controls.paused());
    controls.control_key(Key::Char('P'), 0);
    assert!(!controls.paused(), "pause only applies in Auto mode");
    assert_eq!(controls.control_key(Key::Char('m'), 0), Command::RestartClock);
    assert!(controls.auto());
    for _ in 0..10 {
        controls.control_key(Key::Char('+'), 0);
    }
    assert_eq!(controls.speed(), SPEED_COUNT - 1);
    for _ in 0..10 {
        controls.control_key(Key::Char('-'), 0);
    }
    assert_eq!(controls.speed(), 0);
    assert_eq!(controls.control_key(Key::Char(' '), 0), Command::StepOnce);
    controls.with_step_mode();
    assert!(!controls.auto());
}

#[test]
fn reset_moves_the_seed_on_and_wraps() {
    let mut controls = SessionControls::new(2, 1, u64::MAX - 1);
    assert_eq!(controls.control_key(Key::Char('r'), 0), Command::Rebuild);
    assert_eq!(controls.seed(), u64::MAX);
    assert_eq!(controls.control_key(Key::Char('R'), 0), Command::Rebuild);
    assert_eq!(controls.seed(), 0);
}

#[test]
fn log_scrolling_is_clamped_and_anchored() {
    let mut controls = two_seats(0);
    controls.set_log_rows(5);
    controls.anchor_log(20);
    controls.control_key(Key::PageUp, 20);
    assert_eq!(controls.log_scroll(), 5);
    controls.control_key(Key::Home, 20);
    assert_eq!(controls.log_scroll(), 15);
    controls.control_key(Key::PageDown, 20);
    assert_eq!(controls.log_scroll(), 10);
    controls.anchor_log(23);
    assert_eq!(controls.log_scroll(), 13, "three new lines keep the view on the same lines");
    controls.control_key(Key::End, 23);
    assert_eq!(controls.log_scroll(), 0);
    controls.anchor_log(30);
    assert_eq!(controls.log_scroll(), 0, "a view at the newest line follows new lines");
    controls.set_log_rows(0);
    assert_eq!(controls.log_rows(), 1);
}

#[test]
fn help_closes_on_its_keys_only() {
    let mut controls = two_seats(0);
    controls.control_key(Key::Char('?'), 0);
    assert_eq!(controls.overlay(), Overlay::Help);
    controls.help_key(Key::Char('x'));
    assert_eq!(controls.overlay(), Overlay::Help);
    controls.help_key(Key::Char('h'));
    assert_eq!(controls.overlay(), Overlay::Live);
}

#[test]
fn handoff_reveals_only_the_pending_seat_on_enter() {
    let mut controls = two_seats(0);
    controls.with_human_seat(0);
    controls.with_human_seat(1);
    let p0 = PlayerId::new(0);
    assert!(controls.reveal_gated(p0));
    assert_eq!(controls.next_turn(false, Some(p0)), TurnStep::Wait);
    assert_eq!(controls.overlay(), Overlay::Handoff(p0));
    controls.handoff_key(p0, Key::Char('a'));
    assert_eq!(controls.viewer(), None);
    controls.handoff_key(p0, Key::Enter);
    assert_eq!(controls.viewer(), Some(p0));
    assert_eq!(controls.overlay(), Overlay::Live);
    assert_eq!(controls.next_turn(false, Some(p0)), TurnStep::Menu(p0));
    controls.handoff_key(p0, Key::Escape);
    assert!(controls.exit());
    assert_eq!(controls.next_turn(false, None), TurnStep::Wait);
}

#[test]
fn escape_exits_the_live_dashboard() {
    let mut controls = two_seats(0);
    controls.control_key(Key::Escape, 0);
    assert!(controls.exit());
}

#[test]
fn menu_moves_wrap_and_enter_picks() {
    assert_eq!(menu_select(0, 3, &[Key::Up]), (2, None));
    assert_eq!(menu_select(2, 3, &[Key::Down]), (0, None));
    assert_eq!(menu_select(1, 3, &[Key::Down, Key::Enter]), (0, Some(2)));
    assert_eq!(menu_select(9, 3, &[]), (2, None), "the highlight is kept on the list");
    assert_eq!(menu_select(5, 0, &[Key::Down, Key::Enter]), (5, None));
    assert_eq!(menu_select(0, 3, &[Key::Down, Key::Up]), (0, None));
}

#[test]
fn turn_of_names_whose_turn_it_is() {
    let p0 = PlayerId::new(0);
    let p1 = PlayerId::new(1);
    assert_eq!(turn_of(true, Some(p0), Some(p0)), Turn::Over);
    assert_eq!(turn_of(false, Some(p0), Some(p1)), Turn::Human(p0));
    assert_eq!(turn_of(false, None, Some(PlayerId::chance())), Turn::Chance);
    assert_eq!(turn_of(false, None, Some(p1)), Turn::Seat(p1));
    assert_eq!(turn_of(false, None, None), Turn::Over);
}

#[test]
fn runner_exits_on_escape_or_enter_once_over() {
    let p0 = PlayerId::new(0);
    assert_eq!(runner_step(false, Some(p0), &[Key::Char('x'), Key::Escape]), RunnerStep::Exit);
    assert_eq!(runner_step(true, None, &[Key::Enter]), RunnerStep::Exit);
    assert_eq!(runner_step(false, Some(p0), &[Key::Enter]), RunnerStep::Menu(p0));
    assert_eq!(runner_step(false, None, &[Key::Enter]), RunnerStep::Tick);
    assert_eq!(runner_step(true, None, &[Key::Down]), RunnerStep::Hold);
    assert_eq!(runner_step(true, None, &[]), RunnerStep::Hold);
}

fn log_strip() -> Panel {
    Panel { x: 0, y: 18, width: 80, height: 5 }
}

#[test]
fn the_wheel_scrolls_the_log() {
    let mut controls = two_seats(0);
    controls.set_log_rows(5);
    controls.pointer(Pointer::WheelUp, 20, log_strip());
    assert_eq!(controls.log_scroll(), WHEEL_LINES);
    controls.pointer(Pointer::WheelUp, 20, log_strip());
    controls.pointer(Pointer::WheelUp, 20, log_strip());
    controls.pointer(Pointer::WheelUp, 20, log_strip());
    controls.pointer(Pointer::WheelUp, 20, log_strip());
    controls.pointer(Pointer::WheelUp, 20, log_strip());
    assert_eq!(controls.log_scroll(), 15, "clamped at the oldest line");
    controls.pointer(Pointer::WheelDown, 20, log_strip());
    assert_eq!(controls.log_scroll(), 12);
}

#[test]
fn the_scrollbar_jumps_and_drags() {
    let mut controls = two_seats(0);
    controls.set_log_rows(5);
    // The bar is the strip's rightmost column; its top row is the oldest view.
    controls.pointer(Pointer::Press { x: 79, y: 18 }, 25, log_strip());
    assert_eq!(controls.log_scroll(), 20);
    controls.pointer(Pointer::Drag { x: 60, y: 20 }, 25, log_strip());
    assert_eq!(controls.log_scroll(), 10);
    controls.pointer(Pointer::Drag { x: 79, y: 30 }, 25, log_strip());
    assert_eq!(controls.log_scroll(), 0, "below the bar counts as its bottom");
    controls.pointer(Pointer::Release, 25, log_strip());
    controls.pointer(Pointer::Drag { x: 79, y: 18 }, 25, log_strip());
    assert_eq!(controls.log_scroll(), 0, "a drag after release does nothing");
    controls.pointer(Pointer::Press { x: 10, y: 18 }, 25, log_strip());
    assert_eq!(controls.log_scroll(), 0, "a press off the bar does nothing");
}

#[test]
fn clicking_a_menu_row_selects_then_plays() {
    let mut controls = two_seats(0);
    let menu = Panel { x: 57, y: 10, width: 23, height: 3 };
    assert_eq!(controls.menu_click(5, menu, 60, 11), None);
    assert_eq!(controls.selected(), 1);
    assert_eq!(controls.menu_click(5, menu, 60, 11), Some(1));
    assert_eq!(controls.selected(), 0);
    assert_eq!(controls.menu_click(5, menu, 40, 11), None, "outside the menu");
    assert_eq!(controls.selected(), 0);
    assert_eq!(controls.menu_click(2, menu, 60, 12), None, "below the last action");
    assert_eq!(controls.menu_click(5, menu, 60, 12), None);
    assert_eq!(controls.menu_click(5, menu, 60, 12), Some(2));
    // With the highlight on the last action the window scrolls down, so the
    // top row shows a later action.
    assert_eq!(controls.menu(5, &[Key::Up]), None);
    assert_eq!(controls.selected(), 4);
    assert_eq!(controls.menu_click(5, menu, 60, 10), None);
    assert_eq!(controls.selected(), 2);
}
