//! The decisions of an interactive match dashboard.
//!
//! The dashboard draws the board and runs the match; every choice it makes
//! from a key press is made here: opening and cancelling the seat setup,
//! cycling a seat between Human and the offered AI types, switching between
//! Auto and Step mode, the run speed, scrolling the log, passing the device
//! between human seats, and moving through the action menu.
use vstd::prelude::*;

use crate::dashboard::{menu_window, window_start, Panel};
use crate::player::PlayerId;
use crate::seats::{
    first_human, human_count, index_kind, index_kind_spec, kind_index, kind_index_spec, viewer_for,
    viewer_spec, SeatKind,
};

verus! {

broadcast use {crate::player::PlayerId::lemma_spec_new_index, crate::player::PlayerId::lemma_index_determines_seat};

/// How many run speeds Auto mode offers, slowest first.
pub const SPEED_COUNT: usize = 5;

/// The speed Auto mode starts at.
pub const DEFAULT_SPEED: usize = 2;

/// A key press, as far as the dashboard tells keys apart.
#[derive(Clone, Copy, PartialEq, Eq, Debug)]
pub enum Key {
    Up,
    Down,
    Left,
    Right,
    Enter,
    Escape,
    Tab,
    PageUp,
    PageDown,
    Home,
    End,
    /// A printable character.
    Char(char),
    /// Any other key, which the dashboard ignores.
    Other,
}

/// What is in front of the dashboard; only one can be open at a time.
#[derive(Clone, Copy, PartialEq, Eq, Debug)]
pub enum Overlay {
    /// Nothing: the live match dashboard is in front.
    Live,
    /// The seat-setup modal, with the cursor's seat row.
    Setup(usize),
    /// The controls help card.
    Help,
    /// A pending device handoff to this seat, waiting for Enter to reveal it.
    Handoff(PlayerId),
}

/// Work a key press asks of the dashboard beyond its own settings.
#[derive(Clone, Copy, PartialEq, Eq, Debug)]
pub enum Command {
    /// Nothing more to do.
    Nothing,
    /// Build the match again from the current seats and seed, and restart
    /// the AI clock.
    Rebuild,
    /// Advance one decision, if the match is live and no human is to act.
    StepOnce,
    /// Restart the AI clock.
    RestartClock,
}

/// What the dashboard does with the live match this frame.
#[derive(Clone, Copy, PartialEq, Eq, Debug)]
pub enum TurnStep {
    /// Nothing: the match is over, an overlay is up, or play is paused.
    Wait,
    /// This human seat acts through the action menu.
    Menu(PlayerId),
    /// Let the AI clock run, stepping a bot when it is due.
    Tick,
}

/// Whose turn the status bar reports.
#[derive(Clone, Copy, PartialEq, Eq, Debug)]
pub enum Turn {
    /// The match is over (or nobody is active).
    Over,
    /// This human seat is to act.
    Human(PlayerId),
    /// A committed chance outcome is pending.
    Chance,
    /// This seat, which no human plays here, is to act.
    Seat(PlayerId),
}

/// Whose turn it is: `terminal` is whether the match is over, `awaiting` the
/// human seat owed a decision, `first_active` the lowest active seat.
pub open spec fn turn_spec(terminal: bool, awaiting: Option<PlayerId>, first_active: Option<PlayerId>) -> Turn {
    if terminal {
        Turn::Over
    } else {
        match awaiting {
            Some(p) => Turn::Human(p),
            None => match first_active {
                Some(p) => if p.spec_index() == PlayerId::CHANCE_INDEX { Turn::Chance } else { Turn::Seat(p) },
                None => Turn::Over,
            },
        }
    }
}

/// Decides whose turn the status bar reports.
pub fn turn_of(terminal: bool, awaiting: Option<PlayerId>, first_active: Option<PlayerId>) -> (t: Turn)
    ensures
        t == turn_spec(terminal, awaiting, first_active),
{
    if terminal {
        return Turn::Over;
    }
    if let Some(p) = awaiting {
        return Turn::Human(p);
    }
    match first_active {
        Some(p) => if p.is_chance() { Turn::Chance } else { Turn::Seat(p) },
        None => Turn::Over,
    }
}

/// The dashboard's settings, as a mathematical value.
#[verifier::ext_equal]
pub struct ControlsModel {
    /// Who controls each seat.
    pub seats: Seq<SeatKind>,
    /// The seats as they were when the setup modal opened.
    pub backup: Seq<SeatKind>,
    /// How many AI types a seat can choose from.
    pub bot_count: usize,
    /// The match seed.
    pub seed: u64,
    /// Auto mode (bots step on a clock) rather than Step mode.
    pub auto: bool,
    /// Auto mode is paused.
    pub paused: bool,
    /// The Auto-mode speed, from 0 (slowest).
    pub speed: usize,
    /// The seat whose view the board shows; `None` is a spectator.
    pub viewer: Option<PlayerId>,
    /// The highlighted row of the action menu.
    pub selected: usize,
    /// How many lines the log is scrolled back from its newest line.
    pub log_scroll: usize,
    /// How many log rows were visible in the last frame.
    pub log_rows: usize,
    /// The log length when it was last anchored.
    pub log_len_seen: usize,
    /// What is in front of the dashboard.
    pub overlay: Overlay,
    /// The dashboard is to close.
    pub exit: bool,
    /// The log's scrollbar is being dragged.
    pub dragging: bool,
}

/// The settings every step keeps: at least one AI type, seat kinds that
/// name one of them, a backup of the same size, a speed in range, at least
/// one log row, and a setup cursor on a seat.
pub open spec fn controls_wf(m: ControlsModel) -> bool {
    &&& 1 <= m.bot_count
    &&& 2 * (m.bot_count + 1) <= usize::MAX
    &&& m.seats.len() == m.backup.len()
    &&& m.seats.len() <= u32::MAX
    &&& forall|i: int| 0 <= i < m.seats.len() ==> kind_index_spec(#[trigger] m.seats[i]) <= m.bot_count
    &&& forall|i: int| 0 <= i < m.backup.len() ==> kind_index_spec(#[trigger] m.backup[i]) <= m.bot_count
    &&& m.speed < SPEED_COUNT
    &&& m.log_rows >= 1
    &&& m.overlay matches Overlay::Setup(c) ==> c == 0 || c < m.seats.len()
}

/// The dashboard as first built: every seat the first AI type, Auto mode at
/// the default speed, the log at its newest line.
pub open spec fn initial_controls(num_seats: nat, bot_count: usize, seed: u64) -> ControlsModel {
    let seats = Seq::new(num_seats, |i: int| SeatKind::Ai(0));
    ControlsModel {
        seats,
        backup: seats,
        bot_count,
        seed,
        auto: true,
        paused: false,
        speed: DEFAULT_SPEED,
        viewer: viewer_spec(seats),
        selected: 0,
        log_scroll: 0,
        log_rows: 1,
        log_len_seen: 0,
        overlay: Overlay::Live,
        exit: false,
        dragging: false,
    }
}

/// The settings right after the match is built again: the viewer follows the
/// seats, a pending handoff is dropped (an open setup stays), and the menu,
/// pause and log start afresh.
pub open spec fn rebuilt(m: ControlsModel) -> ControlsModel {
    ControlsModel {
        viewer: viewer_spec(m.seats),
        overlay: if m.overlay is Handoff { Overlay::Live } else { m.overlay },
        selected: 0,
        paused: false,
        log_scroll: 0,
        log_len_seen: 0,
        ..m
    }
}

/// The furthest the log can scroll back: enough to bring its oldest line to
/// the top of the panel, and no further.
pub open spec fn max_log_scroll(len: usize, rows: usize) -> usize {
    len.saturating_sub(if rows >= 1 { rows } else { 1 })
}

/// The smaller of two offsets.
pub open spec fn min_usize(a: usize, b: usize) -> usize {
    if a <= b { a } else { b }
}

/// The log offset after scrolling `lines` further back, clamped at the oldest.
pub open spec fn scrolled_back(m: ControlsModel, lines: usize, len: usize) -> usize {
    min_usize(m.log_scroll.saturating_add(lines), max_log_scroll(len, m.log_rows))
}

/// One page of the log: the rows visible in the last frame.
pub open spec fn page(m: ControlsModel) -> usize {
    if m.log_rows >= 1 { m.log_rows } else { 1 }
}

/// The seed after it moves on by one, wrapping at the top.
pub open spec fn next_seed(seed: u64) -> u64 {
    if seed == u64::MAX { 0 } else { (seed + 1) as u64 }
}

/// A printable key for a control, in either case where the control has two.
pub open spec fn char_step(m: ControlsModel, c: char) -> (ControlsModel, Command) {
    if c == 'c' || c == 'C' {
        (ControlsModel { backup: m.seats, overlay: Overlay::Setup(0), ..m }, Command::Nothing)
    } else if c == 'r' || c == 'R' {
        (rebuilt(ControlsModel { seed: next_seed(m.seed), ..m }), Command::Rebuild)
    } else if c == 'm' || c == 'M' {
        (ControlsModel { auto: !m.auto, paused: false, ..m }, Command::RestartClock)
    } else if c == 'p' || c == 'P' {
        (if m.auto { ControlsModel { paused: !m.paused, ..m } } else { m }, Command::Nothing)
    } else if c == '+' || c == '=' {
        (ControlsModel { speed: min_usize((m.speed + 1) as usize, (SPEED_COUNT - 1) as usize), ..m }, Command::Nothing)
    } else if c == '-' || c == '_' {
        (ControlsModel { speed: m.speed.saturating_sub(1), ..m }, Command::Nothing)
    } else if c == '?' || c == 'h' || c == 'H' {
        (ControlsModel { overlay: Overlay::Help, ..m }, Command::Nothing)
    } else if c == ' ' {
        (m, Command::StepOnce)
    } else {
        (m, Command::Nothing)
    }
}

/// One key on the live dashboard, with `len` lines in the log.
pub open spec fn control_step(m: ControlsModel, key: Key, len: usize) -> (ControlsModel, Command) {
    match key {
        Key::Escape => (ControlsModel { exit: true, ..m }, Command::Nothing),
        Key::Tab => (ControlsModel { auto: !m.auto, paused: false, ..m }, Command::RestartClock),
        Key::PageUp => (ControlsModel { log_scroll: scrolled_back(m, page(m), len), ..m }, Command::Nothing),
        Key::PageDown => (ControlsModel { log_scroll: m.log_scroll.saturating_sub(page(m)), ..m }, Command::Nothing),
        Key::Home => (ControlsModel { log_scroll: scrolled_back(m, usize::MAX, len), ..m }, Command::Nothing),
        Key::End => (ControlsModel { log_scroll: 0, ..m }, Command::Nothing),
        Key::Char(c) => char_step(m, c),
        _ => (m, Command::Nothing),
    }
}

/// The setup cursor kept on a seat.
pub open spec fn setup_cursor(m: ControlsModel) -> usize {
    match m.overlay {
        Overlay::Setup(c) => if m.seats.len() == 0 { 0 } else { min_usize(c, (m.seats.len() - 1) as usize) },
        _ => 0,
    }
}

/// The seat kind one place along the setup list from `kind`, forward or back,
/// wrapping around the `kinds` choices.
pub open spec fn cycled(kind: SeatKind, kinds: usize, forward: bool) -> SeatKind {
    if forward {
        index_kind_spec(((kind_index_spec(kind) + 1) % (kinds as int)) as usize)
    } else {
        index_kind_spec(((kind_index_spec(kind) + kinds - 1) % (kinds as int)) as usize)
    }
}

/// The seats with the one under the setup cursor cycled forward or back.
pub open spec fn cycle_at(m: ControlsModel, forward: bool) -> Seq<SeatKind> {
    let cursor = setup_cursor(m) as int;
    if m.seats.len() > 0 {
        m.seats.update(cursor, cycled(m.seats[cursor], (m.bot_count + 1) as usize, forward))
    } else {
        m.seats
    }
}

/// One key in the seat-setup modal.
pub open spec fn setup_step(m: ControlsModel, key: Key) -> (ControlsModel, Command) {
    let n = m.seats.len();
    let cursor = setup_cursor(m);
    match key {
        Key::Up => (ControlsModel {
            overlay: Overlay::Setup(if n > 0 && cursor == 0 { (n - 1) as usize } else if n > 0 { (cursor - 1) as usize } else { cursor }),
            ..m
        }, Command::Nothing),
        Key::Down => (ControlsModel {
            overlay: Overlay::Setup(if n > 0 { ((cursor + 1) % (n as int)) as usize } else { cursor }),
            ..m
        }, Command::Nothing),
        Key::Left => (ControlsModel { seats: cycle_at(m, false), overlay: Overlay::Setup(cursor), ..m }, Command::Nothing),
        Key::Right => (ControlsModel { seats: cycle_at(m, true), overlay: Overlay::Setup(cursor), ..m }, Command::Nothing),
        Key::Enter => (rebuilt(ControlsModel { overlay: Overlay::Live, ..m }), Command::Rebuild),
        Key::Escape => (ControlsModel { seats: m.backup, overlay: Overlay::Live, ..m }, Command::Nothing),
        _ => (ControlsModel { overlay: Overlay::Setup(cursor), ..m }, Command::Nothing),
    }
}

/// Keys fed to the setup modal one by one until it closes.
pub open spec fn setup_run(m: ControlsModel, keys: Seq<Key>) -> ControlsModel
    decreases keys.len(),
{
    if keys.len() == 0 {
        m
    } else {
        let prev = setup_run(m, keys.drop_last());
        if prev.overlay is Setup {
            setup_step(prev, keys.last()).0
        } else {
            prev
        }
    }
}

/// One key while the help card is up: `?`, `h` or Escape closes it.
pub open spec fn help_step(m: ControlsModel, key: Key) -> ControlsModel {
    let closes = match key {
        Key::Escape => true,
        Key::Char(c) => c == '?' || c == 'h' || c == 'H',
        _ => false,
    };
    if closes { ControlsModel { overlay: Overlay::Live, ..m } } else { m }
}

/// One key while a handoff to `seat` is pending: Enter reveals that seat,
/// Escape closes the dashboard, every other key is swallowed.
pub open spec fn handoff_step(m: ControlsModel, seat: PlayerId, key: Key) -> ControlsModel {
    match key {
        Key::Enter => ControlsModel { viewer: Some(seat), overlay: Overlay::Live, ..m },
        Key::Escape => ControlsModel { exit: true, ..m },
        _ => m,
    }
}

/// The help card never quits the dashboard: whatever key is pressed while
/// it is up, the exit flag stays as it was, Escape closes the card back to
/// the live dashboard, and nothing but the overlay ever changes.
pub proof fn lemma_help_card_never_quits(m: ControlsModel, key: Key)
    ensures
        help_step(m, key).exit == m.exit,
        key is Escape ==> help_step(m, key).overlay is Live,
        help_step(m, key) == (ControlsModel { overlay: help_step(m, key).overlay, ..m }),
{
}

/// Whether showing `player`'s action menu now would reveal one human's
/// private view to another: two or more human seats, and the board not
/// already showing `player`.
pub open spec fn reveal_gated_spec(m: ControlsModel, player: PlayerId) -> bool {
    human_count(m.seats) >= 2 && m.viewer != Some(player)
}

/// What the live dashboard does with the match after the keys of a frame:
/// `terminal` is whether the match is over, `awaiting` the human seat to act.
pub open spec fn turn_step(m: ControlsModel, terminal: bool, awaiting: Option<PlayerId>) -> (ControlsModel, TurnStep) {
    if !m.exit && m.overlay is Live && !terminal {
        match awaiting {
            Some(p) => if reveal_gated_spec(m, p) {
                (ControlsModel { overlay: Overlay::Handoff(p), ..m }, TurnStep::Wait)
            } else {
                (m, TurnStep::Menu(p))
            },
            None => (m, if m.auto && !m.paused { TurnStep::Tick } else { TurnStep::Wait }),
        }
    } else {
        (m, TurnStep::Wait)
    }
}

/// The AI clock runs only in Auto mode and never while paused: the live
/// dashboard ticks exactly when it is in Auto mode, not paused, not closing,
/// showing no overlay, and the match is live with no human seat to act.
/// Deciding the frame changes nothing but, at most, the overlay.
pub proof fn lemma_clock_runs_only_in_auto_unpaused(m: ControlsModel, terminal: bool, awaiting: Option<PlayerId>)
    ensures
        m.paused ==> turn_step(m, terminal, awaiting).1 != TurnStep::Tick,
        !m.auto ==> turn_step(m, terminal, awaiting).1 != TurnStep::Tick,
        turn_step(m, terminal, awaiting).1 == TurnStep::Tick <==> (!m.exit && m.overlay is Live && !terminal
            && awaiting is None && m.auto && !m.paused),
        turn_step(m, terminal, awaiting).0 == (ControlsModel { overlay: turn_step(m, terminal, awaiting).0.overlay, ..m }),
{
}

/// The log offset kept on the same lines as `len - m.log_len_seen` new lines
/// arrive, then clamped to what fits.
pub open spec fn anchored(m: ControlsModel, len: usize) -> ControlsModel {
    let grown = len.saturating_sub(m.log_len_seen);
    let scroll = if m.log_scroll > 0 { m.log_scroll.saturating_add(grown) } else { m.log_scroll };
    ControlsModel { log_len_seen: len, log_scroll: min_usize(scroll, max_log_scroll(len, m.log_rows)), ..m }
}

/// The menu highlight after one key, with `count` actions on offer: Up and
/// Down move it, wrapping around the ends.
pub open spec fn menu_key(selected: usize, count: usize, key: Key) -> usize {
    if count > 0 {
        match key {
            Key::Up => if selected == 0 { (count - 1) as usize } else { (selected - 1) as usize },
            Key::Down => ((selected + 1) % (count as int)) as usize,
            _ => selected,
        }
    } else {
        selected
    }
}

/// The menu highlight after a frame's keys, in order.
pub open spec fn menu_keys(selected: usize, count: usize, keys: Seq<Key>) -> usize
    decreases keys.len(),
{
    if keys.len() == 0 {
        selected
    } else {
        menu_key(menu_keys(selected, count, keys.drop_last()), count, keys.last())
    }
}

/// The highlight after a frame of the action menu, and the action chosen:
/// the highlight is first kept on an action, then moved by the keys; if any
/// key was Enter and there is an action, the highlighted one is chosen and
/// the highlight goes back to the top.
pub open spec fn menu_frame(selected: usize, count: usize, keys: Seq<Key>) -> (usize, Option<usize>) {
    let start = if count > 0 { min_usize(selected, (count - 1) as usize) } else { selected };
    let end = menu_keys(start, count, keys);
    if count > 0 && exists|i: int| 0 <= i < keys.len() && #[trigger] keys[i] is Enter {
        (0, Some(end))
    } else {
        (end, None)
    }
}

/// The menu highlight stays on an action: started on one, it is on one
/// after any keys.
pub proof fn lemma_menu_keys_in_range(selected: usize, count: usize, keys: Seq<Key>)
    requires
        selected < count,
    ensures
        menu_keys(selected, count, keys) < count,
    decreases keys.len(),
{
    if keys.len() > 0 {
        lemma_menu_keys_in_range(selected, count, keys.drop_last());
    }
}

/// Every setup key keeps the settings together.
proof fn lemma_setup_step_wf(m: ControlsModel, key: Key)
    requires
        controls_wf(m),
        m.overlay is Setup,
    ensures
        controls_wf(setup_step(m, key).0),
        setup_step(m, key).0.backup == m.backup,
        setup_step(m, key).0.bot_count == m.bot_count,
{
    let next = setup_step(m, key).0;
    if (key is Left || key is Right) && m.seats.len() > 0 {
        let cursor = setup_cursor(m) as int;
        let kinds = (m.bot_count + 1) as usize;
        let kind = cycled(m.seats[cursor], kinds, key is Right);
        assert(kind_index_spec(kind) <= m.bot_count);
        assert forall|i: int| 0 <= i < next.seats.len() implies kind_index_spec(#[trigger] next.seats[i]) <= m.bot_count by {
            if i != cursor {
                assert(next.seats[i] == m.seats[i]);
            }
        }
    }
}

/// Setup keys other than Enter and Escape keep the modal open and the seats
/// to restore untouched.
proof fn lemma_setup_edits(m: ControlsModel, edits: Seq<Key>)
    requires
        controls_wf(m),
        m.overlay is Setup,
        forall|i: int| 0 <= i < edits.len() ==> !(#[trigger] edits[i] is Enter) && !(edits[i] is Escape),
    ensures
        controls_wf(setup_run(m, edits)),
        setup_run(m, edits).overlay is Setup,
        setup_run(m, edits).backup == m.backup,
    decreases edits.len(),
{
    if edits.len() > 0 {
        let rest = edits.drop_last();
        assert forall|i: int| 0 <= i < rest.len() implies !(#[trigger] rest[i] is Enter) && !(rest[i] is Escape) by {
            assert(rest[i] == edits[i]);
        }
        lemma_setup_edits(m, rest);
        let prev = setup_run(m, rest);
        lemma_setup_step_wf(prev, edits.last());
        assert(!(edits.last() is Enter) && !(edits.last() is Escape)) by {
            assert(edits.last() == edits[edits.len() - 1]);
        }
    }
}

/// Cancelling the setup modal discards its edits: open it with `c`, change
/// seats in any way, press Escape, and the seats are as they were, with the
/// live dashboard back in front.
pub proof fn lemma_cancel_discards_edits(m: ControlsModel, log_len: usize, edits: Seq<Key>)
    requires
        controls_wf(m),
        m.overlay is Live,
        forall|i: int| 0 <= i < edits.len() ==> !(#[trigger] edits[i] is Enter) && !(edits[i] is Escape),
    ensures
        ({
            let opened = control_step(m, Key::Char('c'), log_len).0;
            let closed = setup_run(opened, edits.push(Key::Escape));
            closed.seats == m.seats && closed.overlay is Live
        }),
{
    let opened = control_step(m, Key::Char('c'), log_len).0;
    assert(controls_wf(opened));
    lemma_setup_edits(opened, edits);
    assert(edits.push(Key::Escape).drop_last() =~= edits);
}

/// A value below twice the modulus wraps around it at most once.
proof fn lemma_mod_wrap(x: int, m: int)
    requires
        0 < m,
        0 <= x < 2 * m,
    ensures
        x % m == if x < m { x } else { x - m },
{
    if x < m {
        vstd::arithmetic::div_mod::lemma_small_mod(x as nat, m as nat);
    } else {
        vstd::arithmetic::div_mod::lemma_small_mod((x - m) as nat, m as nat);
        vstd::arithmetic::div_mod::lemma_mod_sub_multiples_vanish(x, m);
    }
}

/// Moving the menu highlight down and then up, or up and then down, puts it
/// back where it was.
pub proof fn lemma_menu_moves_undo(selected: usize, count: usize)
    requires
        selected < count,
    ensures
        menu_key(menu_key(selected, count, Key::Down), count, Key::Up) == selected,
        menu_key(menu_key(selected, count, Key::Up), count, Key::Down) == selected,
{
    lemma_mod_wrap(selected + 1, count as int);
    if selected == 0 {
        lemma_mod_wrap(count as int, count as int);
    } else {
        lemma_mod_wrap(selected as int, count as int);
    }
}

/// In the setup modal, cycling the seat under the cursor forward and then
/// back (or back and then forward) restores the seats.
pub proof fn lemma_kind_cycle_undo(m: ControlsModel)
    requires
        controls_wf(m),
        m.overlay is Setup,
        m.seats.len() > 0,
    ensures
        setup_step(setup_step(m, Key::Right).0, Key::Left).0.seats == m.seats,
        setup_step(setup_step(m, Key::Left).0, Key::Right).0.seats == m.seats,
{
    let cursor = setup_cursor(m) as int;
    let kinds = (m.bot_count + 1) as usize;
    let k = kind_index_spec(m.seats[cursor]);
    let right = setup_step(m, Key::Right).0;
    assert(setup_cursor(right) == setup_cursor(m));
    lemma_mod_wrap(k + 1, kinds as int);
    lemma_mod_wrap(k + kinds - 1, kinds as int);
    let fwd = (k + 1) % (kinds as int);
    lemma_mod_wrap(fwd + kinds - 1, kinds as int);
    assert(kind_index_spec(index_kind_spec(fwd as usize)) == fwd);
    assert((fwd + kinds - 1) % (kinds as int) == k);
    assert(index_kind_spec(k as usize) == m.seats[cursor]);
    assert(setup_step(right, Key::Left).0.seats =~= m.seats);
    let left = setup_step(m, Key::Left).0;
    assert(setup_cursor(left) == setup_cursor(m));
    let back = (k + kinds - 1) % (kinds as int);
    lemma_mod_wrap(back + 1, kinds as int);
    assert(kind_index_spec(index_kind_spec(back as usize)) == back);
    assert((back + 1) % (kinds as int) == k);
    assert(setup_step(left, Key::Right).0.seats =~= m.seats);
}

/// A scrolled-back log stays on the same lines as new lines arrive: while
/// the offset fits, the newest visible line is the same after anchoring.
pub proof fn lemma_anchor_keeps_lines(m: ControlsModel, log_len: usize)
    requires
        m.log_scroll > 0,
        m.log_len_seen <= log_len,
        m.log_scroll + (log_len - m.log_len_seen) <= max_log_scroll(log_len, m.log_rows),
    ensures
        log_len - anchored(m, log_len).log_scroll == m.log_len_seen - m.log_scroll,
{
}

/// Moves the highlight of an action menu with `count` actions by a frame's
/// keys; returns the new highlight and, if Enter was pressed and there is an
/// action, the index of the chosen one.
pub fn menu_select(selected: usize, count: usize, keys: &[Key]) -> (r: (usize, Option<usize>))
    ensures
        r == menu_frame(selected, count, keys@),
        r.1 matches Some(i) ==> i < count,
{
    let mut sel = selected;
    if count > 0 && sel > count - 1 {
        sel = count - 1;
    }
    let ghost start = sel;
    let mut confirm = false;
    let mut i: usize = 0;
    while i < keys.len()
        invariant
            i <= keys@.len(),
            start == (if count > 0 { min_usize(selected, (count - 1) as usize) } else { selected }),
            sel == menu_keys(start, count, keys@.take(i as int)),
            count > 0 ==> sel < count,
            confirm <==> exists|j: int| 0 <= j < i && #[trigger] keys@[j] is Enter,
        decreases keys@.len() - i,
    {
        assert(keys@.take(i + 1).drop_last() =~= keys@.take(i as int));
        match keys[i] {
            Key::Up => {
                if count > 0 {
                    sel = if sel == 0 { count - 1 } else { sel - 1 };
                }
            },
            Key::Down => {
                if count > 0 {
                    sel = (sel + 1) % count;
                }
            },
            Key::Enter => {
                confirm = true;
            },
            _ => {},
        }
        i = i + 1;
    }
    assert(keys@.take(keys@.len() as int) =~= keys@);
    if confirm && count > 0 {
        (0, Some(sel))
    } else {
        (sel, None)
    }
}

/// How many log lines one notch of the mouse wheel scrolls.
pub const WHEEL_LINES: usize = 3;

/// A mouse event, as far as the dashboard tells them apart; positions are
/// terminal cells.
#[derive(Clone, Copy, PartialEq, Eq, Debug)]
pub enum Pointer {
    /// One notch of the wheel away from the user: further into the past.
    WheelUp,
    /// One notch of the wheel toward the user: back toward the newest line.
    WheelDown,
    /// A button pressed at a cell.
    Press { x: u16, y: u16 },
    /// The pointer moved to a cell with a button held.
    Drag { x: u16, y: u16 },
    /// The button released.
    Release,
    /// Any other mouse event, which the dashboard ignores.
    Other,
}

/// Whether a cell is on the log's scrollbar: the rightmost column of the log
/// strip.
pub open spec fn on_scrollbar(log: Panel, x: u16, y: u16) -> bool {
    &&& log.width > 0
    &&& log.height > 0
    &&& x == log.x + log.width - 1
    &&& log.y <= y < log.y + log.height
}

/// The log offset a scrollbar row stands for, with the log able to scroll
/// back at most `max` lines: the top row the oldest view (`max`), the bottom
/// row the newest (0), in proportion between; rows above or below the bar
/// count as its ends.
pub open spec fn bar_offset(max: usize, log: Panel, y: u16) -> usize {
    let rows = log.height as int;
    let r = if y < log.y { 0 } else if y - log.y >= rows { rows - 1 } else { y - log.y };
    if rows <= 1 {
        0
    } else {
        ((max * (rows - 1 - r)) / (rows - 1)) as usize
    }
}

/// One mouse event on the live dashboard, with `len` lines in the log shown
/// in `log`: the wheel scrolls the log [`WHEEL_LINES`] at a time, a press on
/// the scrollbar jumps to the matching place and starts a drag, a drag moves
/// the view along while it lasts, and a release ends it.
pub open spec fn pointer_step(m: ControlsModel, event: Pointer, len: usize, log: Panel) -> ControlsModel {
    match event {
        Pointer::WheelUp => ControlsModel { log_scroll: scrolled_back(m, WHEEL_LINES, len), ..m },
        Pointer::WheelDown => ControlsModel { log_scroll: m.log_scroll.saturating_sub(WHEEL_LINES), ..m },
        Pointer::Press { x, y } => if on_scrollbar(log, x, y) {
            ControlsModel { dragging: true, log_scroll: bar_offset(max_log_scroll(len, m.log_rows), log, y), ..m }
        } else {
            m
        },
        Pointer::Drag { x, y } => if m.dragging {
            ControlsModel { log_scroll: bar_offset(max_log_scroll(len, m.log_rows), log, y), ..m }
        } else {
            m
        },
        Pointer::Release => ControlsModel { dragging: false, ..m },
        Pointer::Other => m,
    }
}

/// A click at a cell on a `count`-action menu drawn in `menu` with
/// `selected` highlighted: a click on a row selects its action, and a click
/// on the already highlighted row plays it (the highlight then goes back to
/// the top). The new highlight and the action played, if any.
pub open spec fn menu_click_spec(selected: usize, count: usize, menu: Panel, x: u16, y: u16) -> (usize, Option<usize>) {
    let sel = if selected < count { selected } else { (count - 1) as usize };
    let shown = if (menu.height as int) < count { menu.height as int } else { count as int };
    let row = y - menu.y;
    if count == 0 || !(menu.x <= x < menu.x + menu.width) || !(menu.y <= y) || row >= shown {
        (selected, None)
    } else {
        let item = window_start(count, menu.height as usize, sel) + row;
        if item == sel {
            (0, Some(sel))
        } else {
            (item as usize, None)
        }
    }
}

/// A click on a menu row highlights that row's action, and a click on the
/// row where the highlighted action is drawn plays it.
pub proof fn lemma_click_selects_then_plays(selected: usize, count: usize, menu: Panel, x: u16, row: u16)
    requires
        selected < count,
        menu.height > 0,
        menu.x <= x < menu.x + menu.width,
        menu.y + row <= u16::MAX,
    ensures
        ({
            let start = window_start(count, menu.height as usize, selected);
            let shown = if (menu.height as int) < count { menu.height as int } else { count as int };
            &&& row < shown ==> {
                let (sel, pick) = menu_click_spec(selected, count, menu, x, (menu.y + row) as u16);
                if start + row == selected { sel == 0 && pick == Some(selected) } else { sel == start + row && pick is None }
            }
            &&& 0 <= selected - start < shown
            &&& menu.y + (selected - start) <= u16::MAX ==>
                menu_click_spec(selected, count, menu, x, (menu.y + (selected - start)) as u16) == (0usize, Some(selected))
        }),
{
}

/// The scrollbar's ends are the log's ends: its top row shows the oldest
/// view and its bottom row the newest.
pub proof fn lemma_scrollbar_ends(max: usize, log: Panel)
    requires
        log.height >= 2,
        log.y + log.height <= u16::MAX + 1,
    ensures
        bar_offset(max, log, log.y) == max,
        bar_offset(max, log, (log.y + log.height - 1) as u16) == 0,
{
    let rows = log.height as int;
    assert((max * (rows - 1)) / (rows - 1) == max) by (nonlinear_arith)
        requires
            rows >= 2,
    {
        vstd::arithmetic::div_mod::lemma_div_by_multiple(max as int, rows - 1);
    }
    assert((max * 0) / (rows - 1) == 0) by (nonlinear_arith)
        requires
            rows >= 2,
    ;
}

/// The scrollbar offset of row `y` (see [`bar_offset`]).
fn bar_offset_of(max: usize, log: Panel, y: u16) -> (o: usize)
    ensures
        o == bar_offset(max, log, y),
        o <= max,
{
    let rows = log.height;
    if rows <= 1 {
        return 0;
    }
    let r: u16 = if y < log.y { 0 } else if y - log.y >= rows { rows - 1 } else { y - log.y };
    let span = (rows - 1) as u128;
    let part = (rows - 1 - r) as u128;
    let wide = max as u128;
    assert(wide * part <= 0xFFFF_FFFF_FFFF_FFFFu128 * 0xFFFFu128) by (nonlinear_arith)
        requires
            wide <= 0xFFFF_FFFF_FFFF_FFFFu128,
            part <= 0xFFFFu128,
    ;
    let o = wide * part / span;
    proof {
        assert((wide as int) * (part as int) / (span as int) <= wide) by (nonlinear_arith)
            requires
                0 < span,
                part <= span,
        {
            assert((wide as int) * (part as int) <= (wide as int) * (span as int));
            vstd::arithmetic::div_mod::lemma_div_is_ordered((wide as int) * (part as int), (wide as int) * (span as int), span as int);
            vstd::arithmetic::div_mod::lemma_div_by_multiple(wide as int, span as int);
        }
    }
    o as usize
}

/// What the plain dashboard does in a frame.
#[derive(Clone, Copy, PartialEq, Eq, Debug)]
pub enum RunnerStep {
    /// Close the dashboard.
    Exit,
    /// This human seat acts through the action menu.
    Menu(PlayerId),
    /// Let the AI clock run, stepping a bot when it is due.
    Tick,
    /// Keep showing the finished match.
    Hold,
}

/// Whether `key` is among `keys`.
pub open spec fn pressed(keys: Seq<Key>, key: Key) -> bool {
    exists|i: int| 0 <= i < keys.len() && keys[i] == key
}

/// The plain dashboard's frame: Escape closes it at any time, and Enter
/// closes it once the match is over (which otherwise stays on screen); a live
/// match waits on the human seat `awaiting` or runs the AI clock.
pub open spec fn runner_spec(over: bool, awaiting: Option<PlayerId>, keys: Seq<Key>) -> RunnerStep {
    if pressed(keys, Key::Escape) || (over && pressed(keys, Key::Enter)) {
        RunnerStep::Exit
    } else if over {
        RunnerStep::Hold
    } else {
        match awaiting {
            Some(p) => RunnerStep::Menu(p),
            None => RunnerStep::Tick,
        }
    }
}

/// Decides the plain dashboard's frame from a frame's keys, whether the
/// match is `over`, and the human seat `awaiting` a decision. It closes
/// exactly when Escape was pressed, or the match is over and Enter was.
pub fn runner_step(over: bool, awaiting: Option<PlayerId>, keys: &[Key]) -> (s: RunnerStep)
    ensures
        s == runner_spec(over, awaiting, keys@),
        (s == RunnerStep::Exit) <==> (pressed(keys@, Key::Escape) || (over && pressed(keys@, Key::Enter))),
{
    let mut escape = false;
    let mut enter = false;
    let mut i: usize = 0;
    while i < keys.len()
        invariant
            i <= keys@.len(),
            escape <==> exists|j: int| 0 <= j < i && keys@[j] == Key::Escape,
            enter <==> exists|j: int| 0 <= j < i && keys@[j] == Key::Enter,
        decreases keys@.len() - i,
    {
        match keys[i] {
            Key::Escape => {
                escape = true;
            },
            Key::Enter => {
                enter = true;
            },
            _ => {},
        }
        i = i + 1;
    }
    if escape || (over && enter) {
        RunnerStep::Exit
    } else if over {
        RunnerStep::Hold
    } else {
        match awaiting {
            Some(p) => RunnerStep::Menu(p),
            None => RunnerStep::Tick,
        }
    }
}

/// The settings of an interactive match dashboard, changed only by the key
/// presses and match events it is handed.
pub struct SessionControls {
    seats: Vec<SeatKind>,
    backup: Vec<SeatKind>,
    bot_count: usize,
    seed: u64,
    auto: bool,
    paused: bool,
    speed: usize,
    viewer: Option<PlayerId>,
    selected: usize,
    log_scroll: usize,
    log_rows: usize,
    log_len_seen: usize,
    overlay: Overlay,
    exit: bool,
    dragging: bool,
}

impl View for SessionControls {
    type V = ControlsModel;

    closed spec fn view(&self) -> ControlsModel {
        ControlsModel {
            seats: self.seats@,
            backup: self.backup@,
            bot_count: self.bot_count,
            seed: self.seed,
            auto: self.auto,
            paused: self.paused,
            speed: self.speed,
            viewer: self.viewer,
            selected: self.selected,
            log_scroll: self.log_scroll,
            log_rows: self.log_rows,
            log_len_seen: self.log_len_seen,
            overlay: self.overlay,
            exit: self.exit,
            dragging: self.dragging,
        }
    }
}

impl SessionControls {
    /// The settings hold together (see [`controls_wf`]).
    pub open spec fn wf(&self) -> bool {
        controls_wf(self@)
    }

    /// A dashboard for `num_seats` seats, each played by the first of
    /// `bot_count` AI types, in Auto mode, seeded from `seed`.
    pub fn new(num_seats: usize, bot_count: usize, seed: u64) -> (c: SessionControls)
        requires
            num_seats <= u32::MAX,
            1 <= bot_count,
            2 * (bot_count + 1) <= usize::MAX,
        ensures
            c@ == initial_controls(num_seats as nat, bot_count, seed),
            c.wf(),
    {
        let mut seats: Vec<SeatKind> = Vec::new();
        let mut i: usize = 0;
        while i < num_seats
            invariant
                i <= num_seats,
                seats@ =~= Seq::new(i as nat, |k: int| SeatKind::Ai(0)),
            decreases num_seats - i,
        {
            seats.push(SeatKind::Ai(0));
            i = i + 1;
        }
        let viewer = viewer_for(&seats, first_human(&seats));
        let backup = seats.clone();
        proof {
            assert(backup@ =~= seats@);
        }
        SessionControls {
            seats,
            backup,
            bot_count,
            seed,
            auto: true,
            paused: false,
            speed: DEFAULT_SPEED,
            viewer,
            selected: 0,
            log_scroll: 0,
            log_rows: 1,
            log_len_seen: 0,
            overlay: Overlay::Live,
            exit: false,
            dragging: false,
        }
    }

    /// The match bookkeeping after the match is built again.
    fn rebuild(&mut self)
        requires
            controls_wf(old(self)@),
        ensures
            final(self)@ == rebuilt(old(self)@),
            controls_wf(final(self)@),
    {
        self.viewer = viewer_for(&self.seats, first_human(&self.seats));
        if let Overlay::Handoff(_) = self.overlay {
            self.overlay = Overlay::Live;
        }
        self.selected = 0;
        self.paused = false;
        self.log_scroll = 0;
        self.log_len_seen = 0;
    }

    /// Marks `seat` human (it plays through the action menu) and asks for a
    /// rebuild; a seat out of range is ignored.
    pub fn with_human_seat(&mut self, seat: usize) -> (c: Command)
        requires
            old(self).wf(),
        ensures
            final(self).wf(),
            seat < old(self)@.seats.len() ==> {
                &&& final(self)@ == rebuilt((ControlsModel { seats: old(self)@.seats.update(seat as int, SeatKind::Human), ..old(self)@ }))
                &&& c == Command::Rebuild
            },
            seat >= old(self)@.seats.len() ==> final(self)@ == old(self)@ && c == Command::Nothing,
    {
        if seat < self.seats.len() {
            self.seats.set(seat, SeatKind::Human);
            self.rebuild();
            Command::Rebuild
        } else {
            Command::Nothing
        }
    }

    /// Opens the setup modal (keeping the seats to restore on cancel), or
    /// closes whatever is in front.
    pub fn with_setup_open(&mut self, open: bool)
        requires
            old(self).wf(),
        ensures
            final(self).wf(),
            open ==> final(self)@ == (ControlsModel { backup: old(self)@.seats, overlay: Overlay::Setup(0), ..old(self)@ }),
            !open ==> final(self)@ == (ControlsModel { overlay: Overlay::Live, ..old(self)@ }),
    {
        if open {
            self.backup = self.seats.clone();
            proof {
                assert(self.backup@ =~= self.seats@);
            }
            self.overlay = Overlay::Setup(0);
        } else {
            self.overlay = Overlay::Live;
        }
    }

    /// Switches to Step mode: one decision per Space.
    pub fn with_step_mode(&mut self)
        requires
            old(self).wf(),
        ensures
            final(self).wf(),
            final(self)@ == (ControlsModel { auto: false, ..old(self)@ }),
    {
        self.auto = false;
    }

    /// Applies one key of the live dashboard, with `log_len` lines in the log.
    pub fn control_key(&mut self, key: Key, log_len: usize) -> (c: Command)
        requires
            old(self).wf(),
        ensures
            final(self).wf(),
            final(self)@ == control_step(old(self)@, key, log_len).0,
            c == control_step(old(self)@, key, log_len).1,
    {
        let page = if self.log_rows >= 1 { self.log_rows } else { 1 };
        let max_scroll = log_len.saturating_sub(page);
        match key {
            Key::Escape => {
                self.exit = true;
                Command::Nothing
            },
            Key::Tab => {
                self.auto = !self.auto;
                self.paused = false;
                Command::RestartClock
            },
            Key::PageUp => {
                let back = self.log_scroll.saturating_add(page);
                self.log_scroll = if back <= max_scroll { back } else { max_scroll };
                Command::Nothing
            },
            Key::PageDown => {
                self.log_scroll = self.log_scroll.saturating_sub(page);
                Command::Nothing
            },
            Key::Home => {
                let back = self.log_scroll.saturating_add(usize::MAX);
                self.log_scroll = if back <= max_scroll { back } else { max_scroll };
                Command::Nothing
            },
            Key::End => {
                self.log_scroll = 0;
                Command::Nothing
            },
            Key::Char(ch) => self.char_key(ch),
            _ => Command::Nothing,
        }
    }

    /// Applies a printable key of the live dashboard.
    fn char_key(&mut self, ch: char) -> (c: Command)
        requires
            controls_wf(old(self)@),
        ensures
            controls_wf(final(self)@),
            final(self)@ == char_step(old(self)@, ch).0,
            c == char_step(old(self)@, ch).1,
    {
        if ch == 'c' || ch == 'C' {
            self.backup = self.seats.clone();
            proof {
                assert(self.backup@ =~= self.seats@);
            }
            self.overlay = Overlay::Setup(0);
            Command::Nothing
        } else if ch == 'r' || ch == 'R' {
            self.seed = if self.seed == u64::MAX { 0 } else { self.seed + 1 };
            self.rebuild();
            Command::Rebuild
        } else if ch == 'm' || ch == 'M' {
            self.auto = !self.auto;
            self.paused = false;
            Command::RestartClock
        } else if ch == 'p' || ch == 'P' {
            if self.auto {
                self.paused = !self.paused;
            }
            Command::Nothing
        } else if ch == '+' || ch == '=' {
            let faster = self.speed + 1;
            self.speed = if faster <= SPEED_COUNT - 1 { faster } else { SPEED_COUNT - 1 };
            Command::Nothing
        } else if ch == '-' || ch == '_' {
            self.speed = self.speed.saturating_sub(1);
            Command::Nothing
        } else if ch == '?' || ch == 'h' || ch == 'H' {
            self.overlay = Overlay::Help;
            Command::Nothing
        } else if ch == ' ' {
            Command::StepOnce
        } else {
            Command::Nothing
        }
    }

    /// Applies one key of the setup modal.
    pub fn setup_key(&mut self, key: Key) -> (c: Command)
        requires
            old(self).wf(),
            old(self)@.overlay is Setup,
            (key is Left || key is Right) ==> old(self)@.seats.len() > 0,
        ensures
            final(self).wf(),
            final(self)@ == setup_step(old(self)@, key).0,
            c == setup_step(old(self)@, key).1,
    {
        let n = self.seats.len();
        let kinds = self.bot_count + 1;
        let mut cursor = match self.overlay {
            Overlay::Setup(c) => c,
            _ => 0,
        };
        if n == 0 {
            cursor = 0;
        } else if cursor > n - 1 {
            cursor = n - 1;
        }
        match key {
            Key::Up => {
                if n > 0 {
                    cursor = if cursor == 0 { n - 1 } else { cursor - 1 };
                }
                self.overlay = Overlay::Setup(cursor);
                Command::Nothing
            },
            Key::Down => {
                if n > 0 {
                    cursor = (cursor + 1) % n;
                }
                self.overlay = Overlay::Setup(cursor);
                Command::Nothing
            },
            Key::Left => {
                let current = kind_index(self.seats[cursor]);
                self.seats.set(cursor, index_kind((current + kinds - 1) % kinds));
                self.overlay = Overlay::Setup(cursor);
                Command::Nothing
            },
            Key::Right => {
                let current = kind_index(self.seats[cursor]);
                self.seats.set(cursor, index_kind((current + 1) % kinds));
                self.overlay = Overlay::Setup(cursor);
                Command::Nothing
            },
            Key::Enter => {
                self.overlay = Overlay::Live;
                self.rebuild();
                Command::Rebuild
            },
            Key::Escape => {
                self.seats = self.backup.clone();
                proof {
                    assert(self.seats@ =~= self.backup@);
                }
                self.overlay = Overlay::Live;
                Command::Nothing
            },
            _ => {
                self.overlay = Overlay::Setup(cursor);
                Command::Nothing
            },
        }
    }

    /// Applies one key while the help card is up.
    pub fn help_key(&mut self, key: Key)
        requires
            old(self).wf(),
        ensures
            final(self).wf(),
            final(self)@ == help_step(old(self)@, key),
            final(self)@.exit == old(self)@.exit,
            key is Escape ==> final(self)@.overlay is Live,
            final(self)@ == (ControlsModel { overlay: final(self)@.overlay, ..old(self)@ }),
    {
        let closes = match key {
            Key::Escape => true,
            Key::Char(ch) => ch == '?' || ch == 'h' || ch == 'H',
            _ => false,
        };
        if closes {
            self.overlay = Overlay::Live;
        }
    }

    /// Applies one key while a device handoff to `seat` is pending: the
    /// viewer changes only to `seat`, and only on Enter.
    pub fn handoff_key(&mut self, seat: PlayerId, key: Key)
        requires
            old(self).wf(),
        ensures
            final(self).wf(),
            final(self)@ == handoff_step(old(self)@, seat, key),
            final(self)@.viewer != old(self)@.viewer ==> key is Enter && final(self)@.viewer == Some(seat),
    {
        match key {
            Key::Enter => {
                self.viewer = Some(seat);
                self.overlay = Overlay::Live;
            },
            Key::Escape => {
                self.exit = true;
            },
            _ => {},
        }
    }

    /// The help card never quits the dashboard: whatever key is pressed while
/// it is up, the exit flag stays as it was, Escape closes the card back to
/// the live dashboard, and nothing but the overlay ever changes.
pub proof fn lemma_help_card_never_quits(m: ControlsModel, key: Key)
    ensures
        help_step(m, key).exit == m.exit,
        key is Escape ==> help_step(m, key).overlay is Live,
        help_step(m, key) == (ControlsModel { overlay: help_step(m, key).overlay, ..m }),
{
}

/// Whether showing `player`'s action menu now would reveal one human's
    /// private view to another.
    pub fn reveal_gated(&self, player: PlayerId) -> (b: bool)
        ensures
            b == reveal_gated_spec(self@, player),
    {
        let showing = match self.viewer {
            Some(v) => v.index() == player.index(),
            None => false,
        };
        crate::seats::count_humans(&self.seats) >= 2 && !showing
    }

    /// Decides what the live dashboard does with the match once a frame's
    /// keys are handled: `terminal` is whether the match is over, `awaiting`
    /// the human seat owed a decision. A human's menu is never shown while
    /// the board shows another human's seat: a handoff is opened instead.
    pub fn next_turn(&mut self, terminal: bool, awaiting: Option<PlayerId>) -> (t: TurnStep)
        requires
            old(self).wf(),
        ensures
            final(self).wf(),
            final(self)@ == turn_step(old(self)@, terminal, awaiting).0,
            t == turn_step(old(self)@, terminal, awaiting).1,
            t matches TurnStep::Menu(p) ==> human_count(final(self)@.seats) < 2 || final(self)@.viewer == Some(p),
            t is Tick <==> (!old(self)@.exit && old(self)@.overlay is Live && !terminal && awaiting is None
                && old(self)@.auto && !old(self)@.paused),
    {
        if !self.exit && !terminal {
            if let Overlay::Live = self.overlay {
                match awaiting {
                    Some(p) => {
                        if self.reveal_gated(p) {
                            self.overlay = Overlay::Handoff(p);
                            return TurnStep::Wait;
                        } else {
                            return TurnStep::Menu(p);
                        }
                    },
                    None => {
                        return if self.auto && !self.paused { TurnStep::Tick } else { TurnStep::Wait };
                    },
                }
            }
        }
        TurnStep::Wait
    }

    /// Moves the action-menu highlight by a frame's keys, with `count`
    /// actions on offer; returns the index of the chosen action, if one was.
    pub fn menu(&mut self, count: usize, keys: &[Key]) -> (pick: Option<usize>)
        requires
            old(self).wf(),
        ensures
            final(self).wf(),
            final(self)@ == (ControlsModel { selected: menu_frame(old(self)@.selected, count, keys@).0, ..old(self)@ }),
            pick == menu_frame(old(self)@.selected, count, keys@).1,
            pick matches Some(i) ==> i < count,
    {
        let (selected, pick) = menu_select(self.selected, count, keys);
        self.selected = selected;
        pick
    }

    /// Keeps a scrolled-back log on the same lines as new lines arrive, then
    /// clamps the offset to what fits; `log_len` is the log's length now.
    pub fn anchor_log(&mut self, log_len: usize)
        requires
            old(self).wf(),
        ensures
            final(self).wf(),
            final(self)@ == anchored(old(self)@, log_len),
            final(self)@.log_scroll <= max_log_scroll(log_len, final(self)@.log_rows),
    {
        let grown = log_len.saturating_sub(self.log_len_seen);
        if self.log_scroll > 0 {
            self.log_scroll = self.log_scroll.saturating_add(grown);
        }
        self.log_len_seen = log_len;
        let max_scroll = log_len.saturating_sub(self.log_rows);
        if self.log_scroll > max_scroll {
            self.log_scroll = max_scroll;
        }
    }

    /// Applies one mouse event of the live dashboard, with `log_len` lines in
    /// the log and the log strip drawn in `log`.
    pub fn pointer(&mut self, event: Pointer, log_len: usize, log: Panel)
        requires
            old(self).wf(),
        ensures
            final(self).wf(),
            final(self)@ == pointer_step(old(self)@, event, log_len, log),
    {
        let page = if self.log_rows >= 1 { self.log_rows } else { 1 };
        let max_scroll = log_len.saturating_sub(page);
        match event {
            Pointer::WheelUp => {
                let back = self.log_scroll.saturating_add(WHEEL_LINES);
                self.log_scroll = if back <= max_scroll { back } else { max_scroll };
            },
            Pointer::WheelDown => {
                self.log_scroll = self.log_scroll.saturating_sub(WHEEL_LINES);
            },
            Pointer::Press { x, y } => {
                let on_bar = log.width > 0 && log.height > 0 && x >= log.x && x - log.x == log.width - 1
                    && log.y <= y && (y - log.y) < log.height;
                if on_bar {
                    self.dragging = true;
                    self.log_scroll = bar_offset_of(max_scroll, log, y);
                }
            },
            Pointer::Drag { x: _, y } => {
                if self.dragging {
                    self.log_scroll = bar_offset_of(max_scroll, log, y);
                }
            },
            Pointer::Release => {
                self.dragging = false;
            },
            Pointer::Other => {},
        }
    }

    /// Applies a click at a cell of the action menu, with `count` actions
    /// drawn in `menu`; returns the index of the action played, if one was.
    pub fn menu_click(&mut self, count: usize, menu: Panel, x: u16, y: u16) -> (pick: Option<usize>)
        requires
            old(self).wf(),
        ensures
            final(self).wf(),
            final(self)@ == (ControlsModel { selected: menu_click_spec(old(self)@.selected, count, menu, x, y).0, ..old(self)@ }),
            pick == menu_click_spec(old(self)@.selected, count, menu, x, y).1,
            pick matches Some(i) ==> i < count,
    {
        if count == 0 || x < menu.x || x - menu.x >= menu.width || y < menu.y {
            return None;
        }
        let row = (y - menu.y) as usize;
        let shown = if (menu.height as usize) < count { menu.height as usize } else { count };
        if row >= shown {
            return None;
        }
        let sel = if self.selected < count { self.selected } else { count - 1 };
        let window = menu_window(count, menu.height as usize, sel);
        match window {
            Some((start, _end, _)) => {
                let item = start + row;
                if item == sel {
                    self.selected = 0;
                    Some(sel)
                } else {
                    self.selected = item;
                    None
                }
            },
            None => None,
        }
    }

    /// Records how many log rows the last frame showed (at least one).
    pub fn set_log_rows(&mut self, rows: usize)
        requires
            old(self).wf(),
        ensures
            final(self).wf(),
            final(self)@ == (ControlsModel { log_rows: if rows >= 1 { rows } else { 1 }, ..old(self)@ }),
    {
        self.log_rows = if rows >= 1 { rows } else { 1 };
    }

    /// Whether the match is over with the live dashboard in front (so a
    /// harness can restart), given whether the match is over.
    pub fn is_done(&self, terminal: bool) -> (b: bool)
        ensures
            b == (self@.overlay is Live && terminal),
    {
        if let Overlay::Live = self.overlay { terminal } else { false }
    }

    /// Who controls each seat.
    pub fn seats(&self) -> (s: &[SeatKind])
        ensures
            s@ == self@.seats,
    {
        self.seats.as_slice()
    }

    /// The match seed.
    pub fn seed(&self) -> (s: u64)
        ensures
            s == self@.seed,
    {
        self.seed
    }

    /// Auto mode rather than Step mode.
    pub fn auto(&self) -> (b: bool)
        ensures
            b == self@.auto,
    {
        self.auto
    }

    /// Auto mode is paused.
    pub fn paused(&self) -> (b: bool)
        ensures
            b == self@.paused,
    {
        self.paused
    }

    /// The Auto-mode speed, from 0 (slowest).
    pub fn speed(&self) -> (s: usize)
        ensures
            s == self@.speed,
            self.wf() ==> s < SPEED_COUNT,
    {
        self.speed
    }

    /// The seat whose view the board shows; `None` is a spectator.
    pub fn viewer(&self) -> (v: Option<PlayerId>)
        ensures
            v == self@.viewer,
    {
        self.viewer
    }

    /// The highlighted row of the action menu.
    pub fn selected(&self) -> (s: usize)
        ensures
            s == self@.selected,
    {
        self.selected
    }

    /// How many lines the log is scrolled back from its newest line.
    pub fn log_scroll(&self) -> (s: usize)
        ensures
            s == self@.log_scroll,
    {
        self.log_scroll
    }

    /// How many log rows the last frame showed.
    pub fn log_rows(&self) -> (r: usize)
        ensures
            r == self@.log_rows,
    {
        self.log_rows
    }

    /// What is in front of the dashboard.
    pub fn overlay(&self) -> (o: Overlay)
        ensures
            o == self@.overlay,
    {
        self.overlay
    }

    /// Whether the dashboard is to close.
    pub fn exit(&self) -> (b: bool)
        ensures
            b == self@.exit,
    {
        self.exit
    }
}

} // verus!
