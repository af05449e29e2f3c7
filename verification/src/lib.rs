//! Headless, deterministic core of a turn-based game engine.
mod active;
mod bots;
mod cli;
mod controls;
mod dashboard;
mod effects;
mod error;
mod order;
mod host;
mod pile;
mod player;
mod protocol;
mod rng;
mod seats;
mod state;
mod tree;

pub use active::ActivePlayers;
pub use bots::{Minimax, Random};
pub use cli::{demo_seat_seed, parse_choice, play_step, PlayStep, parse_seats, play_viewer, seat_seed, seed_or_random, PlayArgs, STEP_LIMIT};
pub use error::{check_action, Error};
pub use host::HostLedger;
pub use effects::{resolve_effects, EffectSystem, MAX_EFFECTS};
pub use pile::Pile;
pub use player::PlayerId;
pub use protocol::{Request, Response, PROTOCOL_VERSION};
pub use rng::{chance_seed, Prng, CHANCE_SEED_OFFSET};
pub use seats::{awaiting_human, bot_to_move, count_humans, first_human, index_kind, kind_index, lowest_seat, viewer_for, SeatKind};
pub use controls::{menu_select, Pointer, WHEEL_LINES, runner_step, turn_of, RunnerStep, Command, Key, Overlay, SessionControls, Turn, TurnStep, DEFAULT_SPEED, SPEED_COUNT};
pub use dashboard::{below_header, log_window, menu_window, scrollbar_thumb, Layout, Panel, GUTTER};
pub use state::{PlayerView, State};
pub use tree::SearchTree;
