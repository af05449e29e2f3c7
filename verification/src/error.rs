//! Engine error type.
use vstd::prelude::*;
use vstd::string::StringExecFns;

use crate::active::ActivePlayers;
use crate::player::{seat_text, PlayerId};

verus! {

/// Errors returned by the engine's checked entry points.
///
/// The in-place `apply` primitive assumes a legal action and does not return
/// errors; these surface from checked helpers, which validate before
/// mutating. More variants may be added, so match with a wildcard arm.
#[derive(Clone, Copy, PartialEq, Eq, Debug)]
#[non_exhaustive]
pub enum Error {
    /// The action is not legal for `player` in the current state.
    IllegalAction {
        /// The seat that attempted the action.
        player: PlayerId,
    },
    /// `player` is not among the active players owed a decision right now.
    NotActive {
        /// The seat that attempted to act out of turn.
        player: PlayerId,
    },
}

/// The display text of an error.
pub open spec fn error_text(e: Error) -> Seq<char> {
    match e {
        Error::IllegalAction { player } => seq!['i', 'l', 'l', 'e', 'g', 'a', 'l', ' ', 'a', 'c', 't', 'i', 'o', 'n', ' ', 'f', 'o', 'r', ' '] + seat_text(player.spec_index()),
        Error::NotActive { player } => seat_text(player.spec_index()) + seq![' ', 'i', 's', ' ', 'n', 'o', 't', ' ', 'a', 'c', 't', 'i', 'v', 'e'],
    }
}

impl Error {
    /// The error as display text, e.g. `illegal action for p1`.
    pub fn to_string(self) -> (text: String)
        ensures
            text@ == error_text(self),
    {
        match self {
            Error::IllegalAction { player } => {
                let mut text = String::from_str("illegal action for ");
                proof {
                    reveal_strlit("illegal action for ");
                }
                text.append(player.to_string().as_str());
                text
            },
            Error::NotActive { player } => {
                let mut text = player.to_string();
                proof {
                    reveal_strlit(" is not active");
                }
                text.append(" is not active");
                text
            },
        }
    }
}

/// The checks a checked entry point runs before applying `player`'s action:
/// the seat must be active, then the action must be legal for it.
///
/// `legal` is the verdict of the game's own legality rule on the action.
pub fn check_action(active: &ActivePlayers, player: PlayerId, legal: bool) -> (r: Result<(), Error>)
    ensures
        !active@.contains(player.spec_index()) ==> r == Err::<(), Error>(Error::NotActive { player }),
        active@.contains(player.spec_index()) && !legal ==> r == Err::<(), Error>(Error::IllegalAction { player }),
        active@.contains(player.spec_index()) && legal ==> r == Ok::<(), Error>(()),
{
    if !active.contains(player) {
        return Err(Error::NotActive { player });
    }
    if !legal {
        return Err(Error::IllegalAction { player });
    }
    Ok(())
}

} // verus!
