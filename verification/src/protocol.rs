//! Request/response messages shared by every client and host.
//!
//! The envelope is typed: [`Request<A>`] carries a game's action and
//! [`Response<V>`] carries a seat's view, rather than opaque bytes.
use vstd::prelude::*;

verus! {

/// Wire-format version, bumped on any breaking change to these messages.
pub const PROTOCOL_VERSION: u32 = 0u32;

/// A message from a client to whichever process holds the authoritative state.
///
/// `A` is a game's action type, carried by value.
#[derive(Debug, Clone, PartialEq, Eq)]
pub enum Request<A> {
    /// Ask for the requesting seat's current view, with no side effects.
    Query,
    /// Submit an action to apply.
    Act(A),
}

/// A message back to the client. `V` is a game's view type.
#[derive(Debug, Clone, PartialEq, Eq)]
pub enum Response<V> {
    /// A seat's current view, plus the state version it was taken at (a
    /// counter the host bumps once per applied action).
    State {
        /// The state version this view was taken at.
        version: u64,
        /// The requesting seat's view.
        view: V,
    },
    /// An action was accepted and applied; carries no state.
    Ack,
    /// The request was rejected. The message is for humans and logs.
    Error(String),
}

} // verus!
