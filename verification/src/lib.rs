//! Verified core of a Discord server-verification bot: the per-server
//! configuration store, the decisions taken when a moderator reacts to a
//! newcomer's message, and the text the bot writes back.

pub mod client_data;
pub mod commands;
pub mod config;
pub mod handler;
pub mod model;
pub mod permissions;
pub mod setup;
pub mod text;
pub mod verify;

use vstd::prelude::*;

verus! {

/// A marker type that names one slot of the bot's shared data, and the type
/// of the value kept there.
pub trait DataKey {
    type Value;
}

} // verus!
