//! The fixed channels of a single server.

use crate::DataKey;
use vstd::prelude::*;

verus! {

/// The channels newcomers are pointed to.
#[derive(Clone, Copy, Debug, PartialEq, Eq, Structural)]
pub struct Channels {
    pub introductions: u64,
    pub roles: u64,
    pub welcome: u64,
}

/// Names the slot of the bot's shared data that holds the [`Channels`].
pub struct ChannelsKey;

impl DataKey for ChannelsKey {
    type Value = Channels;
}

} // verus!
