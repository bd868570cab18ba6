//! The bot's chat commands.

pub mod configure;
pub mod general;
