//! The bot's shared data of an earlier layout: fixed channels, a fixed
//! verification setup, and a configuration table without quarantines.

pub mod channels;
pub mod server_configs;
pub mod verify;

pub use channels::{Channels, ChannelsKey};
pub use server_configs::Channels as _Channels;
pub use server_configs::{ServerConfig, ServerConfigKey, ServerConfigTable};
pub use verify::{Verify, VerifyKey};
