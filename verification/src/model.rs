//! The library's own picture of a Discord server member: the plain values
//! that the verification logic reads from one.

use vstd::prelude::*;

verus! {

/// A member of a server, as the verification logic sees them.
#[derive(Debug, PartialEq, Eq)]
pub struct Member {
    /// The member's user id.
    pub user_id: u64,
    /// The user's account name.
    pub name: String,
    /// The four-digit tag that tells apart users of one name.
    pub discriminator: u16,
    /// The user's avatar hash, if they set one.
    pub avatar: Option<String>,
    /// Whether the account is a bot.
    pub bot: bool,
    /// The ids of the roles the member holds in this server.
    pub roles: Vec<u64>,
    /// When the member joined, in microseconds since the Unix epoch.
    pub joined_at: Option<i64>,
}

} // verus!
