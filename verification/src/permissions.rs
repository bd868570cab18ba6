//! Discord permission sets, held as the bit field the API uses.

use vstd::prelude::*;

verus! {

/// Kick members from the server.
pub const KICK_MEMBERS: u64 = 2;

/// See a channel and read its messages.
pub const READ_MESSAGES: u64 = 1024;

/// Send messages in a channel.
pub const SEND_MESSAGES: u64 = 2048;

/// Delete or pin other members' messages.
pub const MANAGE_MESSAGES: u64 = 8192;

/// Create, edit and assign roles below one's own.
pub const MANAGE_ROLES: u64 = 268435456;

/// A set of permissions: bit `i` set grants the permission with value `1 << i`.
#[derive(Clone, Copy, Debug, PartialEq, Eq, Structural)]
pub struct Permissions {
    pub bits: u64,
}

impl Permissions {
    /// The set with the given bits.
    pub fn from_bits(bits: u64) -> (p: Permissions)
        ensures
            p.bits == bits,
    {
        Permissions { bits }
    }

    /// The set that grants nothing.
    pub fn empty() -> (p: Permissions)
        ensures
            p.bits == 0,
    {
        Permissions { bits: 0 }
    }

    /// Every permission of either set.
    pub fn union(self, other: Permissions) -> (p: Permissions)
        ensures
            p.bits == self.bits | other.bits,
    {
        Permissions { bits: self.bits | other.bits }
    }

    /// Whether every permission of `other` is also in `self`.
    pub fn contains(&self, other: Permissions) -> (b: bool)
        ensures
            b == (self.bits & other.bits == other.bits),
    {
        self.bits & other.bits == other.bits
    }

    /// What a moderator needs by default to verify newcomers: manage roles,
    /// manage messages and kick members.
    pub fn moderation() -> (p: Permissions)
        ensures
            p.bits == MANAGE_ROLES | MANAGE_MESSAGES | KICK_MEMBERS,
    {
        Permissions { bits: MANAGE_ROLES | MANAGE_MESSAGES | KICK_MEMBERS }
    }

    /// Reading and sending messages: what a quarantine channel opens or shuts.
    pub fn read_and_send() -> (p: Permissions)
        ensures
            p.bits == READ_MESSAGES | SEND_MESSAGES,
    {
        Permissions { bits: READ_MESSAGES | SEND_MESSAGES }
    }
}

/// A set contains itself, and a union contains both of its parts.
pub proof fn lemma_union_contains(a: u64, b: u64)
    ensures
        a & a == a,
        (a | b) & a == a,
        (a | b) & b == b,
{
    assert(a & a == a) by (bit_vector);
    assert((a | b) & a == a) by (bit_vector);
    assert((a | b) & b == b) by (bit_vector);
}

/// Whoever holds the default moderation set may manage roles, manage
/// messages and kick members, and holds nothing else that it requires.
pub proof fn lemma_moderation_parts()
    ensures
        (MANAGE_ROLES | MANAGE_MESSAGES | KICK_MEMBERS) & MANAGE_ROLES == MANAGE_ROLES,
        (MANAGE_ROLES | MANAGE_MESSAGES | KICK_MEMBERS) & MANAGE_MESSAGES == MANAGE_MESSAGES,
        (MANAGE_ROLES | MANAGE_MESSAGES | KICK_MEMBERS) & KICK_MEMBERS == KICK_MEMBERS,
        MANAGE_ROLES | MANAGE_MESSAGES | KICK_MEMBERS == 268443650u64,
{
    assert((268435456u64 | 8192u64 | 2u64) & 268435456u64 == 268435456u64) by (bit_vector);
    assert((268435456u64 | 8192u64 | 2u64) & 8192u64 == 8192u64) by (bit_vector);
    assert((268435456u64 | 8192u64 | 2u64) & 2u64 == 2u64) by (bit_vector);
    assert(268435456u64 | 8192u64 | 2u64 == 268443650u64) by (bit_vector);
}

impl Default for Permissions {
    /// The set that grants nothing.
    fn default() -> (p: Permissions)
        ensures
            p.bits == 0,
    {
        Permissions { bits: 0 }
    }
}

} // verus!
