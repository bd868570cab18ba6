//! The configuration the bot starts with.

use crate::config::server::{config_or_fresh, Channels, ChannelsView, ConfigView, Table, Verify};
use std::collections::HashMap;
use vstd::prelude::*;

verus! {

/// The server the bot is set up for at start.
pub const TRANS_GUILD: u64 = 527575883603509248;

pub const TRANS_INTRODUCTION: u64 = 527581457279877131;

pub const TRANS_JAIL: u64 = 796061859659776041;

pub const TRANS_LOG: u64 = 796242938769571890;

pub const TRANS_ROLE: u64 = 611966830034026496;

pub const TRANS_VERIFY: u64 = 718170301682417754;

pub const TRANS_WELCOME: u64 = 807718099235241994;

pub const TRANS_VERIFIED_ROLE: u64 = 528098139044053002;

pub const TRANS_UNVERIFIED_ROLE: u64 = 836752745665921044;

/// The channels and roles of the server the bot is set up for.
pub open spec fn trans_config(base: ConfigView) -> ConfigView {
    ConfigView {
        channels: ChannelsView {
            introduction: Some(TRANS_INTRODUCTION),
            jail: Some(TRANS_JAIL),
            log: Some(TRANS_LOG),
            role: Some(TRANS_ROLE),
            verify: Some(TRANS_VERIFY),
            welcome: Some(TRANS_WELCOME),
            quarantine: Map::empty(),
        },
        verify: Verify::spec_new(Some(TRANS_VERIFIED_ROLE), Some(TRANS_UNVERIFIED_ROLE), None),
        ..base
    }
}

/// Sets up the server the bot starts with: its channels, no open
/// quarantine, its verified and unverified roles with the default
/// permissions; its kept roles stay as they were.
pub fn trans_default_config(table: &mut Table)
    ensures
        final(table)@ == old(table)@.insert(
            TRANS_GUILD,
            trans_config(config_or_fresh(old(table)@, TRANS_GUILD)),
        ),
{
    let mut config = table.config_for(TRANS_GUILD);
    config.channels = Channels {
        introduction: Some(TRANS_INTRODUCTION),
        jail: Some(TRANS_JAIL),
        log: Some(TRANS_LOG),
        role: Some(TRANS_ROLE),
        verify: Some(TRANS_VERIFY),
        welcome: Some(TRANS_WELCOME),
        quarantine: HashMap::new(),
    };
    config.verify = Verify::new(Some(TRANS_VERIFIED_ROLE), Some(TRANS_UNVERIFIED_ROLE), None);
    proof {
        assert(config@ =~= trans_config(config_or_fresh(old(table)@, TRANS_GUILD)));
    }
    table.set(TRANS_GUILD, config);
}

} // verus!
