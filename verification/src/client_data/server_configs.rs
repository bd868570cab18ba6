//! Per-server configuration without quarantine channels.

use crate::model::Member;
use crate::DataKey;
use std::collections::HashMap;
use vstd::prelude::*;

pub use crate::config::server::Verify;

verus! {

/// The channels a server has assigned to the bot's tasks.
#[derive(Clone, Copy, Debug, PartialEq, Eq, Structural)]
pub struct Channels {
    pub introduction: Option<u64>,
    pub jail: Option<u64>,
    pub log: Option<u64>,
    pub role: Option<u64>,
    pub verify: Option<u64>,
    pub welcome: Option<u64>,
}

impl Channels {
    pub open spec fn unassigned() -> Channels {
        Channels {
            introduction: None,
            jail: None,
            log: None,
            role: None,
            verify: None,
            welcome: None,
        }
    }

    /// No channel assigned.
    pub fn new() -> (c: Self)
        ensures
            c == Channels::unassigned(),
    {
        Channels {
            introduction: None,
            jail: None,
            log: None,
            role: None,
            verify: None,
            welcome: None,
        }
    }
}

/// Everything the bot keeps for one server.
#[derive(Debug, PartialEq, Eq)]
pub struct ServerConfig {
    pub channels: Channels,
    pub kept_roles: HashMap<u64, Vec<u64>>,
    pub verify: Verify,
}

#[verifier::ext_equal]
pub struct ServerConfigView {
    pub channels: Channels,
    pub kept_roles: Map<u64, Seq<u64>>,
    pub verify: Verify,
}

impl View for ServerConfig {
    type V = ServerConfigView;

    open spec fn view(&self) -> ServerConfigView {
        ServerConfigView {
            channels: self.channels,
            kept_roles: self.kept_roles@.map_values(|r: Vec<u64>| r@),
            verify: self.verify,
        }
    }
}

impl ServerConfigView {
    pub open spec fn fresh() -> ServerConfigView {
        ServerConfigView {
            channels: Channels::unassigned(),
            kept_roles: Map::empty(),
            verify: Verify::spec_new(None, None, None),
        }
    }
}

impl Clone for ServerConfig {
    fn clone(&self) -> (c: Self)
        ensures
            c@ == self@,
    {
        let c = ServerConfig {
            channels: self.channels,
            kept_roles: self.kept_roles.clone(),
            verify: self.verify,
        };
        proof {
            assert(c@.kept_roles =~= self@.kept_roles);
        }
        c
    }
}

impl ServerConfig {
    /// A fresh server: nothing assigned, nothing kept, default verify settings.
    pub fn new() -> (c: Self)
        ensures
            c@ == ServerConfigView::fresh(),
    {
        let c = ServerConfig {
            channels: Channels::new(),
            kept_roles: HashMap::new(),
            verify: Verify::new(None, None, None),
        };
        proof {
            assert(c@.kept_roles =~= Map::<u64, Seq<u64>>::empty());
        }
        c
    }

    /// Assigns the given channels and hands them back.
    pub fn have_channels(&mut self, channels: Channels) -> (r: Channels)
        ensures
            final(self)@ == (ServerConfigView { channels, ..old(self)@ }),
            r == channels,
    {
        self.channels = channels;
        channels
    }

    /// Keeps the roles `who` holds, under their user id.
    pub fn keep_roles(&mut self, who: Member)
        ensures
            final(self)@ == (ServerConfigView {
                kept_roles: old(self)@.kept_roles.insert(who.user_id, who.roles@),
                ..old(self)@
            }),
    {
        let ghost before = self.kept_roles@;
        self.kept_roles.insert(who.user_id, who.roles);
        proof {
            assert(self.kept_roles@.map_values(|r: Vec<u64>| r@) =~= before.map_values(
                |r: Vec<u64>| r@,
            ).insert(who.user_id, who.roles@));
        }
    }
}

/// The configurations of all servers, by server id.
#[derive(Debug, PartialEq, Eq)]
pub struct ServerConfigTable {
    cache: HashMap<u64, ServerConfig>,
}

impl View for ServerConfigTable {
    type V = Map<u64, ServerConfigView>;

    closed spec fn view(&self) -> Map<u64, ServerConfigView> {
        self.cache@.map_values(|c: ServerConfig| c@)
    }
}

impl Clone for ServerConfigTable {
    fn clone(&self) -> (t: Self)
        ensures
            t@ == self@,
    {
        ServerConfigTable { cache: self.cache.clone() }
    }
}

impl ServerConfigTable {
    /// No server configured.
    pub fn new() -> (t: Self)
        ensures
            t@ == Map::<u64, ServerConfigView>::empty(),
    {
        let t = ServerConfigTable { cache: HashMap::new() };
        proof {
            assert(t@ =~= Map::<u64, ServerConfigView>::empty());
        }
        t
    }

    /// The configuration of server `key`, if it has one.
    pub fn get(&self, key: u64) -> (r: Option<&ServerConfig>)
        ensures
            match r {
                Some(c) => self@.contains_key(key) && c@ == self@[key],
                None => !self@.contains_key(key),
            },
    {
        self.cache.get(&key)
    }

    /// Stores `value` for server `key` and gives back what was there.
    pub fn set(&mut self, key: u64, value: ServerConfig) -> (prev: Option<ServerConfig>)
        ensures
            final(self)@ == old(self)@.insert(key, value@),
            match prev {
                Some(p) => old(self)@.contains_key(key) && p@ == old(self)@[key],
                None => !old(self)@.contains_key(key),
            },
    {
        let ghost before = self.cache@;
        let ghost v = value@;
        let prev = self.cache.insert(key, value);
        proof {
            assert(self@ =~= before.map_values(|c: ServerConfig| c@).insert(key, v));
        }
        prev
    }

    /// Gives server `key` a fresh configuration and gives back what was there.
    pub fn provision(&mut self, key: u64) -> (prev: Option<ServerConfig>)
        ensures
            final(self)@ == old(self)@.insert(key, ServerConfigView::fresh()),
            match prev {
                Some(p) => old(self)@.contains_key(key) && p@ == old(self)@[key],
                None => !old(self)@.contains_key(key),
            },
    {
        self.set(key, ServerConfig::new())
    }
}

/// Names the slot of the bot's shared data that holds the [`ServerConfigTable`].
pub struct ServerConfigKey;

impl DataKey for ServerConfigKey {
    type Value = ServerConfigTable;
}

impl Default for Channels {
    /// No channel assigned.
    fn default() -> (c: Channels)
        ensures
            c == Channels::unassigned(),
    {
        Channels::new()
    }
}

impl Default for ServerConfig {
    /// Nothing assigned, nothing kept, and the default [`Verify`], which
    /// requires no permission.
    fn default() -> (c: ServerConfig)
        ensures
            c@ == (ServerConfigView {
                channels: Channels::unassigned(),
                kept_roles: Map::empty(),
                verify: Verify {
                    verified_id: None,
                    unverified_id: None,
                    permissions_required: crate::permissions::Permissions { bits: 0 },
                },
            }),
    {
        let c = ServerConfig { channels: Channels::new(), kept_roles: HashMap::new(), verify: Verify::default() };
        proof {
            assert(c@.kept_roles =~= Map::<u64, Seq<u64>>::empty());
        }
        c
    }
}

impl Default for ServerConfigTable {
    /// No server configured.
    fn default() -> (t: ServerConfigTable)
        ensures
            t@ == Map::<u64, ServerConfigView>::empty(),
    {
        ServerConfigTable::new()
    }
}

} // verus!
