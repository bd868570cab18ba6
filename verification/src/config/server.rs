//! What the bot knows of each server it serves: which channels play which
//! part, which roles mark verified and unverified members, who may verify,
//! which quarantine channels are open, and the roles kept for members.

use crate::model::Member;
use crate::permissions::{Permissions, KICK_MEMBERS, MANAGE_MESSAGES, MANAGE_ROLES};
use crate::DataKey;
use std::collections::HashMap;
use vstd::prelude::*;

verus! {

/// An open quarantine channel and the newcomer held in it.
#[derive(Clone, Copy, Debug, PartialEq, Eq, Structural)]
pub struct Quarantine {
    pub channel: u64,
    pub candidate: u64,
}

/// The channels a server has assigned to the bot's tasks.
#[derive(Debug, PartialEq, Eq)]
pub struct Channels {
    /// Where users introduce themselves.
    pub introduction: Option<u64>,
    /// Where misbehaving users are sent.
    pub jail: Option<u64>,
    /// Where event logs go.
    pub log: Option<u64>,
    /// Where users assign themselves roles.
    pub role: Option<u64>,
    /// Where newcomers are verified.
    pub verify: Option<u64>,
    /// Where welcome messages go.
    pub welcome: Option<u64>,
    /// The open quarantine channels, by channel id.
    pub quarantine: HashMap<u64, Quarantine>,
}

#[verifier::ext_equal]
pub struct ChannelsView {
    pub introduction: Option<u64>,
    pub jail: Option<u64>,
    pub log: Option<u64>,
    pub role: Option<u64>,
    pub verify: Option<u64>,
    pub welcome: Option<u64>,
    pub quarantine: Map<u64, Quarantine>,
}

impl View for Channels {
    type V = ChannelsView;

    open spec fn view(&self) -> ChannelsView {
        ChannelsView {
            introduction: self.introduction,
            jail: self.jail,
            log: self.log,
            role: self.role,
            verify: self.verify,
            welcome: self.welcome,
            quarantine: self.quarantine@,
        }
    }
}

impl ChannelsView {
    /// No channel assigned, no quarantine open.
    pub open spec fn unassigned() -> ChannelsView {
        ChannelsView {
            introduction: None,
            jail: None,
            log: None,
            role: None,
            verify: None,
            welcome: None,
            quarantine: Map::empty(),
        }
    }
}

impl Clone for Channels {
    fn clone(&self) -> (c: Self)
        ensures
            c@ == self@,
    {
        Channels {
            introduction: self.introduction,
            jail: self.jail,
            log: self.log,
            role: self.role,
            verify: self.verify,
            welcome: self.welcome,
            quarantine: self.quarantine.clone(),
        }
    }
}

impl Channels {
    /// No channel assigned, no quarantine open.
    pub fn new() -> (c: Self)
        ensures
            c@ == ChannelsView::unassigned(),
    {
        Channels {
            introduction: None,
            jail: None,
            log: None,
            role: None,
            verify: None,
            welcome: None,
            quarantine: HashMap::new(),
        }
    }
}

/// The roles verification hands out and takes away, and what a moderator
/// needs to verify someone.
#[derive(Clone, Copy, Debug, PartialEq, Eq, Structural)]
pub struct Verify {
    /// The role given to a member on acceptance.
    pub verified_id: Option<u64>,
    /// The role taken from a member on acceptance.
    pub unverified_id: Option<u64>,
    /// What a reacting moderator must hold for the reaction to count.
    pub permissions_required: Permissions,
}

impl Verify {
    pub open spec fn spec_new(
        verified: Option<u64>,
        unverified: Option<u64>,
        permissions: Option<Permissions>,
    ) -> Verify {
        Verify {
            verified_id: verified,
            unverified_id: unverified,
            permissions_required: match permissions {
                Some(p) => p,
                None => Permissions { bits: MANAGE_ROLES | MANAGE_MESSAGES | KICK_MEMBERS },
            },
        }
    }

    /// The given roles; the given permissions, or by default manage roles,
    /// manage messages and kick members.
    pub fn new(
        verified: Option<u64>,
        unverified: Option<u64>,
        permissions: Option<Permissions>,
    ) -> (v: Self)
        ensures
            v == Verify::spec_new(verified, unverified, permissions),
    {
        let default_permission = Permissions::moderation();
        Verify {
            verified_id: verified,
            unverified_id: unverified,
            permissions_required: match permissions {
                Some(p) => p,
                None => default_permission,
            },
        }
    }
}

/// Everything the bot keeps for one server.
#[derive(Debug, PartialEq, Eq)]
pub struct Config {
    pub channels: Channels,
    /// The roles a member held, kept by user id.
    pub kept_roles: HashMap<u64, Vec<u64>>,
    pub verify: Verify,
}

#[verifier::ext_equal]
pub struct ConfigView {
    pub channels: ChannelsView,
    pub kept_roles: Map<u64, Seq<u64>>,
    pub verify: Verify,
}

impl View for Config {
    type V = ConfigView;

    open spec fn view(&self) -> ConfigView {
        ConfigView {
            channels: self.channels@,
            kept_roles: self.kept_roles@.map_values(|r: Vec<u64>| r@),
            verify: self.verify,
        }
    }
}

impl ConfigView {
    /// A fresh server: nothing assigned, nothing kept, default verify settings.
    pub open spec fn fresh() -> ConfigView {
        ConfigView {
            channels: ChannelsView::unassigned(),
            kept_roles: Map::empty(),
            verify: Verify::spec_new(None, None, None),
        }
    }

    pub open spec fn with_channels(self, channels: ChannelsView) -> ConfigView {
        ConfigView { channels, ..self }
    }

    pub open spec fn keeping_roles(self, user: u64, roles: Seq<u64>) -> ConfigView {
        ConfigView { kept_roles: self.kept_roles.insert(user, roles), ..self }
    }

    pub open spec fn quarantined(self, channel: u64, candidate: u64) -> ConfigView {
        ConfigView {
            channels: ChannelsView {
                quarantine: self.channels.quarantine.insert(
                    channel,
                    Quarantine { channel, candidate },
                ),
                ..self.channels
            },
            ..self
        }
    }

    pub open spec fn released(self, channel: u64) -> ConfigView {
        ConfigView {
            channels: ChannelsView {
                quarantine: self.channels.quarantine.remove(channel),
                ..self.channels
            },
            ..self
        }
    }

    pub open spec fn is_quarantine(self, channel: u64) -> bool {
        self.channels.quarantine.contains_key(channel)
    }
}

impl Clone for Config {
    fn clone(&self) -> (c: Self)
        ensures
            c@ == self@,
    {
        let kept = self.kept_roles.clone();
        let c = Config { channels: self.channels.clone(), kept_roles: kept, verify: self.verify };
        proof {
            assert(c@.kept_roles =~= self@.kept_roles);
        }
        c
    }
}

impl Config {
    /// A fresh server: nothing assigned, nothing kept, default verify settings.
    pub fn new() -> (c: Self)
        ensures
            c@ == ConfigView::fresh(),
    {
        let c = Config {
            channels: Channels::new(),
            kept_roles: HashMap::new(),
            verify: Verify::new(None, None, None),
        };
        proof {
            assert(c@.kept_roles =~= Map::<u64, Seq<u64>>::empty());
        }
        c
    }

    /// Assigns the given channels (quarantines included) and hands them back.
    pub fn have_channels(&mut self, channels: Channels) -> (r: Channels)
        ensures
            final(self)@ == old(self)@.with_channels(channels@),
            r@ == channels@,
    {
        self.channels = channels.clone();
        channels
    }

    /// Keeps the roles `who` holds, under their user id.
    pub fn keep_roles(&mut self, who: Member)
        ensures
            final(self)@ == old(self)@.keeping_roles(who.user_id, who.roles@),
    {
        let ghost before = self.kept_roles@;
        self.kept_roles.insert(who.user_id, who.roles);
        proof {
            assert(self.kept_roles@.map_values(|r: Vec<u64>| r@) =~= before.map_values(
                |r: Vec<u64>| r@,
            ).insert(who.user_id, who.roles@));
        }
    }

    /// Records `channel` as a quarantine channel holding `candidate`.
    pub fn start_quarantine(&mut self, channel: u64, candidate: u64)
        ensures
            final(self)@ == old(self)@.quarantined(channel, candidate),
    {
        self.channels.quarantine.insert(channel, Quarantine { channel, candidate });
    }

    /// Forgets the quarantine channel `channel`, if it was one.
    pub fn drop_quarantine(&mut self, channel: &u64)
        ensures
            final(self)@ == old(self)@.released(*channel),
    {
        self.channels.quarantine.remove(channel);
    }

    /// Whether `channel` is an open quarantine channel.
    pub fn is_quarantine(&self, channel: u64) -> (b: bool)
        ensures
            b == self@.is_quarantine(channel),
    {
        self.channels.quarantine.contains_key(&channel)
    }
}

/// The configurations of all servers, by server id.
#[derive(Debug, PartialEq, Eq)]
pub struct Table {
    cache: HashMap<u64, Config>,
}

impl View for Table {
    type V = Map<u64, ConfigView>;

    closed spec fn view(&self) -> Map<u64, ConfigView> {
        self.cache@.map_values(|c: Config| c@)
    }
}

/// What the table gives back for a server: its configuration, or a fresh
/// one when it has none.
pub open spec fn config_or_fresh(t: Map<u64, ConfigView>, key: u64) -> ConfigView {
    if t.contains_key(key) {
        t[key]
    } else {
        ConfigView::fresh()
    }
}

impl Clone for Table {
    fn clone(&self) -> (t: Self)
        ensures
            t@ == self@,
    {
        Table { cache: self.cache.clone() }
    }
}

impl Table {
    /// No server configured.
    pub fn new() -> (t: Self)
        ensures
            t@ == Map::<u64, ConfigView>::empty(),
    {
        let t = Table { cache: HashMap::new() };
        proof {
            assert(t@ =~= Map::<u64, ConfigView>::empty());
        }
        t
    }

    /// The configuration of server `key`, if it has one.
    pub fn get(&self, key: u64) -> (r: Option<&Config>)
        ensures
            match r {
                Some(c) => self@.contains_key(key) && c@ == self@[key],
                None => !self@.contains_key(key),
            },
    {
        self.cache.get(&key)
    }

    /// Stores `value` for server `key` and gives back what was there.
    pub fn set(&mut self, key: u64, value: Config) -> (prev: Option<Config>)
        ensures
            final(self)@ == old(self)@.insert(key, value@),
            match prev {
                Some(p) => old(self)@.contains_key(key) && p@ == old(self)@[key],
                None => !old(self)@.contains_key(key),
            },
    {
        let ghost before = self.cache@;
        let ghost v = value@;
        let prev = self.cache.insert(key, value);
        proof {
            assert(self@ =~= before.map_values(|c: Config| c@).insert(key, v));
        }
        prev
    }

    /// Gives server `key` a fresh configuration and gives back what was there.
    pub fn provision(&mut self, key: u64) -> (prev: Option<Config>)
        ensures
            final(self)@ == old(self)@.insert(key, ConfigView::fresh()),
            match prev {
                Some(p) => old(self)@.contains_key(key) && p@ == old(self)@[key],
                None => !old(self)@.contains_key(key),
            },
    {
        self.set(key, Config::new())
    }

    /// A copy of the configuration of server `key`, or a fresh one.
    pub fn config_for(&self, key: u64) -> (c: Config)
        ensures
            c@ == config_or_fresh(self@, key),
    {
        match self.get(key) {
            Some(c) => c.clone(),
            None => Config::new(),
        }
    }
}

/// What is stored for a server is what the table gives back for it, and
/// storing for one server leaves every other server as it was.
pub proof fn lemma_read_after_write(t: Map<u64, ConfigView>, key: u64, c: ConfigView, other: u64)
    ensures
        config_or_fresh(t.insert(key, c), key) == c,
        other != key ==> config_or_fresh(t.insert(key, c), other) == config_or_fresh(t, other),
{
}

/// A provisioned server reads back as a fresh configuration.
pub proof fn lemma_provision_reads_fresh(t: Map<u64, ConfigView>, key: u64)
    ensures
        config_or_fresh(t.insert(key, ConfigView::fresh()), key) == ConfigView::fresh(),
{
}

/// Opening a quarantine makes its channel a quarantine channel that holds
/// the candidate; dropping it again gives back the configuration as it was
/// before, when the channel was not a quarantine channel already.
pub proof fn lemma_quarantine_round_trip(c: ConfigView, channel: u64, candidate: u64)
    ensures
        c.quarantined(channel, candidate).is_quarantine(channel),
        c.quarantined(channel, candidate).channels.quarantine[channel] == (Quarantine {
            channel,
            candidate,
        }),
        !c.released(channel).is_quarantine(channel),
        !c.is_quarantine(channel) ==> c.quarantined(channel, candidate).released(channel) == c,
{
    if !c.is_quarantine(channel) {
        assert(c.quarantined(channel, candidate).released(channel).channels.quarantine
            =~= c.channels.quarantine);
        assert(c.quarantined(channel, candidate).released(channel) =~= c);
    }
}

/// Keeping a member's roles twice keeps only the later roles.
pub proof fn lemma_keep_roles_latest(c: ConfigView, user: u64, first: Seq<u64>, second: Seq<u64>)
    ensures
        c.keeping_roles(user, first).keeping_roles(user, second) == c.keeping_roles(user, second),
{
    assert(c.keeping_roles(user, first).keeping_roles(user, second).kept_roles =~= c.keeping_roles(
        user,
        second,
    ).kept_roles);
    assert(c.keeping_roles(user, first).keeping_roles(user, second) =~= c.keeping_roles(
        user,
        second,
    ));
}

/// Names the slot of the bot's shared data that holds the [`Table`].
pub struct Key;

impl DataKey for Key {
    type Value = Table;
}

impl Default for Quarantine {
    fn default() -> (q: Quarantine)
        ensures
            q == (Quarantine { channel: 0, candidate: 0 }),
    {
        Quarantine { channel: 0, candidate: 0 }
    }
}

impl Default for Channels {
    /// No channel assigned, no quarantine open.
    fn default() -> (c: Channels)
        ensures
            c@ == ChannelsView::unassigned(),
    {
        Channels::new()
    }
}

impl Default for Verify {
    /// No roles, and no permission required: unlike [`Verify::new`], which
    /// requires the moderation set by default.
    fn default() -> (v: Verify)
        ensures
            v == (Verify { verified_id: None, unverified_id: None, permissions_required: Permissions { bits: 0 } }),
    {
        Verify { verified_id: None, unverified_id: None, permissions_required: Permissions::empty() }
    }
}

impl Default for Config {
    /// Nothing assigned, nothing kept, and the default [`Verify`], which
    /// requires no permission.
    fn default() -> (c: Config)
        ensures
            c@ == (ConfigView {
                channels: ChannelsView::unassigned(),
                kept_roles: Map::empty(),
                verify: Verify { verified_id: None, unverified_id: None, permissions_required: Permissions { bits: 0 } },
            }),
    {
        let c = Config { channels: Channels::new(), kept_roles: HashMap::new(), verify: Verify::default() };
        proof {
            assert(c@.kept_roles =~= Map::<u64, Seq<u64>>::empty());
        }
        c
    }
}

impl Default for Table {
    /// No server configured.
    fn default() -> (t: Table)
        ensures
            t@ == Map::<u64, ConfigView>::empty(),
    {
        Table::new()
    }
}

} // verus!
