//! `-config channel ...`, `-config verify <role>` and `-config unverify <role>`.

use crate::config::server::{Config, ConfigView, Verify};
use crate::text::{chars_of, channel_id_spec, channel_mention, decimal, lemma_channel_mention_parses_back, parse_channel_id, parse_role_id, push_decimal, role_id_spec};
use vstd::prelude::*;

verus! {

/// Usage of the channel command.
pub const CONFIG_CHANNELS_HELP: &'static str = "```\n-config channel <kind #channel> [kind #channel]\n\nUsed to configure what channels should be used for what.\n\n\nkind may be one of\n    introduction:   Where users should send introduction messages\n    jail:           Where users go when they're icky\n    log:            Where event logs should be sent to\n    role:           Where users self assign roles\n    verify:         Where incoming users are verified\n    welcome:        Where welcome messages should be sent\n```";

/// Usage of the role commands.
pub const HELP: &'static str = "```\n-config <verify|unverify> <@role>\n\nUsed to configure the role verified / unverified users should be given / drop.\n```";

/// The part a channel can be assigned.
#[derive(Clone, Copy, Debug, PartialEq, Eq, Structural)]
pub enum ChannelKind {
    Introduction,
    Jail,
    Log,
    Role,
    Verify,
    Welcome,
}

/// The part a channel command argument names.
pub open spec fn channel_kind(name: Seq<char>) -> Option<ChannelKind> {
    if name == "introduction"@ {
        Some(ChannelKind::Introduction)
    } else if name == "jail"@ {
        Some(ChannelKind::Jail)
    } else if name == "log"@ {
        Some(ChannelKind::Log)
    } else if name == "role"@ {
        Some(ChannelKind::Role)
    } else if name == "verify"@ {
        Some(ChannelKind::Verify)
    } else if name == "welcome"@ {
        Some(ChannelKind::Welcome)
    } else {
        None
    }
}

/// The configuration with `channel` assigned the part `kind`.
pub open spec fn assigned(c: ConfigView, kind: ChannelKind, channel: u64) -> ConfigView {
    let ch = c.channels;
    ConfigView {
        channels: match kind {
            ChannelKind::Introduction => crate::config::server::ChannelsView { introduction: Some(channel), ..ch },
            ChannelKind::Jail => crate::config::server::ChannelsView { jail: Some(channel), ..ch },
            ChannelKind::Log => crate::config::server::ChannelsView { log: Some(channel), ..ch },
            ChannelKind::Role => crate::config::server::ChannelsView { role: Some(channel), ..ch },
            ChannelKind::Verify => crate::config::server::ChannelsView { verify: Some(channel), ..ch },
            ChannelKind::Welcome => crate::config::server::ChannelsView { welcome: Some(channel), ..ch },
        },
        ..c
    }
}

/// Whether the arguments `tokens` hold a next pair whose channel reads.
pub open spec fn pair_reads(tokens: Seq<Seq<char>>) -> bool {
    tokens.len() >= 2 && channel_id_spec(tokens[1]) is Some
}

/// The configuration after the channel command reads `tokens` as pairs of
/// a part and a channel, up to the first pair whose channel does not read.
pub open spec fn channel_args(c: ConfigView, tokens: Seq<Seq<char>>) -> ConfigView
    decreases tokens.len(),
{
    if pair_reads(tokens) {
        let ch = channel_id_spec(tokens[1]).unwrap();
        let next = match channel_kind(tokens[0]) {
            Some(k) => assigned(c, k, ch),
            None => c,
        };
        channel_args(next, tokens.skip(2))
    } else {
        c
    }
}

/// The part names in `tokens` that the channel command does not know, in order.
pub open spec fn unsupported_kinds(tokens: Seq<Seq<char>>) -> Seq<Seq<char>>
    decreases tokens.len(),
{
    if pair_reads(tokens) {
        let rest = unsupported_kinds(tokens.skip(2));
        if channel_kind(tokens[0]) is None {
            seq![tokens[0]] + rest
        } else {
            rest
        }
    } else {
        Seq::empty()
    }
}

/// The text of each argument.
pub open spec fn texts(tokens: Seq<String>) -> Seq<Seq<char>> {
    tokens.map_values(|t: String| t@)
}

/// Whether two texts are equal.
pub fn same_text(a: &str, b: &str) -> (r: bool)
    ensures
        r == (a@ == b@),
{
    let x = chars_of(a);
    let y = chars_of(b);
    if x.len() != y.len() {
        return false;
    }
    let n = x.len();
    let mut i: usize = 0;
    while i < n
        invariant
            n == x@.len(),
            n == y@.len(),
            x@ == a@,
            y@ == b@,
            i <= n,
            forall|j: int| 0 <= j < i ==> x@[j] == y@[j],
        decreases n - i,
    {
        if x[i] != y[i] {
            return false;
        }
        i = i + 1;
    }
    proof {
        assert(x@ =~= y@);
    }
    true
}

/// The part a channel command argument names.
pub fn kind_of(name: &str) -> (k: Option<ChannelKind>)
    ensures
        k == channel_kind(name@),
{
    if same_text(name, "introduction") {
        Some(ChannelKind::Introduction)
    } else if same_text(name, "jail") {
        Some(ChannelKind::Jail)
    } else if same_text(name, "log") {
        Some(ChannelKind::Log)
    } else if same_text(name, "role") {
        Some(ChannelKind::Role)
    } else if same_text(name, "verify") {
        Some(ChannelKind::Verify)
    } else if same_text(name, "welcome") {
        Some(ChannelKind::Welcome)
    } else {
        None
    }
}

/// Assigns `channel` the part `kind`.
pub fn assign_channel(config: &mut Config, kind: ChannelKind, channel: u64)
    ensures
        final(config)@ == assigned(old(config)@, kind, channel),
        final(config).channels.introduction == if kind == ChannelKind::Introduction {
            Some(channel)
        } else {
            old(config).channels.introduction
        },
        final(config).channels.jail == if kind == ChannelKind::Jail {
            Some(channel)
        } else {
            old(config).channels.jail
        },
        final(config).channels.log == if kind == ChannelKind::Log {
            Some(channel)
        } else {
            old(config).channels.log
        },
        final(config).channels.role == if kind == ChannelKind::Role {
            Some(channel)
        } else {
            old(config).channels.role
        },
        final(config).channels.verify == if kind == ChannelKind::Verify {
            Some(channel)
        } else {
            old(config).channels.verify
        },
        final(config).channels.welcome == if kind == ChannelKind::Welcome {
            Some(channel)
        } else {
            old(config).channels.welcome
        },
{
    match kind {
        ChannelKind::Introduction => config.channels.introduction = Some(channel),
        ChannelKind::Jail => config.channels.jail = Some(channel),
        ChannelKind::Log => config.channels.log = Some(channel),
        ChannelKind::Role => config.channels.role = Some(channel),
        ChannelKind::Verify => config.channels.verify = Some(channel),
        ChannelKind::Welcome => config.channels.welcome = Some(channel),
    }
}

/// Whether the channel command got a nonempty, even number of arguments;
/// otherwise it answers with its usage.
pub fn channels_usage_ok(count: usize) -> (ok: bool)
    ensures
        ok == (count != 0 && count % 2 == 0),
{
    count != 0 && count % 2 == 0
}

/// The channel command: reads `tokens` as pairs of a part and a channel,
/// assigning each, up to the first pair whose channel does not read. Gives
/// back the part names it does not know, in order; such pairs change nothing.
pub fn channels(config: &mut Config, tokens: &Vec<String>) -> (unsupported: Vec<String>)
    ensures
        final(config)@ == channel_args(old(config)@, texts(tokens@)),
        texts(unsupported@) == unsupported_kinds(texts(tokens@)),
{
    let ghost all = texts(tokens@);
    let mut unsupported: Vec<String> = Vec::new();
    let n = tokens.len();
    let mut i: usize = 0;
    let mut reading = true;
    proof {
        assert(all.skip(0) =~= all);
        assert(texts(unsupported@) + unsupported_kinds(all) =~= unsupported_kinds(all));
    }
    while reading && i < n && i + 1 < n
        invariant
            n == tokens@.len(),
            all == texts(tokens@),
            i <= n,
            channel_args(config@, all.skip(i as int)) == channel_args(old(config)@, all),
            texts(unsupported@) + unsupported_kinds(all.skip(i as int)) == unsupported_kinds(all),
            !reading ==> !pair_reads(all.skip(i as int)),
        decreases n - i + (if reading { 1int } else { 0int }),
    {
        let ghost rest = all.skip(i as int);
        let ghost before = config@;
        let ghost unsupported_before = texts(unsupported@);
        proof {
            assert(rest[0] == tokens@[i as int]@);
            assert(rest[1] == tokens@[i + 1]@);
            assert(rest.skip(2) =~= all.skip(i + 2));
        }
        match parse_channel_id(tokens[i + 1].as_str()) {
            None => {
                reading = false;
            },
            Some(ch) => {
                match kind_of(tokens[i].as_str()) {
                    Some(k) => {
                        assign_channel(config, k, ch);
                    },
                    None => {
                        unsupported.push(tokens[i].clone());
                        proof {
                            assert(texts(unsupported@) =~= unsupported_before + seq![rest[0]]);
                            assert(seq![rest[0]] + unsupported_kinds(rest.skip(2)) == unsupported_kinds(rest));
                            assert(texts(unsupported@) + unsupported_kinds(rest.skip(2))
                                =~= unsupported_before + (seq![rest[0]] + unsupported_kinds(rest.skip(2))));
                        }
                    },
                }
                i = i + 2;
            },
        }
    }
    proof {
        let rest = all.skip(i as int);
        assert(!pair_reads(rest));
        assert(texts(unsupported@) + Seq::<Seq<char>>::empty() =~= texts(unsupported@));
    }
    unsupported
}

/// Assigning a channel a part sets exactly the field of that part to the
/// channel, whatever it held before, and leaves every other field as it was.
pub proof fn lemma_assigned_sets_only_its_field(c: ConfigView, kind: ChannelKind, channel: u64)
    ensures
        ({
            let a = assigned(c, kind, channel).channels;
            &&& a.introduction == if kind == ChannelKind::Introduction {
                Some(channel)
            } else {
                c.channels.introduction
            }
            &&& a.jail == if kind == ChannelKind::Jail {
                Some(channel)
            } else {
                c.channels.jail
            }
            &&& a.log == if kind == ChannelKind::Log {
                Some(channel)
            } else {
                c.channels.log
            }
            &&& a.role == if kind == ChannelKind::Role {
                Some(channel)
            } else {
                c.channels.role
            }
            &&& a.verify == if kind == ChannelKind::Verify {
                Some(channel)
            } else {
                c.channels.verify
            }
            &&& a.welcome == if kind == ChannelKind::Welcome {
                Some(channel)
            } else {
                c.channels.welcome
            }
            &&& a.quarantine == c.channels.quarantine
        }),
        assigned(c, kind, channel).kept_roles == c.kept_roles,
        assigned(c, kind, channel).verify == c.verify,
{
}

/// Each part name of the channel command names the part of the same name.
pub proof fn lemma_channel_kind_names()
    ensures
        channel_kind("introduction"@) == Some(ChannelKind::Introduction),
        channel_kind("jail"@) == Some(ChannelKind::Jail),
        channel_kind("log"@) == Some(ChannelKind::Log),
        channel_kind("role"@) == Some(ChannelKind::Role),
        channel_kind("verify"@) == Some(ChannelKind::Verify),
        channel_kind("welcome"@) == Some(ChannelKind::Welcome),
{
    reveal_strlit("introduction");
    reveal_strlit("jail");
    reveal_strlit("log");
    reveal_strlit("role");
    reveal_strlit("verify");
    reveal_strlit("welcome");
    assert("jail"@ != "introduction"@) by {
        assert("jail"@.len() != "introduction"@.len());
    }
    assert("log"@ != "introduction"@) by {
        assert("log"@.len() != "introduction"@.len());
    }
    assert("log"@ != "jail"@) by {
        assert("log"@.len() != "jail"@.len());
    }
    assert("role"@ != "introduction"@) by {
        assert("role"@.len() != "introduction"@.len());
    }
    assert("role"@ != "jail"@) by {
        assert("role"@[0] != "jail"@[0]);
    }
    assert("role"@ != "log"@) by {
        assert("role"@.len() != "log"@.len());
    }
    assert("verify"@ != "introduction"@) by {
        assert("verify"@.len() != "introduction"@.len());
    }
    assert("verify"@ != "jail"@) by {
        assert("verify"@.len() != "jail"@.len());
    }
    assert("verify"@ != "log"@) by {
        assert("verify"@.len() != "log"@.len());
    }
    assert("verify"@ != "role"@) by {
        assert("verify"@.len() != "role"@.len());
    }
    assert("welcome"@ != "introduction"@) by {
        assert("welcome"@.len() != "introduction"@.len());
    }
    assert("welcome"@ != "jail"@) by {
        assert("welcome"@.len() != "jail"@.len());
    }
    assert("welcome"@ != "log"@) by {
        assert("welcome"@.len() != "log"@.len());
    }
    assert("welcome"@ != "role"@) by {
        assert("welcome"@.len() != "role"@.len());
    }
    assert("welcome"@ != "verify"@) by {
        assert("welcome"@.len() != "verify"@.len());
    }
}

/// A role command that found its role sets the role of its kind to that
/// role, whatever it was before, and leaves the other role, the permissions
/// and everything else as they were.
pub proof fn lemma_with_role_sets_only_its_role(c: ConfigView, kind: RoleKind, role: u64)
    ensures
        with_role(c, kind, role).verify.verified_id == if kind == RoleKind::Verify {
            Some(role)
        } else {
            c.verify.verified_id
        },
        with_role(c, kind, role).verify.unverified_id == if kind == RoleKind::Unverify {
            Some(role)
        } else {
            c.verify.unverified_id
        },
        with_role(c, kind, role).verify.permissions_required == c.verify.permissions_required,
        with_role(c, kind, role).channels == c.channels,
        with_role(c, kind, role).kept_roles == c.kept_roles,
{
}

/// Pointing the channel command at a channel by the mention the bot itself
/// writes assigns exactly that channel, and reports nothing unsupported.
pub proof fn lemma_channel_command_reads_mentions(c: ConfigView, kind_name: Seq<char>, id: u64)
    requires
        channel_kind(kind_name) is Some,
    ensures
        channel_args(c, seq![kind_name, channel_mention(id)]) == assigned(
            c,
            channel_kind(kind_name).unwrap(),
            id,
        ),
        unsupported_kinds(seq![kind_name, channel_mention(id)]) == Seq::<Seq<char>>::empty(),
{
    let tokens = seq![kind_name, channel_mention(id)];
    lemma_channel_mention_parses_back(id);
    assert(tokens[1] == channel_mention(id));
    assert(pair_reads(tokens));
    let rest = tokens.skip(2);
    assert(rest.len() == 0);
    assert(!pair_reads(rest));
    let next = assigned(c, channel_kind(kind_name).unwrap(), id);
    assert(channel_args(next, rest) == next);
    assert(unsupported_kinds(rest) == Seq::<Seq<char>>::empty());
}

/// The note for a part name the channel command does not know.
pub fn unsupported_message(name: &str) -> (s: String)
    ensures
        s@ == "unsupported channel type `"@ + name@ + "`"@,
{
    let mut s = String::new();
    s.append("unsupported channel type `");
    s.append(name);
    s.append("`");
    proof {
        assert(s@ =~= "unsupported channel type `"@ + name@ + "`"@);
    }
    s
}

/// Which role a role command sets.
#[derive(Clone, Copy, Debug, PartialEq, Eq, Structural)]
pub enum RoleKind {
    /// The role given on acceptance.
    Verify,
    /// The role taken away on acceptance.
    Unverify,
}

/// The word that names a role kind.
pub open spec fn kind_word(kind: RoleKind) -> Seq<char> {
    match kind {
        RoleKind::Verify => "verify"@,
        RoleKind::Unverify => "unverify"@,
    }
}

/// The configuration with the role of kind `kind` set to `role`.
pub open spec fn with_role(c: ConfigView, kind: RoleKind, role: u64) -> ConfigView {
    ConfigView {
        verify: match kind {
            RoleKind::Verify => Verify { verified_id: Some(role), ..c.verify },
            RoleKind::Unverify => Verify { unverified_id: Some(role), ..c.verify },
        },
        ..c
    }
}

/// A role command argument: a role id (a role mention or a bare number),
/// or else a role name.
#[derive(Debug, PartialEq, Eq)]
pub enum RoleArg {
    Id(u64),
    Name(String),
}

/// Reads a role command argument.
pub fn role_arg(arg: &str) -> (r: RoleArg)
    ensures
        match role_id_spec(arg@) {
            Some(id) => r == RoleArg::Id(id),
            None => r matches RoleArg::Name(n) && n@ == arg@,
        },
{
    match parse_role_id(arg) {
        Some(id) => RoleArg::Id(id),
        None => RoleArg::Name(String::from_str(arg)),
    }
}

/// The first reply to a role command.
pub fn setting_message(kind: RoleKind) -> (s: String)
    ensures
        s@ == "setting "@ + kind_word(kind),
{
    let mut s = String::new();
    s.append("setting ");
    match kind {
        RoleKind::Verify => s.append("verify"),
        RoleKind::Unverify => s.append("unverify"),
    }
    proof {
        assert(s@ =~= "setting "@ + kind_word(kind));
    }
    s
}

/// The reply when the argument names no role of the server.
pub open spec fn unknown_role_text(arg: RoleArg) -> Seq<char> {
    match arg {
        RoleArg::Id(id) => "No such role with id `"@ + decimal(id as nat) + "`"@,
        RoleArg::Name(n) => "I don't know what `"@ + n@ + "` is"@,
    }
}

/// The reply once a role is set.
pub open spec fn role_set_text(name: Seq<char>) -> Seq<char> {
    "Verify is `@"@ + name + "`"@
}

/// Finishes a role command once the argument has been looked up among the
/// server's roles: `found` is the role's id and name, if it exists. Sets
/// the role and gives the reply, or leaves the configuration unchanged and
/// gives the error reply.
pub fn set_role(config: &mut Config, kind: RoleKind, arg: &RoleArg, found: Option<(u64, String)>) -> (r:
    Result<String, String>)
    ensures
        match found {
            Some((id, name)) => final(config)@ == with_role(old(config)@, kind, id) && (r matches Ok(
                reply) && reply@ == role_set_text(name@)),
            None => final(config)@ == old(config)@ && (r matches Err(reply) && reply@
                == unknown_role_text(*arg)),
        },
        found matches Some((id, _)) ==> final(config).verify.verified_id == if kind == RoleKind::Verify {
            Some(id)
        } else {
            old(config).verify.verified_id
        },
        found matches Some((id, _)) ==> final(config).verify.unverified_id == if kind
            == RoleKind::Unverify {
            Some(id)
        } else {
            old(config).verify.unverified_id
        },
{
    match found {
        Some((id, name)) => {
            match kind {
                RoleKind::Verify => config.verify.verified_id = Some(id),
                RoleKind::Unverify => config.verify.unverified_id = Some(id),
            }
            let mut s = String::new();
            s.append("Verify is `@");
            s.append(name.as_str());
            s.append("`");
            proof {
                assert(s@ =~= role_set_text(name@));
            }
            Ok(s)
        },
        None => {
            let mut s = String::new();
            match arg {
                RoleArg::Id(id) => {
                    s.append("No such role with id `");
                    push_decimal(&mut s, *id);
                    s.append("`");
                },
                RoleArg::Name(n) => {
                    s.append("I don't know what `");
                    s.append(n.as_str());
                    s.append("` is");
                },
            }
            proof {
                assert(s@ =~= unknown_role_text(*arg));
            }
            Err(s)
        },
    }
}

} // verus!
