//! Accepting and rejecting a newcomer.

use crate::config::server::Config;
use crate::text::{channel_mention, push_channel_mention, push_user_mention, user_mention};
use vstd::prelude::*;

verus! {

/// The welcome a newly verified member gets, pointing them to the role and
/// introduction channels where the server has them.
pub open spec fn welcome_text(who: u64, role: Option<u64>, intro: Option<u64>) -> Seq<char> {
    let head = "Welcome to the server, "@ + user_mention(who);
    match (role, intro) {
        (Some(r), Some(i)) => head + ". Feel free to grab some roles in "@ + channel_mention(r)
            + ", or introduce yourself in "@ + channel_mention(i),
        (Some(r), None) => head + ". Feel free to grab some roles in "@ + channel_mention(r),
        (None, Some(i)) => head + ". Feel free to introduce yourself in "@ + channel_mention(i),
        (None, None) => head + "."@,
    }
}

/// The log line written when a newcomer is rejected.
pub open spec fn rejection_text(who: u64) -> Seq<char> {
    user_mention(who) + " was rejected and kicked"@
}

/// What accepting a newcomer does, in order: give the verified role, take
/// the unverified role, then post a welcome in the welcome channel.
pub struct AcceptPlan {
    pub add_role: Option<u64>,
    pub remove_role: Option<u64>,
    /// The welcome channel and the message to post there.
    pub welcome: Option<(u64, String)>,
}

/// The welcome message for `who`.
pub fn welcome_message(who: u64, role: Option<u64>, intro: Option<u64>) -> (s: String)
    ensures
        s@ == welcome_text(who, role, intro),
{
    let mut s = String::new();
    s.append("Welcome to the server, ");
    push_user_mention(&mut s, who);
    match (role, intro) {
        (Some(r), Some(i)) => {
            s.append(". Feel free to grab some roles in ");
            push_channel_mention(&mut s, r);
            s.append(", or introduce yourself in ");
            push_channel_mention(&mut s, i);
        },
        (Some(r), None) => {
            s.append(". Feel free to grab some roles in ");
            push_channel_mention(&mut s, r);
        },
        (None, Some(i)) => {
            s.append(". Feel free to introduce yourself in ");
            push_channel_mention(&mut s, i);
        },
        (None, None) => {
            s.append(".");
        },
    }
    proof {
        assert(s@ =~= welcome_text(who, role, intro));
    }
    s
}

/// Accepting the newcomer `author` under `config`.
pub fn accept(author: u64, config: &Config) -> (p: AcceptPlan)
    ensures
        p.add_role == config@.verify.verified_id,
        p.remove_role == config@.verify.unverified_id,
        match config@.channels.welcome {
            None => p.welcome is None,
            Some(w) => p.welcome matches Some((c, t)) && c == w && t@ == welcome_text(
                author,
                config@.channels.role,
                config@.channels.introduction,
            ),
        },
{
    let welcome = match config.channels.welcome {
        Some(w) => Some(
            (w, welcome_message(author, config.channels.role, config.channels.introduction)),
        ),
        None => None,
    };
    AcceptPlan {
        add_role: config.verify.verified_id,
        remove_role: config.verify.unverified_id,
        welcome,
    }
}

/// Rejecting the newcomer `author` kicks them, then logs the rejection in
/// the log channel if there is one: that channel and line.
pub fn reject(author: u64, config: &Config) -> (log: Option<(u64, String)>)
    ensures
        match config@.channels.log {
            None => log is None,
            Some(l) => log matches Some((c, t)) && c == l && t@ == rejection_text(author),
        },
{
    match config.channels.log {
        Some(l) => {
            let mut s = String::new();
            push_user_mention(&mut s, author);
            s.append(" was rejected and kicked");
            proof {
                assert(s@ =~= rejection_text(author));
            }
            Some((l, s))
        },
        None => None,
    }
}

} // verus!
