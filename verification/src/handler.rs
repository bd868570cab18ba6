//! Which reactions the bot acts on, and what each one asks for.

use crate::text::chars_of;
use vstd::prelude::*;

verus! {

/// Accept the newcomer.
pub const EMOJI_CHECK: &'static str = "\u{2705}";

/// Reject the newcomer.
pub const EMOJI_CROSS: &'static str = "\u{274C}";

/// Move the newcomer into a quarantine channel to talk first.
pub const EMOJI_QUESTION: &'static str = "\u{2753}";

/// What a moderator's reaction to a newcomer's message asks for.
#[derive(Clone, Copy, Debug, PartialEq, Eq, Structural)]
pub enum VerifyAction {
    Accept,
    Reject,
    Quarantine,
}

/// The action a reaction emoji stands for.
pub open spec fn action_for(code: Seq<char>) -> Option<VerifyAction> {
    if code == seq!['\u{2705}'] {
        Some(VerifyAction::Accept)
    } else if code == seq!['\u{274C}'] {
        Some(VerifyAction::Reject)
    } else if code == seq!['\u{2753}'] {
        Some(VerifyAction::Quarantine)
    } else {
        None
    }
}

/// The action a reaction emoji stands for.
pub fn verify_action(code: &str) -> (a: Option<VerifyAction>)
    ensures
        a == action_for(code@),
{
    let v = chars_of(code);
    if v.len() != 1 {
        return None;
    }
    proof {
        assert(code@ =~= seq![v@[0]]);
    }
    let c = v[0];
    if c == '\u{2705}' {
        Some(VerifyAction::Accept)
    } else if c == '\u{274C}' {
        Some(VerifyAction::Reject)
    } else if c == '\u{2753}' {
        Some(VerifyAction::Quarantine)
    } else {
        None
    }
}

/// Decides on the reactions added in a server.
pub struct Handler;

impl Handler {
    /// Whether a reaction with emoji `code` added in channel `channel` is a
    /// verification decision: one of the three verification emoji, added in
    /// the server's verify channel `verify_channel`.
    pub fn reaction_add(code: &str, verify_channel: Option<u64>, channel: u64) -> (act: bool)
        ensures
            act == (action_for(code@) is Some && verify_channel == Some(channel)),
    {
        match verify_action(code) {
            Some(_) => match verify_channel {
                Some(v) => v == channel,
                None => false,
            },
            None => false,
        }
    }
}

} // verus!
