//! Moving a newcomer into a private quarantine channel to talk before a
//! decision is made.

use crate::config::server::{config_or_fresh, Config, Table};
use crate::model::Member;
use crate::permissions::{Permissions, READ_MESSAGES, SEND_MESSAGES};
use crate::text::{chars_of, decimal, push_char, push_decimal, push_user_mention, user_mention};
use vstd::prelude::*;

verus! {

/// The name of the quarantine channel for a user.
pub open spec fn quarantine_name(user_name: Seq<char>, discriminator: u16) -> Seq<char> {
    "quarantine-"@ + user_name + seq!['-'] + decimal(discriminator as nat)
}

/// The first message in a quarantine channel.
pub open spec fn greeting_text(who: u64) -> Seq<char> {
    "Hello "@ + user_mention(who) + ", we've moved you in here to chat before you're verified"@
}

/// Whether an avatar hash names an animated avatar.
pub open spec fn animated(hash: Seq<char>) -> bool {
    hash.len() >= 2 && hash[0] == 'a' && hash[1] == '_'
}

/// The address of a user's avatar image: their own avatar when they set
/// one, else the stock avatar their discriminator picks.
pub open spec fn avatar_url_text(user_id: u64, avatar: Option<Seq<char>>, discriminator: u16) -> Seq<
    char,
> {
    match avatar {
        Some(h) => "https://cdn.discordapp.com/avatars/"@ + decimal(user_id as nat) + seq!['/'] + h
            + seq!['.'] + (if animated(h) {
            "gif"@
        } else {
            "webp"@
        }) + "?size=1024"@,
        None => "https://cdn.discordapp.com/embed/avatars/"@ + decimal((discriminator % 5) as nat)
            + ".png"@,
    }
}

/// An avatar address ends in `gif?size=1024` exactly when the avatar hash
/// begins with the two characters `a_`, and in `webp?size=1024` otherwise;
/// before that comes the user id and the hash.
pub proof fn lemma_avatar_extension(user_id: u64, h: Seq<char>, discriminator: u16)
    ensures
        ({
            let url = avatar_url_text(user_id, Some(h), discriminator);
            let base = "https://cdn.discordapp.com/avatars/"@ + decimal(user_id as nat) + seq!['/'] + h
                + seq!['.'];
            &&& (h.len() >= 2 && h[0] == 'a' && h[1] == '_') ==> url == base + seq![
                'g',
                'i',
                'f',
            ] + "?size=1024"@
            &&& !(h.len() >= 2 && h[0] == 'a' && h[1] == '_') ==> url == base + seq![
                'w',
                'e',
                'b',
                'p',
            ] + "?size=1024"@
        }),
{
    reveal_strlit("gif");
    reveal_strlit("webp");
    assert("gif"@ =~= seq!['g', 'i', 'f']);
    assert("webp"@ =~= seq!['w', 'e', 'b', 'p']);
}

/// The positions, in order, of the messages whose author is `who`.
pub open spec fn authored_by(authors: Seq<u64>, who: u64) -> Seq<usize>
    decreases authors.len(),
{
    if authors.len() == 0 {
        Seq::empty()
    } else {
        let before = authored_by(authors.drop_last(), who);
        if authors.last() == who {
            before.push((authors.len() - 1) as usize)
        } else {
            before
        }
    }
}

/// Exactly the newcomer's messages are picked: a position is picked if and
/// only if the message there is theirs, and the picks come in order without
/// repeats. The relay and the purge after a decision pick the same messages.
pub proof fn lemma_authored_by_exact(authors: Seq<u64>, who: u64)
    requires
        authors.len() <= usize::MAX,
    ensures
        forall|k: int|
            0 <= k < authors.len() ==> (authors[k] == who <==> authored_by(authors, who).contains(
                k as usize,
            )),
        forall|j: int|
            0 <= j < authored_by(authors, who).len() ==> {
                let k = #[trigger] authored_by(authors, who)[j];
                k < authors.len() && authors[k as int] == who
            },
        forall|a: int, b: int|
            0 <= a < b < authored_by(authors, who).len() ==> #[trigger] authored_by(authors, who)[a]
                < #[trigger] authored_by(authors, who)[b],
    decreases authors.len(),
{
    if authors.len() > 0 {
        let t = authors.drop_last();
        lemma_authored_by_exact(t, who);
        let before = authored_by(t, who);
        let r = authored_by(authors, who);
        let last = (authors.len() - 1) as usize;
        assert forall|k: int| 0 <= k < authors.len() implies (authors[k] == who <==> r.contains(
            k as usize,
        )) by {
            if k < authors.len() - 1 {
                assert(authors[k] == t[k]);
                if r.contains(k as usize) {
                    let j = choose|j: int| 0 <= j < r.len() && r[j] == k as usize;
                    if j < before.len() {
                        assert(before[j] == r[j]);
                    }
                }
                if before.contains(k as usize) {
                    let j = choose|j: int| 0 <= j < before.len() && before[j] == k as usize;
                    assert(r[j] == before[j]);
                }
            } else {
                if authors[k] == who {
                    assert(r[r.len() - 1] == last);
                } else if r.contains(k as usize) {
                    let j = choose|j: int| 0 <= j < r.len() && r[j] == k as usize;
                    assert(before[j] == r[j]);
                }
            }
        }
        assert forall|j: int| 0 <= j < r.len() implies {
            let k = #[trigger] r[j];
            k < authors.len() && authors[k as int] == who
        } by {
            if j < before.len() {
                assert(r[j] == before[j]);
                assert(authors[before[j] as int] == t[before[j] as int]);
            }
        }
        assert forall|a: int, b: int| 0 <= a < b < r.len() implies #[trigger] r[a] < #[trigger] r[b] by {
            if b < before.len() {
                assert(r[a] == before[a]);
                assert(r[b] == before[b]);
            } else {
                assert(r[a] == before[a]);
            }
        }
    }
}

/// Who a permission overwrite applies to.
#[derive(Clone, Copy, Debug, PartialEq, Eq, Structural)]
pub enum OverwriteTarget {
    Role(u64),
    Member(u64),
}

/// A channel permission overwrite: what it grants and what it withholds.
#[derive(Clone, Copy, Debug, PartialEq, Eq, Structural)]
pub struct Overwrite {
    pub allow: Permissions,
    pub deny: Permissions,
    pub target: OverwriteTarget,
}

/// Opening a quarantine: create a channel named `name` with `lockout` so
/// the server at large cannot see it, record it, grant `entry` to the
/// newcomer, post `greeting`, then relay the newcomer's messages from the
/// verify channel `relay_from`, if the server has one.
pub struct QuarantinePlan {
    pub name: String,
    pub lockout: Overwrite,
    pub entry: Overwrite,
    pub greeting: String,
    pub relay_from: Option<u64>,
}

/// The name of the quarantine channel for a user.
pub fn channel_name(user_name: &str, discriminator: u16) -> (s: String)
    ensures
        s@ == quarantine_name(user_name@, discriminator),
{
    let mut s = String::new();
    s.append("quarantine-");
    s.append(user_name);
    push_char(&mut s, '-');
    push_decimal(&mut s, discriminator as u64);
    proof {
        assert(s@ =~= quarantine_name(user_name@, discriminator));
    }
    s
}

/// The plan for quarantining `author`, a member of server `guild` configured
/// by `config`. The server's everyone role has the server's id.
pub fn open_quarantine(author: &Member, guild: u64, config: &Config) -> (p: QuarantinePlan)
    ensures
        p.name@ == quarantine_name(author.name@, author.discriminator),
        p.lockout == (Overwrite {
            allow: Permissions { bits: 0 },
            deny: Permissions { bits: READ_MESSAGES | SEND_MESSAGES },
            target: OverwriteTarget::Role(guild),
        }),
        p.entry == (Overwrite {
            allow: Permissions { bits: READ_MESSAGES | SEND_MESSAGES },
            deny: Permissions { bits: 0 },
            target: OverwriteTarget::Member(author.user_id),
        }),
        p.greeting@ == greeting_text(author.user_id),
        p.relay_from == config@.channels.verify,
{
    let name = channel_name(author.name.as_str(), author.discriminator);
    let mut greeting = String::new();
    greeting.append("Hello ");
    push_user_mention(&mut greeting, author.user_id);
    greeting.append(", we've moved you in here to chat before you're verified");
    proof {
        assert(greeting@ =~= greeting_text(author.user_id));
    }
    QuarantinePlan {
        name,
        lockout: Overwrite {
            allow: Permissions::empty(),
            deny: Permissions::read_and_send(),
            target: OverwriteTarget::Role(guild),
        },
        entry: Overwrite {
            allow: Permissions::read_and_send(),
            deny: Permissions::empty(),
            target: OverwriteTarget::Member(author.user_id),
        },
        greeting,
        relay_from: config.channels.verify,
    }
}

/// Records the quarantine channel `channel`, holding `candidate`, in the
/// configuration of server `guild`.
pub fn record_quarantine(table: &mut Table, guild: u64, channel: u64, candidate: u64)
    ensures
        final(table)@ == old(table)@.insert(
            guild,
            config_or_fresh(old(table)@, guild).quarantined(channel, candidate),
        ),
{
    let mut config = table.config_for(guild);
    config.start_quarantine(channel, candidate);
    table.set(guild, config);
}

/// The positions, in order, of the messages whose author is `who`.
pub fn messages_by(authors: &Vec<u64>, who: u64) -> (r: Vec<usize>)
    ensures
        r@ == authored_by(authors@, who),
{
    let mut r: Vec<usize> = Vec::new();
    let n = authors.len();
    let mut i: usize = 0;
    while i < n
        invariant
            n == authors@.len(),
            i <= n,
            r@ == authored_by(authors@.subrange(0, i as int), who),
        decreases n - i,
    {
        let ghost prefix = authors@.subrange(0, i + 1);
        proof {
            assert(prefix.drop_last() =~= authors@.subrange(0, i as int));
        }
        if authors[i] == who {
            r.push(i);
        }
        i = i + 1;
    }
    proof {
        assert(authors@.subrange(0, n as int) =~= authors@);
    }
    r
}

/// The newcomer's messages to relay into the quarantine, oldest first: the
/// channel history comes newest first, so this is the positions of `who`'s
/// messages in reverse.
pub fn relay_order(authors: &Vec<u64>, who: u64) -> (r: Vec<usize>)
    ensures
        r@ == authored_by(authors@, who).reverse(),
{
    let fwd = messages_by(authors, who);
    let n = fwd.len();
    let mut r: Vec<usize> = Vec::new();
    let mut k = n;
    while k > 0
        invariant
            n == fwd@.len(),
            k <= n,
            r@.len() == n - k,
            forall|i: int| 0 <= i < r@.len() ==> r@[i] == fwd@[n - 1 - i],
        decreases k,
    {
        k = k - 1;
        r.push(fwd[k]);
    }
    proof {
        assert(r@ =~= fwd@.reverse());
    }
    r
}

/// The address of the avatar to show on relayed messages.
pub fn avatar_url(user_id: u64, avatar: &Option<String>, discriminator: u16) -> (s: String)
    ensures
        s@ == avatar_url_text(
            user_id,
            match avatar {
                Some(h) => Some(h@),
                None => None,
            },
            discriminator,
        ),
{
    let mut s = String::new();
    match avatar {
        Some(h) => {
            s.append("https://cdn.discordapp.com/avatars/");
            push_decimal(&mut s, user_id);
            push_char(&mut s, '/');
            s.append(h.as_str());
            push_char(&mut s, '.');
            let v = chars_of(h.as_str());
            if v.len() >= 2 && v[0] == 'a' && v[1] == '_' {
                s.append("gif");
            } else {
                s.append("webp");
            }
            s.append("?size=1024");
        },
        None => {
            s.append("https://cdn.discordapp.com/embed/avatars/");
            push_decimal(&mut s, (discriminator % 5) as u64);
            s.append(".png");
        },
    }
    proof {
        let a = match avatar {
            Some(h) => Some(h@),
            None => None,
        };
        assert(s@ =~= avatar_url_text(user_id, a, discriminator));
    }
    s
}

} // verus!
