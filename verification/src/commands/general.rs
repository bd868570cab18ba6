//! `-unverified`: who in the server still lacks the verified role, and for
//! how long; and the quarantine gate of `-accept` / `-deny`.

use crate::model::Member;
use crate::text::{push_char, push_decimal, push_signed, push_user_mention, signed_decimal, decimal, user_mention};
use vstd::prelude::*;

verus! {

/// How many workers check roles at once.
pub const ROLE_CHECK_THREADS: usize = 32;

/// The fewest members a worker is handed.
pub const ROLE_CHECK_CHUNK_MIN: usize = 4;

/// How many members each worker is handed, for `len` members.
pub open spec fn chunk_size_spec(len: nat, threads: nat, min: nat) -> nat {
    if len < threads {
        min
    } else {
        len / threads
    }
}

/// How many members each worker is handed, for `len` members.
pub fn chunk_size(len: usize, threads: usize, min: usize) -> (size: usize)
    requires
        threads > 0,
    ensures
        size == chunk_size_spec(len as nat, threads as nat, min as nat),
{
    if len < threads {
        min
    } else {
        len / threads
    }
}

/// How many whole chunks of `size` are handed out from `n` members: each
/// chunk is handed out when the next member arrives, so the last chunk,
/// full or not, never is.
pub open spec fn chunk_count(n: nat, size: nat) -> nat {
    if n == 0 {
        0
    } else {
        ((n - 1) as nat) / size
    }
}

/// Cuts `items` into chunks of `size`, in order. A chunk is closed when the
/// next item arrives, so the last chunk, full or not, is left out.
pub fn split_chunks<T>(items: Vec<T>, size: usize) -> (chunks: Vec<Vec<T>>)
    requires
        size > 0,
    ensures
        chunks@.len() == chunk_count(items@.len(), size as nat),
        forall|j: int|
            0 <= j < chunks@.len() ==> #[trigger] chunks@[j]@ == items@.subrange(
                j * size,
                (j + 1) * size,
            ),
{
    let ghost all = items@;
    let mut chunks: Vec<Vec<T>> = Vec::new();
    let mut single: Vec<T> = Vec::new();
    let ghost mut k: int = 0;
    proof {
        assert(chunks@.len() * size == 0);
        assert(single@ =~= all.subrange(0, 0));
    }
    for it in iter: items.into_iter()
        invariant
            iter.seq() == all,
            k == iter.index(),
            0 <= k <= all.len(),
            size > 0,
            single@.len() <= size,
            k == chunks@.len() * size + single@.len(),
            single@ == all.subrange(chunks@.len() * size, k as int),
            k == 0 ==> chunks@.len() == 0,
            k > 0 ==> single@.len() > 0,
            forall|j: int|
                0 <= j < chunks@.len() ==> #[trigger] chunks@[j]@ == all.subrange(
                    j * size,
                    (j + 1) * size,
                ),
    {
        let ghost c = chunks@.len();
        if single.len() == size {
            chunks.push(single);
            single = Vec::new();
            proof {
                assert((c + 1) * size == c * size + size) by (nonlinear_arith);
                assert(chunks@[c as int]@ == all.subrange(c * size, (c + 1) * size));
                assert(chunks@.len() * size == k) by (nonlinear_arith)
                    requires
                        chunks@.len() == c + 1,
                        k == c * size + size,
                ;
                assert(Seq::<T>::empty() =~= all.subrange(chunks@.len() * size, k));
            }
        }
        single.push(it);
        proof {
            k = k + 1;
            assert(single@ =~= all.subrange(chunks@.len() * size, k));
        }
    }
    proof {
        let n = all.len();
        let c = chunks@.len();
        if n > 0 {
            assert(n == c * size + single@.len());
            assert(0 < single@.len() <= size);
            assert(((n - 1) as nat) / (size as nat) == c) by (nonlinear_arith)
                requires
                    n == c * size + single@.len(),
                    0 < single@.len() <= size,
                    size > 0,
            ;
        }
    }
    chunks
}


/// The members that are not bots, in order.
pub open spec fn humans(ms: Seq<Member>) -> Seq<Member>
    decreases ms.len(),
{
    if ms.len() == 0 {
        Seq::empty()
    } else {
        let before = humans(ms.drop_last());
        if ms.last().bot {
            before
        } else {
            before.push(ms.last())
        }
    }
}

pub open spec fn has_role(m: Member, role: u64) -> bool {
    m.roles@.contains(role)
}

/// The members that do not hold `role`, in order.
pub open spec fn lacking_role(ms: Seq<Member>, role: u64) -> Seq<Member>
    decreases ms.len(),
{
    if ms.len() == 0 {
        Seq::empty()
    } else {
        let before = lacking_role(ms.drop_last(), role);
        if has_role(ms.last(), role) {
            before
        } else {
            before.push(ms.last())
        }
    }
}

/// The roster leaves out every bot, whatever roles it holds, and keeps every
/// member that is not a bot.
pub proof fn lemma_humans_exact(ms: Seq<Member>)
    ensures
        forall|k: int| 0 <= k < humans(ms).len() ==> !(#[trigger] humans(ms)[k]).bot,
        forall|k: int| 0 <= k < humans(ms).len() ==> ms.contains(#[trigger] humans(ms)[k]),
        forall|j: int| 0 <= j < ms.len() && !(#[trigger] ms[j]).bot ==> humans(ms).contains(ms[j]),
        humans(ms).len() <= ms.len(),
    decreases ms.len(),
{
    if ms.len() > 0 {
        let t = ms.drop_last();
        lemma_humans_exact(t);
        let h = humans(t);
        let r = humans(ms);
        assert forall|k: int| 0 <= k < r.len() implies !(#[trigger] r[k]).bot && ms.contains(r[k]) by {
            if k < h.len() {
                assert(r[k] == h[k]);
                let w = choose|w: int| 0 <= w < t.len() && t[w] == h[k];
                assert(ms[w] == t[w]);
            } else {
                assert(r[k] == ms.last());
                assert(ms[ms.len() - 1] == ms.last());
            }
        }
        assert forall|j: int| 0 <= j < ms.len() && !(#[trigger] ms[j]).bot implies r.contains(ms[j]) by {
            if j < ms.len() - 1 {
                assert(t[j] == ms[j]);
                let w = choose|w: int| 0 <= w < h.len() && h[w] == t[j];
                assert(r[w] == h[w]);
            } else {
                assert(r[r.len() - 1] == ms[j]);
            }
        }
    }
}

/// A member listed as unverified holds the verified role at no position of
/// their roles, and every member that holds it at no position is listed.
pub proof fn lemma_lacking_role_exact(ms: Seq<Member>, role: u64)
    ensures
        forall|k: int, i: int|
            #![trigger lacking_role(ms, role)[k].roles@[i]]
            0 <= k < lacking_role(ms, role).len() && 0 <= i < lacking_role(ms, role)[k].roles@.len()
                ==> lacking_role(ms, role)[k].roles@[i] != role,
        forall|k: int| 0 <= k < lacking_role(ms, role).len() ==> ms.contains(#[trigger] lacking_role(ms, role)[k]),
        forall|j: int|
            0 <= j < ms.len() && (forall|i: int| 0 <= i < (#[trigger] ms[j]).roles@.len() ==> ms[j].roles@[i] != role)
                ==> lacking_role(ms, role).contains(ms[j]),
    decreases ms.len(),
{
    if ms.len() > 0 {
        let t = ms.drop_last();
        lemma_lacking_role_exact(t, role);
        let h = lacking_role(t, role);
        let r = lacking_role(ms, role);
        assert forall|k: int| 0 <= k < r.len() implies ms.contains(#[trigger] r[k]) && (forall|i: int|
            0 <= i < r[k].roles@.len() ==> r[k].roles@[i] != role) by {
            if k < h.len() {
                assert(r[k] == h[k]);
                let w = choose|w: int| 0 <= w < t.len() && t[w] == h[k];
                assert(ms[w] == t[w]);
            } else {
                assert(r[k] == ms.last());
                assert(ms[ms.len() - 1] == ms.last());
                assert(!has_role(ms.last(), role));
                assert forall|i: int| 0 <= i < r[k].roles@.len() implies r[k].roles@[i] != role by {
                    if r[k].roles@[i] == role {
                        assert(ms.last().roles@.contains(role));
                    }
                }
            }
        }
        assert forall|j: int|
            0 <= j < ms.len() && (forall|i: int| 0 <= i < (#[trigger] ms[j]).roles@.len() ==> ms[j].roles@[i] != role)
            implies r.contains(ms[j]) by {
            if j < ms.len() - 1 {
                assert(t[j] == ms[j]);
                let w = choose|w: int| 0 <= w < h.len() && h[w] == t[j];
                assert(r[w] == h[w]);
            } else {
                assert(ms[j] == ms.last());
                assert(!ms.last().roles@.contains(role));
                assert(r[r.len() - 1] == ms[j]);
            }
        }
    }
}

/// Drops the bots from `members`, keeping the order of the rest.
pub fn drop_bots(members: Vec<Member>) -> (r: Vec<Member>)
    ensures
        r@ == humans(members@),
{
    let ghost all = members@;
    let mut r: Vec<Member> = Vec::new();
    for m in iter: members.into_iter()
        invariant
            iter.seq() == all,
            0 <= iter.index() <= all.len(),
            r@ == humans(all.subrange(0, iter.index())),
    {
        let ghost i = iter.index();
        proof {
            assert(all.subrange(0, i + 1).drop_last() =~= all.subrange(0, i));
            assert(all[i] == m);
        }
        if !m.bot {
            r.push(m);
        }
    }
    proof {
        assert(all.subrange(0, all.len() as int) =~= all);
    }
    r
}

/// Whether `member` holds `role`.
pub fn member_has_role(member: &Member, role: u64) -> (b: bool)
    ensures
        b == has_role(*member, role),
        b == (exists|i: int| 0 <= i < member.roles@.len() && member.roles@[i] == role),
{
    let n = member.roles.len();
    let mut i: usize = 0;
    while i < n
        invariant
            n == member.roles@.len(),
            i <= n,
            forall|j: int| 0 <= j < i ==> member.roles@[j] != role,
        decreases n - i,
    {
        if member.roles[i] == role {
            proof {
                assert(member.roles@[i as int] == role);
            }
            return true;
        }
        i = i + 1;
    }
    false
}

/// The members of `chunk` that do not hold `role`, in order: the work
/// handed to one role-checking worker.
pub fn unverified_in(chunk: Vec<Member>, role: u64) -> (r: Vec<Member>)
    ensures
        r@ == lacking_role(chunk@, role),
{
    let ghost all = chunk@;
    let mut r: Vec<Member> = Vec::new();
    for m in iter: chunk.into_iter()
        invariant
            iter.seq() == all,
            0 <= iter.index() <= all.len(),
            r@ == lacking_role(all.subrange(0, iter.index()), role),
    {
        let ghost i = iter.index();
        proof {
            assert(all.subrange(0, i + 1).drop_last() =~= all.subrange(0, i));
            assert(all[i] == m);
        }
        if !member_has_role(&m, role) {
            r.push(m);
        }
    }
    proof {
        assert(all.subrange(0, all.len() as int) =~= all);
    }
    r
}

/// The roster split for the role-checking workers: the members that are
/// not bots, in chunks of [`chunk_size`] for them, the last chunk left out.
pub fn collect_chunks(members: Vec<Member>) -> (chunks: Vec<Vec<Member>>)
    ensures
        ({
            let h = humans(members@);
            let size = chunk_size_spec(h.len(), ROLE_CHECK_THREADS as nat, ROLE_CHECK_CHUNK_MIN as nat);
            &&& chunks@.len() == chunk_count(h.len(), size)
            &&& forall|j: int|
                0 <= j < chunks@.len() ==> #[trigger] chunks@[j]@ == h.subrange(
                    j * size,
                    (j + 1) * size,
                )
        }),
{
    let entire = drop_bots(members);
    let size = chunk_size(entire.len(), ROLE_CHECK_THREADS, ROLE_CHECK_CHUNK_MIN);
    split_chunks(entire, size)
}

/// The lines of text `lines`, one after another, parted by line breaks.
pub open spec fn join_lines(lines: Seq<Seq<char>>) -> Seq<char>
    decreases lines.len(),
{
    if lines.len() == 0 {
        Seq::empty()
    } else if lines.len() == 1 {
        lines[0]
    } else {
        join_lines(lines.drop_last()) + seq!['\n'] + lines.last()
    }
}

proof fn lemma_join_step(lines: Seq<Seq<char>>, k: int)
    requires
        0 <= k < lines.len(),
    ensures
        join_lines(lines.subrange(0, k + 1)) == if k == 0 {
            lines[0]
        } else {
            join_lines(lines.subrange(0, k)) + seq!['\n'] + lines[k]
        },
{
    let t = lines.subrange(0, k + 1);
    assert(t.drop_last() =~= lines.subrange(0, k));
    if k == 0 {
        assert(t.len() == 1);
    }
}

/// The progress note once the roster is split.
pub fn filtering_message(chunks: usize) -> (s: String)
    ensures
        s@ == "filtering "@ + decimal(chunks as nat) + " user chunks"@,
{
    let mut s = String::new();
    s.append("filtering ");
    push_decimal(&mut s, chunks as u64);
    s.append(" user chunks");
    proof {
        assert(s@ =~= "filtering "@ + decimal(chunks as nat) + " user chunks"@);
    }
    s
}


/// When each member joined.
pub open spec fn join_times(ms: Seq<Member>) -> Seq<i64> {
    ms.map_values(|m: Member| m.joined_at.unwrap())
}

/// Whether the member at `a` is listed before the member at `b`: the later
/// joiner first, and of two who joined at once, the one further down the
/// roster first.
pub open spec fn shown_before(times: Seq<i64>, a: int, b: int) -> bool {
    times[a] > times[b] || (times[a] == times[b] && a > b)
}

/// `order` with position `i` put in before the first entry not shown before it.
pub open spec fn insert_shown(times: Seq<i64>, order: Seq<usize>, i: usize) -> Seq<usize>
    decreases order.len(),
{
    if order.len() == 0 {
        seq![i]
    } else if shown_before(times, order[0] as int, i as int) {
        seq![order[0]] + insert_shown(times, order.drop_first(), i)
    } else {
        seq![i] + order
    }
}

/// The order in which the first `n` members are listed.
pub open spec fn display_order(times: Seq<i64>, n: nat) -> Seq<usize>
    decreases n,
{
    if n == 0 {
        Seq::empty()
    } else {
        insert_shown(times, display_order(times, (n - 1) as nat), (n - 1) as usize)
    }
}

/// Whether `order` lists every one of `n` members once, each shown before
/// the next.
pub open spec fn is_display_order(times: Seq<i64>, order: Seq<usize>, n: nat) -> bool {
    &&& order.len() == n
    &&& forall|k: int| 0 <= k < order.len() ==> #[trigger] order[k] < n
    &&& forall|a: int, b: int|
        0 <= a < b < order.len() ==> shown_before(times, #[trigger] order[a] as int, #[trigger] order[b] as int)
}

/// Division that rounds toward zero, as Rust's integer division does.
pub open spec fn tdiv(a: int, b: int) -> int {
    if a >= 0 {
        a / b
    } else {
        -((-a) / b)
    }
}

/// How long ago, written `` `Xd Yh Zm` ``, for a span of `delta`
/// microseconds: whole days, then the hours and minutes past them.
pub open spec fn duration_text(delta: int) -> Seq<char> {
    let secs = tdiv(delta, 1000000);
    let days = tdiv(secs, 86400);
    let hours = tdiv(secs, 3600);
    let minutes = tdiv(secs, 60);
    seq!['`'] + signed_decimal(days) + "d "@ + signed_decimal(hours - days * 24) + "h "@
        + signed_decimal(minutes - hours * 60) + "m`"@
}

/// One line of the roster: who, and since when they are unverified.
pub open spec fn roster_line(m: Member, now: i64) -> Seq<char> {
    user_mention(m.user_id) + " unverified for "@ + duration_text(now - m.joined_at.unwrap())
}

/// The roster of `ms` at time `now`, one line each, latest joiner first.
pub open spec fn roster_text(ms: Seq<Member>, now: i64) -> Seq<char> {
    join_lines(
        display_order(join_times(ms), ms.len()).map_values(|k: usize| roster_line(ms[k as int], now)),
    )
}

proof fn lemma_insert_at(times: Seq<i64>, order: Seq<usize>, i: usize, q: int)
    requires
        0 <= q <= order.len(),
        forall|r: int| 0 <= r < q ==> shown_before(times, #[trigger] order[r] as int, i as int),
        q < order.len() ==> !shown_before(times, order[q] as int, i as int),
    ensures
        insert_shown(times, order, i) == order.insert(q, i),
    decreases order.len(),
{
    if order.len() == 0 {
        assert(order.insert(q, i) =~= seq![i]);
    } else if q == 0 {
        assert(order.insert(q, i) =~= seq![i] + order);
    } else {
        let t = order.drop_first();
        assert forall|r: int| 0 <= r < q - 1 implies shown_before(times, #[trigger] t[r] as int, i as int) by {
            assert(t[r] == order[r + 1]);
        }
        if q - 1 < t.len() {
            assert(t[q - 1] == order[q]);
        }
        lemma_insert_at(times, t, i, q - 1);
        assert(shown_before(times, order[0] as int, i as int));
        assert(seq![order[0]] + t.insert(q - 1, i) =~= order.insert(q, i));
    }
}

proof fn lemma_insert_keeps_order(times: Seq<i64>, order: Seq<usize>, i: usize, n: nat)
    requires
        i < n <= times.len(),
        forall|k: int| 0 <= k < order.len() ==> #[trigger] order[k] < i,
        forall|a: int, b: int|
            0 <= a < b < order.len() ==> shown_before(times, #[trigger] order[a] as int, #[trigger] order[b] as int),
    ensures
        ({
            let r = insert_shown(times, order, i);
            &&& r.len() == order.len() + 1
            &&& forall|k: int| 0 <= k < r.len() ==> #[trigger] r[k] == i || order.contains(r[k])
            &&& forall|a: int, b: int|
                0 <= a < b < r.len() ==> shown_before(times, #[trigger] r[a] as int, #[trigger] r[b] as int)
        }),
    decreases order.len(),
{
    let r = insert_shown(times, order, i);
    if order.len() == 0 {
    } else if shown_before(times, order[0] as int, i as int) {
        let t = order.drop_first();
        assert forall|k: int| 0 <= k < t.len() implies #[trigger] t[k] < i by {
            assert(t[k] == order[k + 1]);
        }
        assert forall|a: int, b: int| 0 <= a < b < t.len() implies shown_before(times, #[trigger] t[a] as int, #[trigger] t[b] as int) by {
            assert(t[a] == order[a + 1]);
            assert(t[b] == order[b + 1]);
        }
        lemma_insert_keeps_order(times, t, i, n);
        let rt = insert_shown(times, t, i);
        assert(r == seq![order[0]] + rt);
        assert forall|k: int| 0 <= k < r.len() implies #[trigger] r[k] == i || order.contains(r[k]) by {
            if k == 0 {
                assert(order[0] == r[0]);
            } else {
                assert(r[k] == rt[k - 1]);
                if rt[k - 1] != i {
                    let w = choose|w: int| 0 <= w < t.len() && t[w] == rt[k - 1];
                    assert(order[w + 1] == t[w]);
                }
            }
        }
        assert forall|a: int, b: int| 0 <= a < b < r.len() implies shown_before(times, #[trigger] r[a] as int, #[trigger] r[b] as int) by {
            if a == 0 {
                assert(r[b] == rt[b - 1]);
                if rt[b - 1] != i {
                    let w = choose|w: int| 0 <= w < t.len() && t[w] == rt[b - 1];
                    assert(order[w + 1] == t[w]);
                    assert(shown_before(times, order[0] as int, order[w + 1] as int));
                }
            } else {
                assert(r[a] == rt[a - 1]);
                assert(r[b] == rt[b - 1]);
            }
        }
    } else {
        assert(r == seq![i] + order);
        assert(order[0] < i);
        assert(shown_before(times, i as int, order[0] as int));
        assert forall|k: int| 0 <= k < r.len() implies #[trigger] r[k] == i || order.contains(r[k]) by {
            if k > 0 {
                assert(r[k] == order[k - 1]);
            }
        }
        assert forall|a: int, b: int| 0 <= a < b < r.len() implies shown_before(times, #[trigger] r[a] as int, #[trigger] r[b] as int) by {
            assert(r[b] == order[b - 1]);
            if a == 0 {
                if b > 1 {
                    assert(shown_before(times, order[0] as int, order[b - 1] as int));
                }
            } else {
                assert(r[a] == order[a - 1]);
            }
        }
    }
}

/// The roster order lists every member once, each member shown before the
/// next: later joiners first, and of members who joined at the same
/// instant, the one further down the roster first.
pub proof fn lemma_display_order_sorted(times: Seq<i64>, n: nat)
    requires
        n <= times.len(),
        n <= usize::MAX,
    ensures
        is_display_order(times, display_order(times, n), n),
    decreases n,
{
    if n > 0 {
        let prev = display_order(times, (n - 1) as nat);
        lemma_display_order_sorted(times, (n - 1) as nat);
        lemma_insert_keeps_order(times, prev, (n - 1) as usize, n);
        let r = display_order(times, n);
        assert forall|k: int| 0 <= k < r.len() implies #[trigger] r[k] < n by {
            if r[k] != (n - 1) as usize {
                let w = choose|w: int| 0 <= w < prev.len() && prev[w] == r[k];
                assert(prev[w] < n - 1);
            }
        }
    }
}

/// The positions of the members in roster order.
pub fn roster_order(times: &Vec<i64>) -> (order: Vec<usize>)
    ensures
        order@ == display_order(times@, times@.len()),
{
    let n = times.len();
    let mut order: Vec<usize> = Vec::new();
    let mut i: usize = 0;
    while i < n
        invariant
            n == times@.len(),
            i <= n,
            order@ == display_order(times@, i as nat),
            is_display_order(times@, order@, i as nat),
        decreases n - i,
    {
        proof {
            lemma_display_order_sorted(times@, i as nat);
        }
        let mut q: usize = 0;
        while q < order.len() && (times[order[q]] > times[i] || (times[order[q]] == times[i]
            && order[q] > i))
            invariant
                n == times@.len(),
                i < n,
                is_display_order(times@, order@, i as nat),
                q <= order@.len(),
                forall|r: int| 0 <= r < q ==> shown_before(times@, #[trigger] order@[r] as int, i as int),
            decreases order@.len() - q,
        {
            q = q + 1;
        }
        proof {
            lemma_insert_at(times@, order@, i, q as int);
            lemma_display_order_sorted(times@, (i + 1) as nat);
        }
        order.insert(q, i);
        i = i + 1;
    }
    order
}


/// Appends how long ago `joined` was at `now`, both in microseconds.
pub fn push_duration(s: &mut String, now: i64, joined: i64)
    ensures
        final(s)@ == old(s)@ + duration_text(now - joined),
{
    let delta: i128 = now as i128 - joined as i128;
    let negative = delta < 0;
    let mag: u128 = if negative { (0i128 - delta) as u128 } else { delta as u128 };
    let secs: u128 = mag / 1000000;
    let days: u128 = secs / 86400;
    let hours: u128 = secs / 3600;
    let minutes: u128 = secs / 60;
    proof {
        assert(hours >= days * 24);
        assert(minutes >= hours * 60);
        assert(mag <= 0x1_0000_0000_0000_0000u128);
        assert(secs <= 0x1_0000_0000_0000u128);
    }
    let day_part: u64 = days as u64;
    let hour_part: u64 = (hours - days * 24) as u64;
    let minute_part: u64 = (minutes - hours * 60) as u64;
    push_char(s, '`');
    push_signed(s, negative, day_part);
    s.append("d ");
    push_signed(s, negative, hour_part);
    s.append("h ");
    push_signed(s, negative, minute_part);
    s.append("m`");
    proof {
        let d: int = now - joined;
        let sec = tdiv(d, 1000000);
        if negative {
            assert(sec == -(secs as int));
            assert(tdiv(sec, 86400) == -(days as int));
            assert(tdiv(sec, 3600) == -(hours as int));
            assert(tdiv(sec, 60) == -(minutes as int));
        } else {
            assert(sec == secs as int);
        }
        assert(final(s)@ =~= old(s)@ + duration_text(d));
    }
}

/// The roster of unverified members at time `now`, one line each, naming
/// the member and how long they have been unverified, latest joiner first.
pub fn draw_uvs(members: &Vec<Member>, now: i64) -> (s: String)
    requires
        forall|i: int| 0 <= i < members@.len() ==> (#[trigger] members@[i]).joined_at is Some,
    ensures
        s@ == roster_text(members@, now),
{
    let n = members.len();
    let mut times: Vec<i64> = Vec::new();
    let mut i: usize = 0;
    while i < n
        invariant
            n == members@.len(),
            i <= n,
            forall|j: int| 0 <= j < members@.len() ==> (#[trigger] members@[j]).joined_at is Some,
            times@ =~= join_times(members@).subrange(0, i as int),
        decreases n - i,
    {
        times.push(members[i].joined_at.unwrap());
        i = i + 1;
    }
    proof {
        assert(times@ =~= join_times(members@));
        lemma_display_order_sorted(times@, n as nat);
    }
    let order = roster_order(&times);
    let ghost lines = order@.map_values(|k: usize| roster_line(members@[k as int], now));
    let mut s = String::new();
    let mut k: usize = 0;
    proof {
        assert(lines.subrange(0, 0) =~= Seq::<Seq<char>>::empty());
    }
    while k < n
        invariant
            n == members@.len(),
            n == order@.len(),
            forall|j: int| 0 <= j < order@.len() ==> #[trigger] order@[j] < n,
            lines == order@.map_values(|k: usize| roster_line(members@[k as int], now)),
            forall|j: int| 0 <= j < members@.len() ==> (#[trigger] members@[j]).joined_at is Some,
            k <= n,
            s@ == join_lines(lines.subrange(0, k as int)),
        decreases n - k,
    {
        proof {
            lemma_join_step(lines, k as int);
        }
        let ghost before = s@;
        if k > 0 {
            push_char(&mut s, '\n');
        }
        let m = &members[order[k]];
        let ghost mid = s@;
        push_user_mention(&mut s, m.user_id);
        s.append(" unverified for ");
        push_duration(&mut s, now, m.joined_at.unwrap());
        proof {
            assert(s@ =~= mid + roster_line(*m, now));
            if k > 0 {
                assert(s@ =~= before + seq!['\n'] + lines[k as int]);
            } else {
                assert(before =~= Seq::<char>::empty());
                assert(s@ =~= lines[k as int]);
            }
        }
        k = k + 1;
    }
    proof {
        assert(lines.subrange(0, n as int) =~= lines);
    }
    s
}

} // verus!
