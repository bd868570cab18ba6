//! Decimal rendering and parsing of snowflake ids, and Discord mention syntax.

use vstd::prelude::*;

verus! {

/// The character of a decimal digit.
pub open spec fn digit_char(d: nat) -> char {
    (48 + d) as char
}

/// Whether `c` is one of the ASCII digits `0`..`9`.
pub open spec fn is_digit(c: char) -> bool {
    '0' <= c && c <= '9'
}

/// The decimal numeral of `n`, without sign or leading zeros.
pub open spec fn decimal(n: nat) -> Seq<char>
    decreases n,
{
    if n < 10 {
        seq![digit_char(n)]
    } else {
        decimal(n / 10).push(digit_char(n % 10))
    }
}

/// The numeral of a signed integer: a minus sign before the decimal of its magnitude.
pub open spec fn signed_decimal(v: int) -> Seq<char> {
    if v < 0 {
        seq!['-'].add(decimal((-v) as nat))
    } else {
        decimal(v as nat)
    }
}

pub open spec fn all_digits(s: Seq<char>) -> bool {
    forall|i: int| 0 <= i < s.len() ==> is_digit(#[trigger] s[i])
}

/// The value of a string of decimal digits.
pub open spec fn digits_value(s: Seq<char>) -> nat
    decreases s.len(),
{
    if s.len() == 0 {
        0
    } else {
        digits_value(s.drop_last()) * 10 + ((s.last() as int - 48) as nat)
    }
}

/// What the standard library's `u64::from_str` gives back: an optional
/// leading `+`, then at least one ASCII digit, with a value that fits.
pub open spec fn parse_u64_spec(s: Seq<char>) -> Option<u64> {
    digits_number(if s.len() > 0 && s[0] == '+' { s.drop_first() } else { s })
}

/// The value of a nonempty run of decimal digits, when it fits in a `u64`.
pub open spec fn digits_number(body: Seq<char>) -> Option<u64> {
    if body.len() > 0 && all_digits(body) && digits_value(body) <= u64::MAX {
        Some(digits_value(body) as u64)
    } else {
        None
    }
}

pub open spec fn user_mention(id: u64) -> Seq<char> {
    seq!['<', '@'] + decimal(id as nat) + seq!['>']
}

pub open spec fn channel_mention(id: u64) -> Seq<char> {
    seq!['<', '#'] + decimal(id as nat) + seq!['>']
}

pub open spec fn role_mention(id: u64) -> Seq<char> {
    seq!['<', '@', '&'] + decimal(id as nat) + seq!['>']
}

/// The id inside a channel mention `<#id>`.
pub open spec fn channel_mention_id(s: Seq<char>) -> Option<u64> {
    if s.len() >= 4 && s[0] == '<' && s[1] == '#' && s.last() == '>' {
        parse_u64_spec(s.subrange(2, s.len() - 1))
    } else {
        None
    }
}

/// The id inside a role mention `<@&id>`.
pub open spec fn role_mention_id(s: Seq<char>) -> Option<u64> {
    if s.len() >= 4 && s[0] == '<' && s[1] == '@' && s[2] == '&' && s.last() == '>' {
        parse_u64_spec(s.subrange(3, s.len() - 1))
    } else {
        None
    }
}

/// How a channel id is read from a command argument: a mention, or else a bare number.
pub open spec fn channel_id_spec(s: Seq<char>) -> Option<u64> {
    match channel_mention_id(s) {
        Some(id) => Some(id),
        None => parse_u64_spec(s),
    }
}

/// How a role id is read from a command argument: a mention, or else a bare number.
pub open spec fn role_id_spec(s: Seq<char>) -> Option<u64> {
    match role_mention_id(s) {
        Some(id) => Some(id),
        None => parse_u64_spec(s),
    }
}

/// Appends one character by `String::push` of the standard library. Trusted:
/// the contract claims, as that function's documentation says, that the
/// string afterwards is the string before with `c` added at its end.
#[verifier::external_body]
pub(crate) fn push_char(s: &mut String, c: char)
    ensures
        final(s)@ == old(s)@.push(c),
{
    s.push(c)
}

fn digit_of(d: u64) -> (c: char)
    requires
        d < 10,
    ensures
        c == digit_char(d as nat),
{
    let b: u8 = 48u8 + (d as u8);
    b as char
}

/// Appends the decimal numeral of `n` to `s`.
pub fn push_decimal(s: &mut String, n: u64)
    ensures
        final(s)@ == old(s)@ + decimal(n as nat),
    decreases n,
{
    if n >= 10 {
        push_decimal(s, n / 10);
    }
    push_char(s, digit_of(n % 10));
    proof {
        if n >= 10 {
            assert(decimal(n as nat) == decimal((n / 10) as nat).push(digit_char((n % 10) as nat)));
        } else {
            assert(decimal(n as nat) == seq![digit_char(n as nat)]);
        }
    }
}

/// The decimal numeral of `n`.
pub fn render_u64(n: u64) -> (s: String)
    ensures
        s@ == decimal(n as nat),
{
    let mut s = String::new();
    push_decimal(&mut s, n);
    proof {
        assert(s@ == Seq::<char>::empty() + decimal(n as nat));
        assert(Seq::<char>::empty() + decimal(n as nat) =~= decimal(n as nat));
    }
    s
}


/// The characters of `s`, in order.
pub fn chars_of(s: &str) -> (v: Vec<char>)
    ensures
        v@ == s@,
{
    let n = s.unicode_len();
    let mut v: Vec<char> = Vec::new();
    let mut i: usize = 0;
    while i < n
        invariant
            n == s@.len(),
            i <= n,
            v@ == s@.subrange(0, i as int),
        decreases n - i,
    {
        let c = s.get_char(i);
        v.push(c);
        i = i + 1;
        proof {
            assert(v@ =~= s@.subrange(0, i as int));
        }
    }
    proof {
        assert(v@ =~= s@);
    }
    v
}

proof fn lemma_digits_prefix(s: Seq<char>, j: int)
    requires
        all_digits(s),
        0 <= j <= s.len(),
    ensures
        digits_value(s.subrange(0, j)) <= digits_value(s),
    decreases s.len(),
{
    if j == s.len() {
        assert(s.subrange(0, j) =~= s);
    } else {
        let t = s.drop_last();
        assert(all_digits(t)) by {
            assert forall|i: int| 0 <= i < t.len() implies is_digit(#[trigger] t[i]) by {
                assert(t[i] == s[i]);
            }
        }
        lemma_digits_prefix(t, j);
        assert(t.subrange(0, j) =~= s.subrange(0, j));
        assert(is_digit(s[s.len() - 1]));
    }
}

/// Reads the characters `v[lo..hi]` as `u64::from_str` does.
pub fn parse_digits(v: &Vec<char>, lo: usize, hi: usize) -> (r: Option<u64>)
    requires
        lo <= hi <= v@.len(),
    ensures
        r == parse_u64_spec(v@.subrange(lo as int, hi as int)),
{
    let ghost s = v@.subrange(lo as int, hi as int);
    let mut start = lo;
    if lo < hi && v[lo] == '+' {
        start = lo + 1;
    }
    let ghost body = v@.subrange(start as int, hi as int);
    proof {
        if s.len() > 0 && s[0] == '+' {
            assert(body =~= s.drop_first());
        } else {
            assert(body =~= s);
        }
    }
    if start == hi {
        return None;
    }
    let mut acc: u64 = 0;
    let mut i = start;
    proof {
        assert(v@.subrange(start as int, i as int) =~= Seq::<char>::empty());
    }
    while i < hi
        invariant
            lo <= start <= i <= hi <= v@.len(),
            start < hi,
            body == v@.subrange(start as int, hi as int),
            parse_u64_spec(v@.subrange(lo as int, hi as int)) == digits_number(body),
            all_digits(v@.subrange(start as int, i as int)),
            acc as nat == digits_value(v@.subrange(start as int, i as int)),
        ensures
            i == hi,
        decreases hi - i,
    {
        let c = v[i];
        if !('0' <= c && c <= '9') {
            proof {
                assert(body[i - start] == c);
            }
            return None;
        }
        let d: u64 = (c as u32 - 48u32) as u64;
        let ghost next = v@.subrange(start as int, i + 1);
        proof {
            assert(next.drop_last() =~= v@.subrange(start as int, i as int));
            assert(next.last() == c);
            assert(all_digits(next)) by {
                assert forall|k: int| 0 <= k < next.len() implies is_digit(#[trigger] next[k]) by {
                    if k < next.len() - 1 {
                        assert(next[k] == v@.subrange(start as int, i as int)[k]);
                    }
                }
            }
            assert(digits_value(next) == digits_value(next.drop_last()) * 10 + ((next.last() as int - 48) as nat));
        }
        if acc > (u64::MAX - d) / 10 {
            proof {
                assert(acc * 10 + d > u64::MAX) by (nonlinear_arith)
                    requires
                        acc > (u64::MAX - d) / 10,
                        d < 10,
                ;
                if all_digits(body) {
                    assert(next =~= body.subrange(0, i + 1 - start));
                    lemma_digits_prefix(body, i + 1 - start);
                }
            }
            return None;
        }
        proof {
            assert(acc * 10 + d <= u64::MAX) by (nonlinear_arith)
                requires
                    acc <= (u64::MAX - d) / 10,
                    d < 10,
            ;
        }
        acc = acc * 10 + d;
        i = i + 1;
    }
    proof {
        assert(v@.subrange(start as int, i as int) == body);
    }
    Some(acc)
}

/// `u64::from_str`.
pub fn parse_u64(s: &str) -> (r: Option<u64>)
    ensures
        r == parse_u64_spec(s@),
{
    let v = chars_of(s);
    let n = v.len();
    proof {
        assert(v@.subrange(0, n as int) =~= s@);
    }
    parse_digits(&v, 0, n)
}

/// Reads a channel id from a command argument: `<#id>` or a bare number.
pub fn parse_channel_id(s: &str) -> (r: Option<u64>)
    ensures
        r == channel_id_spec(s@),
{
    let v = chars_of(s);
    let n = v.len();
    proof {
        assert(v@.subrange(0, n as int) =~= s@);
    }
    if n >= 4 && v[0] == '<' && v[1] == '#' && v[n - 1] == '>' {
        let inner = parse_digits(&v, 2, n - 1);
        if inner.is_some() {
            return inner;
        }
    }
    parse_digits(&v, 0, n)
}

/// Reads a role id from a command argument: `<@&id>` or a bare number.
pub fn parse_role_id(s: &str) -> (r: Option<u64>)
    ensures
        r == role_id_spec(s@),
{
    let v = chars_of(s);
    let n = v.len();
    proof {
        assert(v@.subrange(0, n as int) =~= s@);
    }
    if n >= 4 && v[0] == '<' && v[1] == '@' && v[2] == '&' && v[n - 1] == '>' {
        let inner = parse_digits(&v, 3, n - 1);
        if inner.is_some() {
            return inner;
        }
    }
    parse_digits(&v, 0, n)
}


/// Appends the numeral of the signed value `-mag` (when `negative`) or `mag`.
pub fn push_signed(s: &mut String, negative: bool, mag: u64)
    ensures
        final(s)@ == old(s)@ + signed_decimal(if negative { -(mag as int) } else { mag as int }),
{
    let ghost v: int = if negative { -(mag as int) } else { mag as int };
    if negative && mag != 0 {
        push_char(s, '-');
        push_decimal(s, mag);
        proof {
            assert(signed_decimal(v) == seq!['-'].add(decimal(mag as nat)));
            assert(old(s)@.push('-') + decimal(mag as nat) =~= old(s)@ + seq!['-'].add(decimal(mag as nat)));
        }
    } else {
        push_decimal(s, mag);
        proof {
            assert(signed_decimal(v) == decimal(mag as nat));
        }
    }
}

/// Appends `<@id>`, the mention of a user.
pub fn push_user_mention(s: &mut String, id: u64)
    ensures
        final(s)@ == old(s)@ + user_mention(id),
{
    push_char(s, '<');
    push_char(s, '@');
    push_decimal(s, id);
    push_char(s, '>');
    proof {
        assert(final(s)@ =~= old(s)@ + user_mention(id));
    }
}

/// Appends `<#id>`, the mention of a channel.
pub fn push_channel_mention(s: &mut String, id: u64)
    ensures
        final(s)@ == old(s)@ + channel_mention(id),
{
    push_char(s, '<');
    push_char(s, '#');
    push_decimal(s, id);
    push_char(s, '>');
    proof {
        assert(final(s)@ =~= old(s)@ + channel_mention(id));
    }
}

/// Appends `<@&id>`, the mention of a role.
pub fn push_role_mention(s: &mut String, id: u64)
    ensures
        final(s)@ == old(s)@ + role_mention(id),
{
    push_char(s, '<');
    push_char(s, '@');
    push_char(s, '&');
    push_decimal(s, id);
    push_char(s, '>');
    proof {
        assert(final(s)@ =~= old(s)@ + role_mention(id));
    }
}

/// The numeral of `n` is a nonempty run of digits whose value is `n`.
pub proof fn lemma_decimal_digits(n: nat)
    ensures
        decimal(n).len() >= 1,
        all_digits(decimal(n)),
        digits_value(decimal(n)) == n,
    decreases n,
{
    let c = digit_char(n % 10);
    assert(c as int == 48 + n % 10);
    if n < 10 {
        let d = decimal(n);
        assert(d == seq![c]);
        assert(d.drop_last() =~= Seq::<char>::empty());
        assert(digits_value(d) == digits_value(d.drop_last()) * 10 + ((d.last() as int - 48) as nat));
    } else {
        lemma_decimal_digits(n / 10);
        let d = decimal(n);
        let p = decimal(n / 10);
        assert(d == p.push(c));
        assert(d.drop_last() =~= p);
        assert(digits_value(d) == digits_value(p) * 10 + ((d.last() as int - 48) as nat));
        assert(n == (n / 10) * 10 + n % 10);
        assert forall|i: int| 0 <= i < d.len() implies is_digit(#[trigger] d[i]) by {
            if i < p.len() {
                assert(d[i] == p[i]);
            }
        }
    }
}

/// Reading back the numeral the bot writes gives the number it wrote.
pub proof fn lemma_decimal_parses_back(n: u64)
    ensures
        parse_u64_spec(decimal(n as nat)) == Some(n),
{
    lemma_decimal_digits(n as nat);
    assert(is_digit(decimal(n as nat)[0]));
}

/// A channel mention written by the bot is read back as the same channel.
pub proof fn lemma_channel_mention_parses_back(id: u64)
    ensures
        channel_id_spec(channel_mention(id)) == Some(id),
{
    let m = channel_mention(id);
    lemma_decimal_parses_back(id);
    lemma_decimal_digits(id as nat);
    assert(m.subrange(2, m.len() - 1) =~= decimal(id as nat));
}

/// A role mention written by the bot is read back as the same role.
pub proof fn lemma_role_mention_parses_back(id: u64)
    ensures
        role_id_spec(role_mention(id)) == Some(id),
{
    let m = role_mention(id);
    lemma_decimal_parses_back(id);
    lemma_decimal_digits(id as nat);
    assert(m.subrange(3, m.len() - 1) =~= decimal(id as nat));
}

} // verus!
