use gatekeeper::text::{
    parse_channel_id, parse_role_id, parse_u64, push_channel_mention, push_role_mention, push_signed,
    push_user_mention, render_u64,
};

#[test]
fn renders_decimal_numerals() {
    assert_eq!(render_u64(0), "0");
    assert_eq!(render_u64(7), "7");
    assert_eq!(render_u64(1234567890), "1234567890");
    assert_eq!(render_u64(u64::MAX), "18446744073709551615");
}

#[test]
fn renders_signed_numerals() {
    let mut s = String::new();
    push_signed(&mut s, true, 12);
    s.push(' ');
    push_signed(&mut s, true, 0);
    s.push(' ');
    push_signed(&mut s, false, 5);
    assert_eq!(s, "-12 0 5");
}

#[test]
fn parses_like_the_standard_library() {
    assert_eq!(parse_u64("42"), Some(42));
    assert_eq!(parse_u64("+42"), Some(42));
    assert_eq!(parse_u64("007"), Some(7));
    assert_eq!(parse_u64(""), None);
    assert_eq!(parse_u64("+"), None);
    assert_eq!(parse_u64("-1"), None);
    assert_eq!(parse_u64(" 1"), None);
    assert_eq!(parse_u64("12a"), None);
    assert_eq!(parse_u64("18446744073709551615"), Some(u64::MAX));
    assert_eq!(parse_u64("18446744073709551616"), None);
    assert_eq!(parse_u64("99999999999999999999x"), None);
    for s in ["0", "+9", "1x", "", "340282366920938463463374607431768211455"] {
        assert_eq!(parse_u64(s), s.parse::<u64>().ok());
    }
}

#[test]
fn writes_mentions() {
    let mut s = String::new();
    push_user_mention(&mut s, 80351110224678912);
    push_channel_mention(&mut s, 12);
    push_role_mention(&mut s, 3);
    assert_eq!(s, "<@80351110224678912><#12><@&3>");
}

#[test]
fn reads_channel_ids() {
    assert_eq!(parse_channel_id("<#718170301682417754>"), Some(718170301682417754));
    assert_eq!(parse_channel_id("718170301682417754"), Some(718170301682417754));
    assert_eq!(parse_channel_id("<#+5>"), Some(5));
    assert_eq!(parse_channel_id("<#>"), None);
    assert_eq!(parse_channel_id("<#abc>"), None);
    assert_eq!(parse_channel_id("<@5>"), None);
    assert_eq!(parse_channel_id("#general"), None);
}

#[test]
fn reads_role_ids() {
    assert_eq!(parse_role_id("<@&528098139044053002>"), Some(528098139044053002));
    assert_eq!(parse_role_id("528098139044053002"), Some(528098139044053002));
    assert_eq!(parse_role_id("<@528098139044053002>"), None);
    assert_eq!(parse_role_id("<@&>"), None);
    assert_eq!(parse_role_id("Verified"), None);
}

#[test]
fn mentions_read_back() {
    for id in [0u64, 9, 10, 527575883603509248, u64::MAX] {
        let mut c = String::new();
        push_channel_mention(&mut c, id);
        assert_eq!(parse_channel_id(&c), Some(id));
        let mut r = String::new();
        push_role_mention(&mut r, id);
        assert_eq!(parse_role_id(&r), Some(id));
        assert_eq!(parse_u64(&render_u64(id)), Some(id));
    }
}
