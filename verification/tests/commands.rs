use gatekeeper::commands::configure::{
    channels, channels_usage_ok, kind_of, role_arg, set_role, setting_message, unsupported_message, ChannelKind,
    RoleArg, RoleKind,
};
use gatekeeper::commands::general::{
    chunk_size, collect_chunks, draw_uvs, filtering_message, push_duration, roster_order,
    split_chunks, unverified_in, ROLE_CHECK_CHUNK_MIN, ROLE_CHECK_THREADS,
};
use gatekeeper::config::server::Config;
use gatekeeper::model::Member;

fn member(user_id: u64, bot: bool, roles: Vec<u64>, joined_at: Option<i64>) -> Member {
    Member { user_id, name: format!("user{}", user_id), discriminator: 0, avatar: None, bot, roles, joined_at }
}

fn words(ws: &[&str]) -> Vec<String> {
    ws.iter().map(|w| w.to_string()).collect()
}

#[test]
fn channel_kinds() {
    assert_eq!(kind_of("introduction"), Some(ChannelKind::Introduction));
    assert_eq!(kind_of("jail"), Some(ChannelKind::Jail));
    assert_eq!(kind_of("log"), Some(ChannelKind::Log));
    assert_eq!(kind_of("role"), Some(ChannelKind::Role));
    assert_eq!(kind_of("verify"), Some(ChannelKind::Verify));
    assert_eq!(kind_of("welcome"), Some(ChannelKind::Welcome));
    assert_eq!(kind_of("Welcome"), None);
    assert_eq!(kind_of("lo"), None);
}

#[test]
fn channel_command_usage() {
    assert!(!channels_usage_ok(0));
    assert!(!channels_usage_ok(3));
    assert!(channels_usage_ok(2));
    assert!(channels_usage_ok(4));
}

#[test]
fn channel_command_assigns_pairs() {
    let mut c = Config::new();
    let bad = channels(&mut c, &words(&["log", "<#10>", "bogus", "11", "welcome", "12"]));
    assert_eq!(bad, words(&["bogus"]));
    assert_eq!(unsupported_message(&bad[0]), "unsupported channel type `bogus`");
    assert_eq!(c.channels.log, Some(10));
    assert_eq!(c.channels.welcome, Some(12));
    assert_eq!(c.channels.verify, None);
}

#[test]
fn channel_command_stops_at_unreadable_channel() {
    let mut c = Config::new();
    let bad = channels(&mut c, &words(&["jail", "<#1>", "role", "#roles", "verify", "3"]));
    assert!(bad.is_empty());
    assert_eq!(c.channels.jail, Some(1));
    assert_eq!(c.channels.role, None);
    assert_eq!(c.channels.verify, None);
    let mut d = Config::new();
    let bad = channels(&mut d, &words(&["nope", "x"]));
    assert!(bad.is_empty());
    assert_eq!(d, Config::new());
    let bad = channels(&mut d, &words(&["role"]));
    assert!(bad.is_empty());
    assert_eq!(d, Config::new());
}

#[test]
fn role_arguments() {
    assert_eq!(role_arg("<@&42>"), RoleArg::Id(42));
    assert_eq!(role_arg("42"), RoleArg::Id(42));
    assert_eq!(role_arg("Verified"), RoleArg::Name(String::from("Verified")));
    assert_eq!(setting_message(RoleKind::Verify), "setting verify");
    assert_eq!(setting_message(RoleKind::Unverify), "setting unverify");
}

#[test]
fn role_command_outcomes() {
    let mut c = Config::new();
    let r = set_role(&mut c, RoleKind::Verify, &RoleArg::Id(42), None);
    assert_eq!(r, Err(String::from("No such role with id `42`")));
    assert_eq!(c, Config::new());
    let r = set_role(&mut c, RoleKind::Unverify, &RoleArg::Name(String::from("Fresh")), None);
    assert_eq!(r, Err(String::from("I don't know what `Fresh` is")));
    let r = set_role(&mut c, RoleKind::Unverify, &RoleArg::Name(String::from("Fresh")), Some((9, String::from("Fresh"))));
    assert_eq!(r, Ok(String::from("Verify is `@Fresh`")));
    assert_eq!(c.verify.unverified_id, Some(9));
    assert_eq!(c.verify.verified_id, None);
    let r = set_role(&mut c, RoleKind::Verify, &RoleArg::Id(42), Some((42, String::from("Member"))));
    assert_eq!(r, Ok(String::from("Verify is `@Member`")));
    assert_eq!(c.verify.verified_id, Some(42));
}

#[test]
fn chunk_sizes() {
    assert_eq!(ROLE_CHECK_THREADS, 32);
    assert_eq!(ROLE_CHECK_CHUNK_MIN, 4);
    assert_eq!(chunk_size(0, 32, 4), 4);
    assert_eq!(chunk_size(31, 32, 4), 4);
    assert_eq!(chunk_size(32, 32, 4), 1);
    assert_eq!(chunk_size(100, 32, 4), 3);
    assert_eq!(chunk_size(1000, 128, 4), 7);
}

#[test]
fn chunks_leave_out_the_last() {
    assert_eq!(split_chunks((0..10).collect::<Vec<u32>>(), 4), vec![vec![0, 1, 2, 3], vec![4, 5, 6, 7]]);
    assert_eq!(split_chunks((0..8).collect::<Vec<u32>>(), 4), vec![vec![0, 1, 2, 3]]);
    assert_eq!(split_chunks((0..4).collect::<Vec<u32>>(), 4), Vec::<Vec<u32>>::new());
    assert_eq!(split_chunks((0..5).collect::<Vec<u32>>(), 4), vec![vec![0, 1, 2, 3]]);
    assert_eq!(split_chunks(Vec::<u32>::new(), 4), Vec::<Vec<u32>>::new());
}

#[test]
fn roster_chunks_skip_bots() {
    let ms: Vec<Member> = (0..7).map(|i| member(i, i == 2, vec![], Some(0))).collect();
    let chunks = collect_chunks(ms);
    assert_eq!(chunks.len(), 1);
    let ids: Vec<u64> = chunks[0].iter().map(|m| m.user_id).collect();
    assert_eq!(ids, vec![0, 1, 3, 4]);
}

#[test]
fn unverified_members_lack_the_role() {
    let chunk = vec![member(1, false, vec![5], None), member(2, false, vec![], None), member(3, false, vec![4, 6], None)];
    let ids: Vec<u64> = unverified_in(chunk, 5).iter().map(|m| m.user_id).collect();
    assert_eq!(ids, vec![2, 3]);
}

#[test]
fn roster_lists_latest_joiner_first() {
    assert_eq!(roster_order(&vec![100, 300, 300, 200]), vec![2, 1, 3, 0]);
    assert_eq!(roster_order(&vec![]), Vec::<usize>::new());
    let day: i64 = 86_400_000_000;
    let now: i64 = 10 * day;
    let ms = vec![
        member(1, false, vec![], Some(now - (day + 2 * 3_600_000_000 + 3 * 60_000_000 + 4_500_000))),
        member(2, false, vec![], Some(now - 59_000_000)),
    ];
    assert_eq!(
        draw_uvs(&ms, now),
        "<@2> unverified for `0d 0h 0m`\n<@1> unverified for `1d 2h 3m`"
    );
    assert_eq!(draw_uvs(&vec![], now), "");
}

#[test]
fn durations_round_toward_zero() {
    let mut s = String::new();
    push_duration(&mut s, 0, 90_000_000);
    assert_eq!(s, "`0d 0h -1m`");
    let mut s = String::new();
    push_duration(&mut s, 0, 2 * 86_400_000_000 + 3_700_000_000);
    assert_eq!(s, "`-2d -1h -1m`");
    let mut s = String::new();
    push_duration(&mut s, i64::MAX, i64::MIN);
    assert_eq!(s, "`213503982d 8h 1m`");
}

#[test]
fn roster_texts() {
    assert_eq!(filtering_message(12), "filtering 12 user chunks");
}
