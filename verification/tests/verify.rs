use gatekeeper::config::server::{Config, Table};
use gatekeeper::model::Member;
use gatekeeper::permissions::Permissions;
use gatekeeper::verify::quarantine::{
    avatar_url, channel_name, messages_by, record_quarantine, relay_order, Overwrite, OverwriteTarget,
};
use gatekeeper::verify::{accept, open_quarantine, reject};

fn newcomer() -> Member {
    Member {
        user_id: 555,
        name: String::from("robin"),
        discriminator: 42,
        avatar: None,
        bot: false,
        roles: vec![],
        joined_at: Some(0),
    }
}

#[test]
fn accept_gives_and_takes_roles() {
    let mut c = Config::new();
    c.verify.verified_id = Some(1);
    c.verify.unverified_id = Some(2);
    let p = accept(555, &c);
    assert_eq!(p.add_role, Some(1));
    assert_eq!(p.remove_role, Some(2));
    assert_eq!(p.welcome, None);
}

#[test]
fn welcome_messages() {
    let mut c = Config::new();
    c.channels.welcome = Some(9);
    assert_eq!(accept(555, &c).welcome, Some((9, String::from("Welcome to the server, <@555>."))));
    c.channels.role = Some(7);
    assert_eq!(
        accept(555, &c).welcome.unwrap().1,
        "Welcome to the server, <@555>. Feel free to grab some roles in <#7>"
    );
    c.channels.introduction = Some(8);
    assert_eq!(
        accept(555, &c).welcome.unwrap().1,
        "Welcome to the server, <@555>. Feel free to grab some roles in <#7>, or introduce yourself in <#8>"
    );
    c.channels.role = None;
    assert_eq!(
        accept(555, &c).welcome.unwrap().1,
        "Welcome to the server, <@555>. Feel free to introduce yourself in <#8>"
    );
}

#[test]
fn rejection_is_logged_where_there_is_a_log() {
    let mut c = Config::new();
    assert_eq!(reject(555, &c), None);
    c.channels.log = Some(3);
    assert_eq!(reject(555, &c), Some((3, String::from("<@555> was rejected and kicked"))));
}

#[test]
fn quarantine_plan() {
    let mut c = Config::new();
    let p = open_quarantine(&newcomer(), 1000, &c);
    assert_eq!(p.name, "quarantine-robin-42");
    assert_eq!(p.greeting, "Hello <@555>, we've moved you in here to chat before you're verified");
    assert_eq!(
        p.lockout,
        Overwrite { allow: Permissions::empty(), deny: Permissions::from_bits(3072), target: OverwriteTarget::Role(1000) }
    );
    assert_eq!(
        p.entry,
        Overwrite { allow: Permissions::from_bits(3072), deny: Permissions::empty(), target: OverwriteTarget::Member(555) }
    );
    assert_eq!(p.relay_from, None);
    c.channels.verify = Some(77);
    assert_eq!(open_quarantine(&newcomer(), 1000, &c).relay_from, Some(77));
    assert_eq!(channel_name("a b", 0), "quarantine-a b-0");
}

#[test]
fn quarantine_is_recorded() {
    let mut t = Table::new();
    record_quarantine(&mut t, 1000, 60, 555);
    let c = t.get(1000).unwrap();
    assert!(c.is_quarantine(60));
    assert_eq!(c.channels.quarantine.get(&60).unwrap().candidate, 555);
    record_quarantine(&mut t, 1000, 61, 556);
    let c = t.get(1000).unwrap();
    assert!(c.is_quarantine(60) && c.is_quarantine(61));
}

#[test]
fn relayed_messages_oldest_first() {
    let authors = vec![555, 1, 555, 555, 2];
    assert_eq!(messages_by(&authors, 555), vec![0, 2, 3]);
    assert_eq!(relay_order(&authors, 555), vec![3, 2, 0]);
    assert_eq!(relay_order(&authors, 9), Vec::<usize>::new());
    assert_eq!(messages_by(&vec![], 9), Vec::<usize>::new());
}

#[test]
fn avatar_addresses() {
    assert_eq!(
        avatar_url(555, &Some(String::from("a_ff00")), 42),
        "https://cdn.discordapp.com/avatars/555/a_ff00.gif?size=1024"
    );
    assert_eq!(
        avatar_url(555, &Some(String::from("ff00")), 42),
        "https://cdn.discordapp.com/avatars/555/ff00.webp?size=1024"
    );
    assert_eq!(avatar_url(555, &None, 1234), "https://cdn.discordapp.com/embed/avatars/4.png");
    assert_eq!(avatar_url(555, &None, 5), "https://cdn.discordapp.com/embed/avatars/0.png");
}
