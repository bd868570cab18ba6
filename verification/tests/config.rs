use gatekeeper::client_data::{ServerConfig, ServerConfigTable, _Channels};
use gatekeeper::config::server::{Channels, Config, Quarantine, Table, Verify};
use gatekeeper::model::Member;
use gatekeeper::permissions::{Permissions, KICK_MEMBERS, MANAGE_MESSAGES, MANAGE_ROLES, READ_MESSAGES, SEND_MESSAGES};
use gatekeeper::setup::{trans_default_config, TRANS_GUILD};

fn member(user_id: u64, roles: Vec<u64>) -> Member {
    Member {
        user_id,
        name: String::from("newcomer"),
        discriminator: 1,
        avatar: None,
        bot: false,
        roles,
        joined_at: Some(0),
    }
}

#[test]
fn permission_bits() {
    assert_eq!(Permissions::moderation().bits, 268443650);
    assert_eq!(MANAGE_ROLES | MANAGE_MESSAGES | KICK_MEMBERS, 268443650);
    assert_eq!(Permissions::read_and_send().bits, READ_MESSAGES | SEND_MESSAGES);
    assert_eq!(Permissions::read_and_send().bits, 3072);
    let m = Permissions::moderation();
    assert!(m.contains(Permissions::from_bits(KICK_MEMBERS)));
    assert!(m.contains(m));
    assert!(!m.contains(Permissions::read_and_send()));
    assert!(m.contains(Permissions::empty()));
    let u = m.union(Permissions::read_and_send());
    assert!(u.contains(m) && u.contains(Permissions::read_and_send()));
    assert_eq!(Permissions::default().bits, 0);
}

#[test]
fn verify_defaults_to_moderation() {
    let v = Verify::new(None, Some(2), None);
    assert_eq!(v.verified_id, None);
    assert_eq!(v.unverified_id, Some(2));
    assert_eq!(v.permissions_required.bits, 268443650);
    let w = Verify::new(Some(1), None, Some(Permissions::from_bits(8)));
    assert_eq!(w.permissions_required.bits, 8);
    assert_eq!(Verify::default().permissions_required.bits, 0);
}

#[test]
fn fresh_config() {
    let c = Config::new();
    assert_eq!(c.channels, Channels::new());
    assert!(c.kept_roles.is_empty());
    assert_eq!(c.verify, Verify::new(None, None, None));
    assert_eq!(Config::default().verify, Verify::default());
}

#[test]
fn table_reads_what_was_written() {
    let mut t = Table::new();
    assert!(t.get(1).is_none());
    let mut c = Config::new();
    c.channels.log = Some(99);
    assert!(t.set(1, c.clone()).is_none());
    assert_eq!(t.get(1), Some(&c));
    assert!(t.get(2).is_none());
    let prev = t.provision(1);
    assert_eq!(prev, Some(c));
    assert_eq!(t.get(1), Some(&Config::new()));
    assert_eq!(t.config_for(5), Config::new());
    assert_eq!(Table::default(), Table::new());
}

#[test]
fn quarantine_opens_and_closes() {
    let mut c = Config::new();
    assert!(!c.is_quarantine(10));
    c.start_quarantine(10, 20);
    assert!(c.is_quarantine(10));
    assert_eq!(c.channels.quarantine.get(&10), Some(&Quarantine { channel: 10, candidate: 20 }));
    c.drop_quarantine(&10);
    assert!(!c.is_quarantine(10));
    assert_eq!(c, Config::new());
}

#[test]
fn kept_roles_latest_wins() {
    let mut c = Config::new();
    c.keep_roles(member(7, vec![1, 2]));
    c.keep_roles(member(7, vec![3]));
    assert_eq!(c.kept_roles.get(&7), Some(&vec![3]));
    assert_eq!(c.kept_roles.len(), 1);
}

#[test]
fn have_channels_hands_them_back() {
    let mut c = Config::new();
    let mut ch = Channels::new();
    ch.verify = Some(4);
    ch.quarantine.insert(8, Quarantine { channel: 8, candidate: 9 });
    let back = c.have_channels(ch.clone());
    assert_eq!(back, ch);
    assert_eq!(c.channels, ch);
}

#[test]
fn server_config_table() {
    let mut t = ServerConfigTable::new();
    let mut c = ServerConfig::new();
    let ch = _Channels { welcome: Some(3), ..
        _Channels::new() };
    assert_eq!(c.have_channels(ch), ch);
    c.keep_roles(member(1, vec![5]));
    assert!(t.set(9, c.clone()).is_none());
    assert_eq!(t.get(9), Some(&c));
    assert_eq!(t.provision(9), Some(c));
    assert_eq!(t.get(9), Some(&ServerConfig::new()));
}

#[test]
fn starting_configuration() {
    let mut t = Table::new();
    let mut old = Config::new();
    old.keep_roles(member(1, vec![2]));
    old.start_quarantine(3, 1);
    t.set(TRANS_GUILD, old);
    trans_default_config(&mut t);
    let c = t.get(TRANS_GUILD).unwrap();
    assert_eq!(c.channels.introduction, Some(527581457279877131));
    assert_eq!(c.channels.jail, Some(796061859659776041));
    assert_eq!(c.channels.log, Some(796242938769571890));
    assert_eq!(c.channels.role, Some(611966830034026496));
    assert_eq!(c.channels.verify, Some(718170301682417754));
    assert_eq!(c.channels.welcome, Some(807718099235241994));
    assert!(c.channels.quarantine.is_empty());
    assert_eq!(c.verify.verified_id, Some(528098139044053002));
    assert_eq!(c.verify.unverified_id, Some(836752745665921044));
    assert_eq!(c.verify.permissions_required.bits, 268443650);
    assert_eq!(c.kept_roles.get(&1), Some(&vec![2]));
}
