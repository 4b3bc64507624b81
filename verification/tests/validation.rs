use backend::error::Error;
use backend::objects::channel::Channel;
use backend::objects::me::Me;
use backend::utils::{check_username_lookup, global_checks, identifier_kind, IdentifierKind, Patterns};

fn patterns() -> Patterns {
    Patterns::new().unwrap()
}

fn me() -> Me {
    Me {
        uuid: 1,
        username: String::from("alice"),
        display_name: Some(String::from("Alice")),
        avatar: None,
        pronouns: None,
        about: None,
        email: String::from("alice@gorb.app"),
        email_verified: true,
    }
}

fn bad_request(r: Result<(), Error>) -> String {
    match r {
        Err(Error::BadRequest(m)) => m,
        other => panic!("expected a bad request, got {other:?}"),
    }
}

#[test]
fn patterns_compile_and_match() {
    let p = patterns();
    assert!(p.username_matches("alice_01.x-y"));
    assert!(!p.username_matches("Alice"));
    assert!(!p.username_matches(""));
    assert!(!p.username_matches("a b"));
    assert!(p.email_matches("alice@gorb.app"));
    assert!(!p.email_matches("alice"));
    assert!(p.channel_matches("general"));
    assert!(!p.channel_matches("General Chat"));
    assert!(p.password_matches(&"a".repeat(96)));
    assert!(!p.password_matches(&"a".repeat(95)));
}

#[test]
fn identifiers_are_emails_or_usernames() {
    let p = patterns();
    assert_eq!(identifier_kind(&p, "alice@gorb.app").unwrap(), IdentifierKind::Email);
    assert_eq!(identifier_kind(&p, "alice").unwrap(), IdentifierKind::Username);
    match identifier_kind(&p, "Not Valid!") {
        Err(Error::BadRequest(m)) => assert_eq!(m, "Please provide a valid username or email"),
        other => panic!("unexpected {other:?}"),
    }
}

#[test]
fn username_lookup_needs_a_valid_username() {
    let p = patterns();
    assert!(check_username_lookup(&p, "bob").is_ok());
    assert_eq!(bad_request(check_username_lookup(&p, "B O B")), "Please provide a valid username");
}

#[test]
fn email_verification_is_required_only_when_configured() {
    assert!(global_checks(false, false).is_ok());
    assert!(global_checks(true, true).is_ok());
    match global_checks(true, false) {
        Err(Error::Forbidden(m)) => assert_eq!(m, "server requires email verification"),
        other => panic!("unexpected {other:?}"),
    }
}

#[test]
fn usernames_need_3_to_32_bytes() {
    let p = patterns();
    let mut m = me();
    assert_eq!(bad_request(m.set_username(&p, String::from("ab"))), "Invalid username");
    assert_eq!(m.username, "alice");
    assert_eq!(bad_request(m.set_username(&p, "a".repeat(33))), "Invalid username");
    assert_eq!(bad_request(m.set_username(&p, String::from("Bad Name"))), "Invalid username");
    assert!(m.set_username(&p, String::from("abc")).is_ok());
    assert_eq!(m.username, "abc");
    assert!(m.set_username(&p, "b".repeat(32)).is_ok());
    assert_eq!(m.username, "b".repeat(32));
}

#[test]
fn display_name_is_cleared_by_empty_text() {
    let mut m = me();
    m.set_display_name(String::new());
    assert_eq!(m.display_name, None);
    m.set_display_name(String::from("Al"));
    assert_eq!(m.display_name, Some(String::from("Al")));
}

#[test]
fn email_must_hold_an_address() {
    let p = patterns();
    let mut m = me();
    assert_eq!(bad_request(m.set_email(&p, String::from("nope"))), "Invalid username");
    assert_eq!(m.email, "alice@gorb.app");
    assert!(m.set_email(&p, String::from("a@b.co")).is_ok());
    assert_eq!(m.email, "a@b.co");
    assert!(m.email_verified);
}

#[test]
fn channel_names_are_checked() {
    let p = patterns();
    match Channel::new(&p, 1, 2, String::from("Bad Name"), None, vec![]) {
        Err(Error::BadRequest(m)) => assert_eq!(m, "Channel name is invalid"),
        _ => panic!("expected a refusal"),
    }
    let (c, plan) = Channel::new(&p, 1, 2, String::from("general"), Some(String::from("d")), vec![]).unwrap();
    assert_eq!(c.name, "general");
    assert_eq!(c.description, Some(String::from("d")));
    assert!(c.permissions.is_empty());
    assert_eq!(plan.len(), 1);
    let mut c = c;
    assert!(c.set_name(&p, String::from("Nope Nope")).is_err());
    assert_eq!(c.name, "general");
    assert!(c.set_name(&p, String::from("random")).is_ok());
    assert_eq!(c.name, "random");
    c.set_description(String::from("about"));
    assert_eq!(c.description, Some(String::from("about")));
}

#[test]
fn new_channel_goes_below_the_last_channel() {
    let p = patterns();
    let existing = vec![
        Channel { uuid: 4, guild_uuid: 2, name: String::from("b"), description: None, is_above: None, permissions: vec![] },
        Channel { uuid: 3, guild_uuid: 2, name: String::from("a"), description: None, is_above: Some(4), permissions: vec![] },
    ];
    let (_, plan) = Channel::new(&p, 5, 2, String::from("c"), None, existing).unwrap();
    assert_eq!(plan, backend::objects::links::append_plan(5, Some(4)));
}

#[test]
fn channel_names_are_checked_alone() {
    let p = patterns();
    assert!(backend::objects::channel::check_channel_name(&p, "general").is_ok());
    match backend::objects::channel::check_channel_name(&p, "Not Valid") {
        Err(Error::BadRequest(m)) => assert_eq!(m, "Channel name is invalid"),
        other => panic!("unexpected {other:?}"),
    }
}
