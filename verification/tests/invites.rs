use backend::error::Error;
use backend::objects::guild::{create_invite, invite_id};

#[test]
fn generated_ids_are_8_alphanumerics() {
    let id = invite_id(None).unwrap();
    assert_eq!(id.chars().count(), 8);
    assert!(id.chars().all(|c| c.is_ascii_alphanumeric()));
}

#[test]
fn custom_ids_up_to_32_bytes() {
    assert_eq!(invite_id(Some(String::from("gorb"))).unwrap(), "gorb");
    assert_eq!(invite_id(Some("x".repeat(32))).unwrap(), "x".repeat(32));
    match invite_id(Some("x".repeat(33))) {
        Err(Error::BadRequest(m)) => assert_eq!(m, "MAX LENGTH"),
        other => panic!("unexpected {other:?}"),
    }
    // 17 two-byte characters are 34 bytes
    assert!(invite_id(Some("\u{e9}".repeat(17))).is_err());
}

#[test]
fn invite_belongs_to_guild_and_creator() {
    let inv = create_invite(3, 4, Some(String::from("abc"))).unwrap();
    assert_eq!(inv.id, "abc");
    assert_eq!(inv.guild_uuid, 3);
    assert_eq!(inv.user_uuid, 4);
    let inv = create_invite(3, 4, None).unwrap();
    assert_eq!(inv.id.len(), 8);
}
