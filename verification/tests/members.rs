use backend::error::Error;
use backend::objects::member::{check_ban, check_join, check_kick, join, page_window, MemberBuilder, PageWindow};
use backend::objects::role::{Permissions, Role};
use backend::objects::{load_or_empty, Pagination, PaginationRequest};

fn role(permissions: i64) -> Role {
    Role { uuid: 1, guild_uuid: 2, name: String::from("r"), color: 0, is_above: None, permissions }
}

#[test]
fn owner_may_always_act() {
    let owner = MemberBuilder::new_owner(1, 2, 3);
    assert!(owner.is_owner);
    assert!(owner.check_permission(&vec![], Permissions::ManageGuild).is_ok());
}

#[test]
fn members_need_a_role_granting_the_permission() {
    let m = MemberBuilder::new_member(1, 2, 3);
    assert!(!m.is_owner);
    assert_eq!(m.nickname, None);
    match m.check_permission(&vec![role(1)], Permissions::ManageGuild) {
        Err(Error::Forbidden(msg)) => assert_eq!(msg, "Not allowed"),
        other => panic!("unexpected {other:?}"),
    }
    assert!(m.check_permission(&vec![role(1), role(32)], Permissions::ManageGuild).is_ok());
    assert!(m.check_permission(&vec![], Permissions::SendMessage).is_err());
}

#[test]
fn adding_a_role_never_removes_a_permission() {
    let m = MemberBuilder::new_member(1, 2, 3);
    let mut roles = vec![role(8)];
    assert!(m.check_permission(&roles, Permissions::CreateInvite).is_ok());
    roles.push(role(0));
    assert!(m.check_permission(&roles, Permissions::CreateInvite).is_ok());
}

#[test]
fn owners_cannot_be_kicked_or_banned() {
    assert!(check_kick(false).is_ok());
    assert!(check_ban(false).is_ok());
    match check_kick(true) {
        Err(Error::Forbidden(m)) => assert_eq!(m, "Can not kick owner"),
        other => panic!("unexpected {other:?}"),
    }
    match check_ban(true) {
        Err(Error::Forbidden(m)) => assert_eq!(m, "Can not ban owner"),
        other => panic!("unexpected {other:?}"),
    }
}

#[test]
fn banned_users_cannot_join() {
    match check_join(Ok(())) {
        Err(Error::Forbidden(m)) => assert_eq!(m, "User banned"),
        other => panic!("unexpected {other:?}"),
    }
    assert!(check_join(Err(Error::SqlError { not_found: true, message: String::from("Record not found") })).is_ok());
    match check_join(Err(Error::RedisError(String::from("down")))) {
        Err(Error::RedisError(m)) => assert_eq!(m, "down"),
        other => panic!("unexpected {other:?}"),
    }
}

#[test]
fn page_windows() {
    assert_eq!(page_window(PaginationRequest { page: 1, per_page: None }).unwrap(), PageWindow { limit: 50, offset: 0 });
    assert_eq!(page_window(PaginationRequest { page: 3, per_page: Some(10) }).unwrap(), PageWindow { limit: 10, offset: 20 });
    assert_eq!(page_window(PaginationRequest { page: 2, per_page: Some(100) }).unwrap(), PageWindow { limit: 100, offset: 100 });
    assert_eq!(page_window(PaginationRequest { page: 0, per_page: Some(10) }).unwrap(), PageWindow { limit: 10, offset: -10 });
    for bad in [9, 101, 0, -5] {
        match page_window(PaginationRequest { page: 1, per_page: Some(bad) }) {
            Err(Error::BadRequest(m)) => assert_eq!(m, "Invalid amount per page requested"),
            other => panic!("unexpected {other:?}"),
        }
    }
}

#[test]
fn pagination_counts_its_objects() {
    let (objects, amount, pages, page) = Pagination::new(vec![1, 2, 3], 4, 2).into_parts();
    assert_eq!(objects, vec![1, 2, 3]);
    assert_eq!(amount, 3);
    assert_eq!(pages, 4);
    assert_eq!(page, 2);
}

#[test]
fn missing_rows_load_as_empty() {
    let r: Result<Vec<u8>, Error> = load_or_empty(Err(Error::SqlError { not_found: true, message: String::new() }));
    assert_eq!(r.unwrap(), Vec::<u8>::new());
    let r: Result<Vec<u8>, Error> = load_or_empty(Ok(vec![7]));
    assert_eq!(r.unwrap(), vec![7]);
    let r: Result<Vec<u8>, Error> = load_or_empty(Err(Error::SqlError { not_found: false, message: String::from("boom") }));
    assert!(matches!(r, Err(Error::SqlError { not_found: false, .. })));
}

#[test]
fn joining_respects_bans() {
    match join(Ok(()), 1, 2, 3) {
        Err(Error::Forbidden(m)) => assert_eq!(m, "User banned"),
        other => panic!("unexpected {other:?}"),
    }
    let m = join(Err(Error::SqlError { not_found: true, message: String::from("Record not found") }), 1, 2, 3).unwrap();
    assert_eq!((m.uuid, m.user_uuid, m.guild_uuid), (1, 2, 3));
    assert!(m.nickname.is_none() && !m.is_owner);
    assert!(matches!(join(Err(Error::PoolError(String::from("busy"))), 1, 2, 3), Err(Error::PoolError(_))));
}

#[test]
fn after_a_ban_joining_is_refused() {
    assert!(check_ban(false).is_ok());
    // the ban row is now there, so its lookup finds it
    match join(Ok(()), 9, 2, 3) {
        Err(Error::Forbidden(m)) => assert_eq!(m, "User banned"),
        other => panic!("unexpected {other:?}"),
    }
}
