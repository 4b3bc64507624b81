use backend::error::Error;
use backend::objects::me::{FriendAction, Me};

fn me(uuid: u128) -> Me {
    Me {
        uuid,
        username: String::from("me"),
        display_name: None,
        avatar: None,
        pronouns: None,
        about: None,
        email: String::from("me@gorb.app"),
        email_verified: false,
    }
}

#[test]
fn friendship_key_is_the_same_from_both_sides() {
    assert_eq!(me(5).friendship_key(9), (5, 9));
    assert_eq!(me(9).friendship_key(5), (5, 9));
    assert_eq!(me(7).friendship_key(7), (7, 7));
}

#[test]
fn adding_a_friend_sends_a_request() {
    assert_eq!(me(5).add_friend(9, false, None).unwrap(), FriendAction::Request { sender: 5, receiver: 9 });
}

#[test]
fn adding_a_friend_who_asked_accepts() {
    assert_eq!(
        me(9).add_friend(5, false, Some((5, 9))).unwrap(),
        FriendAction::Accept { uuid1: 5, uuid2: 9, sender: 5, receiver: 9 }
    );
}

#[test]
fn adding_a_friend_twice_is_refused() {
    match me(5).add_friend(9, true, None) {
        Err(Error::BadRequest(m)) => assert_eq!(m, "Already friends with user"),
        other => panic!("unexpected {other:?}"),
    }
}

#[test]
fn removing_a_friend() {
    assert_eq!(me(9).remove_friend(5, true).unwrap(), (5, 9));
    match me(9).remove_friend(5, false) {
        Err(Error::BadRequest(m)) => assert_eq!(m, "Not friends with user"),
        other => panic!("unexpected {other:?}"),
    }
}
