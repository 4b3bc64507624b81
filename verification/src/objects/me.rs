//! The signed-in user: changes to their profile and their friendships.
use vstd::prelude::*;
use vstd::string::*;

use crate::error::Error;
use crate::utils::{regex_is_match, Patterns, EMAIL_PATTERN, USERNAME_PATTERN};

verus! {

/// The signed-in user, as stored.
#[derive(Debug, Clone)]
pub struct Me {
    pub uuid: u128,
    pub username: String,
    pub display_name: Option<String>,
    pub avatar: Option<String>,
    pub pronouns: Option<String>,
    pub about: Option<String>,
    pub email: String,
    pub email_verified: bool,
}

/// The number of bytes of the UTF-8 encoding of `s`.
pub open spec fn utf8_len(s: Seq<char>) -> nat {
    vstd::utf8::encode_utf8(s).len()
}

/// A username is accepted when it matches the username pattern and is 3 to 32
/// bytes long.
pub open spec fn valid_username(s: Seq<char>) -> bool {
    regex_is_match(USERNAME_PATTERN@, s) && 3 <= utf8_len(s) <= 32
}

/// The key a friendship of `a` and `b` is stored under: the smaller uuid first.
pub open spec fn friend_pair(a: u128, b: u128) -> (u128, u128) {
    if a < b {
        (a, b)
    } else {
        (b, a)
    }
}

/// What adding a friend does.
#[derive(Debug, Clone, Copy, PartialEq, Eq, Structural)]
pub enum FriendAction {
    /// The other user had asked first: store the friendship under `uuid1`,
    /// `uuid2` and remove the request from `sender` to `receiver`.
    Accept { uuid1: u128, uuid2: u128, sender: u128, receiver: u128 },
    /// Store a friend request from `sender` to `receiver`.
    Request { sender: u128, receiver: u128 },
}

/// `r` equals `Ok` of `v` as a value.
pub open spec fn is_ok_with<T>(r: Result<T, Error>, v: T) -> bool {
    r matches Ok(x) && x == v
}

impl Me {
    /// Changes the username; a name that does not match the username pattern or
    /// is shorter than 3 or longer than 32 bytes is refused and nothing changes.
    pub fn set_username(&mut self, patterns: &Patterns, new_username: String) -> (r: Result<(), Error>)
        requires
            utf8_len(new_username@) <= usize::MAX,
        ensures
            valid_username(new_username@) ==> r is Ok && final(self).username == new_username,
            !valid_username(new_username@) ==> (r matches Err(Error::BadRequest(m)) && m@ == "Invalid username"@)
                && final(self).username == old(self).username,
            final(self).uuid == old(self).uuid,
            final(self).display_name == old(self).display_name,
            final(self).email == old(self).email,
            final(self).email_verified == old(self).email_verified,
            final(self).avatar == old(self).avatar,
            final(self).pronouns == old(self).pronouns,
            final(self).about == old(self).about,
    {
        let len = new_username.as_str().len();
        if !patterns.username_matches(new_username.as_str()) || len < 3 || len > 32 {
            return Err(Error::BadRequest(String::from_str("Invalid username")));
        }
        self.username = new_username;
        Ok(())
    }

    /// Changes the display name; an empty name clears it.
    pub fn set_display_name(&mut self, new_display_name: String)
        ensures
            new_display_name@.len() == 0 ==> final(self).display_name is None,
            new_display_name@.len() > 0 ==> final(self).display_name == Some(new_display_name),
            final(self).uuid == old(self).uuid,
            final(self).username == old(self).username,
            final(self).email == old(self).email,
            final(self).email_verified == old(self).email_verified,
            final(self).avatar == old(self).avatar,
            final(self).pronouns == old(self).pronouns,
            final(self).about == old(self).about,
    {
        let new_display_name_option = if new_display_name.as_str().is_empty() {
            None
        } else {
            Some(new_display_name)
        };
        self.display_name = new_display_name_option;
    }

    /// Changes the e-mail address; text that holds no e-mail address is refused
    /// (with the message "Invalid username") and nothing changes.
    pub fn set_email(&mut self, patterns: &Patterns, new_email: String) -> (r: Result<(), Error>)
        ensures
            regex_is_match(EMAIL_PATTERN@, new_email@) ==> r is Ok && final(self).email == new_email,
            !regex_is_match(EMAIL_PATTERN@, new_email@) ==> (r matches Err(Error::BadRequest(m)) && m@
                == "Invalid username"@) && final(self).email == old(self).email,
            final(self).uuid == old(self).uuid,
            final(self).username == old(self).username,
            final(self).display_name == old(self).display_name,
            final(self).email_verified == old(self).email_verified,
            final(self).avatar == old(self).avatar,
            final(self).pronouns == old(self).pronouns,
            final(self).about == old(self).about,
    {
        if !patterns.email_matches(new_email.as_str()) {
            return Err(Error::BadRequest(String::from_str("Invalid username")));
        }
        self.email = new_email;
        Ok(())
    }

    /// The key the friendship with `user_uuid` is stored and looked up under.
    pub fn friendship_key(&self, user_uuid: u128) -> (k: (u128, u128))
        ensures
            k == friend_pair(self.uuid, user_uuid),
    {
        if self.uuid < user_uuid {
            (self.uuid, user_uuid)
        } else {
            (user_uuid, self.uuid)
        }
    }

    /// What adding `user_uuid` as a friend does, given whether the two are friends
    /// already and the friend request `user_uuid` sent to this user, if any (as
    /// its sender and receiver): already friends is refused; a pending request is
    /// accepted; otherwise a request is sent.
    pub fn add_friend(&self, user_uuid: u128, already_friends: bool, pending_request: Option<(u128, u128)>) -> (r:
        Result<FriendAction, Error>)
        ensures
            already_friends ==> (r matches Err(Error::BadRequest(m)) && m@ == "Already friends with user"@),
            !already_friends ==> match pending_request {
                Some((sender, receiver)) => is_ok_with(
                    r,
                    FriendAction::Accept {
                        uuid1: friend_pair(self.uuid, user_uuid).0,
                        uuid2: friend_pair(self.uuid, user_uuid).1,
                        sender,
                        receiver,
                    },
                ),
                None => is_ok_with(r, FriendAction::Request { sender: self.uuid, receiver: user_uuid }),
            },
    {
        if already_friends {
            return Err(Error::BadRequest(String::from_str("Already friends with user")));
        }
        match pending_request {
            Some((sender, receiver)) => {
                let (uuid1, uuid2) = self.friendship_key(user_uuid);
                Ok(FriendAction::Accept { uuid1, uuid2, sender, receiver })
            },
            None => Ok(FriendAction::Request { sender: self.uuid, receiver: user_uuid }),
        }
    }

    /// The friendship key to delete when removing `user_uuid` as a friend; refused
    /// when the two are not friends.
    pub fn remove_friend(&self, user_uuid: u128, friends: bool) -> (r: Result<(u128, u128), Error>)
        ensures
            friends ==> is_ok_with(r, friend_pair(self.uuid, user_uuid)),
            !friends ==> (r matches Err(Error::BadRequest(m)) && m@ == "Not friends with user"@),
    {
        if !friends {
            return Err(Error::BadRequest(String::from_str("Not friends with user")));
        }
        Ok(self.friendship_key(user_uuid))
    }
}

/// Law: a friendship has one key whichever side looks it up, with the smaller
/// uuid first.
pub proof fn lemma_friend_pair_symmetric(a: u128, b: u128)
    ensures
        friend_pair(a, b) == friend_pair(b, a) || a == b,
        friend_pair(a, b).0 <= friend_pair(a, b).1,
        (friend_pair(a, b).0 == a && friend_pair(a, b).1 == b) || (friend_pair(a, b).0 == b && friend_pair(a, b).1 == a),
{
}

} // verus!
