//! Guilds: their invites.
use vstd::prelude::*;
use vstd::string::*;

use crate::error::Error;
use crate::objects::invite::Invite;
use crate::objects::me::utf8_len;

verus! {

/// The characters a generated invite id is made of: ASCII letters and digits.
pub open spec fn is_invite_char(c: char) -> bool {
    ('a' <= c && c <= 'z') || ('A' <= c && c <= 'Z') || ('0' <= c && c <= '9')
}

/// `random_string::generate`: `length` characters, each drawn at random from
/// `charset` (which must not be empty, or it panics).
#[verifier::external_body]
fn random_string_from(length: usize, charset: &str) -> (s: String)
    requires
        charset@.len() > 0,
    ensures
        s@.len() == length,
        forall|i: int| 0 <= i < length ==> charset@.contains(#[trigger] s@[i]),
{
    random_string::generate(length, charset)
}

/// The id of a new invite: a custom id when given (at most 32 bytes long), or 8
/// random ASCII letters and digits.
pub fn invite_id(custom_id: Option<String>) -> (r: Result<String, Error>)
    requires
        custom_id matches Some(id) ==> utf8_len(id@) <= usize::MAX,
    ensures
        match custom_id {
            Some(id) => if utf8_len(id@) > 32 {
                r matches Err(Error::BadRequest(m)) && m@ == "MAX LENGTH"@
            } else {
                r matches Ok(s) && s == id
            },
            None => r matches Ok(s) && s@.len() == 8 && forall|i: int| 0 <= i < 8 ==> is_invite_char(#[trigger] s@[i]),
        },
{
    match custom_id {
        Some(id) => {
            if id.as_str().len() > 32 {
                return Err(Error::BadRequest(String::from_str("MAX LENGTH")));
            }
            Ok(id)
        },
        None => {
            let charset = "abcdefghijklmnopqrstuvwxyzABCDEFGHIJKLMNOPQRSTUVWXYZ0123456789";
            proof {
                reveal_strlit("abcdefghijklmnopqrstuvwxyzABCDEFGHIJKLMNOPQRSTUVWXYZ0123456789");
            }
            let id = random_string_from(8, charset);
            proof {
                assert forall|i: int| 0 <= i < 8 implies is_invite_char(#[trigger] id@[i]) by {
                    assert(charset@.contains(id@[i]));
                    let k = choose|k: int| 0 <= k < charset@.len() && charset@[k] == id@[i];
                }
            }
            Ok(id)
        },
    }
}

/// A new invite of the guild `guild_uuid` created by `user_uuid`, with a custom id
/// (at most 32 bytes) or 8 random ASCII letters and digits.
pub fn create_invite(guild_uuid: u128, user_uuid: u128, custom_id: Option<String>) -> (r: Result<Invite, Error>)
    requires
        custom_id matches Some(id) ==> utf8_len(id@) <= usize::MAX,
    ensures
        match custom_id {
            Some(id) => if utf8_len(id@) > 32 {
                r matches Err(Error::BadRequest(m)) && m@ == "MAX LENGTH"@
            } else {
                r matches Ok(inv) && inv.id == id && inv.user_uuid == user_uuid && inv.guild_uuid == guild_uuid
            },
            None => r matches Ok(inv) && inv.user_uuid == user_uuid && inv.guild_uuid == guild_uuid
                && inv.id@.len() == 8 && forall|i: int| 0 <= i < 8 ==> is_invite_char(#[trigger] inv.id@[i]),
        },
{
    let id = invite_id(custom_id)?;
    Ok(Invite { id, user_uuid, guild_uuid })
}

} // verus!
