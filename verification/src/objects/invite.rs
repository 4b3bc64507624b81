//! Invites into a guild.
use vstd::prelude::*;

verus! {

/// Server invite.
#[derive(Debug, Clone)]
pub struct Invite {
    /// case-sensitive alphanumeric string with a fixed length of 8 characters, can be up to 32 characters for custom invites
    pub id: String,
    /// User that created the invite
    pub user_uuid: u128,
    /// UUID of the guild that the invite belongs to
    pub guild_uuid: u128,
}

} // verus!
