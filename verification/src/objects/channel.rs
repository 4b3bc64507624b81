//! Channels of a guild: their names, their order and how they are moved.
use vstd::prelude::*;
use vstd::string::*;

use crate::error::Error;
use crate::objects::links::{
    append_changes, append_plan, delete_changes, delete_plan, move_changes, move_plan, LinkUpdate,
};
use crate::objects::role::last_uuid;
use crate::objects::{HasIsAbove, HasUuid};
use crate::utils::{ordered_by_links, order_by_is_above, regex_is_match, Patterns, CHANNEL_PATTERN};

verus! {

/// A channel of a guild; channels are ordered by naming the channel directly below.
#[derive(Debug, Clone)]
pub struct Channel {
    pub uuid: u128,
    pub guild_uuid: u128,
    pub name: String,
    pub description: Option<String>,
    pub is_above: Option<u128>,
    pub permissions: Vec<ChannelPermission>,
}

/// The permissions a role has in a channel.
#[derive(Debug, Clone, Copy)]
pub struct ChannelPermission {
    pub role_uuid: u128,
    pub permissions: i64,
}

impl HasUuid for Channel {
    open spec fn uuid_of(&self) -> u128 {
        self.uuid
    }

    fn uuid(&self) -> (r: u128) {
        self.uuid
    }
}

impl HasIsAbove for Channel {
    open spec fn is_above_of(&self) -> Option<u128> {
        self.is_above
    }

    fn is_above(&self) -> (r: Option<u128>) {
        self.is_above
    }
}

/// The error a channel name that does not match the channel pattern is refused with.
pub open spec fn invalid_channel_name(e: Error) -> bool {
    e matches Error::BadRequest(m) && m@ == "Channel name is invalid"@
}

/// Checks a channel name against the channel pattern.
pub fn check_channel_name(patterns: &Patterns, name: &str) -> (r: Result<(), Error>)
    ensures
        regex_is_match(CHANNEL_PATTERN@, name@) ==> r is Ok,
        !regex_is_match(CHANNEL_PATTERN@, name@) ==> (r matches Err(e) && invalid_channel_name(e)),
{
    if !patterns.channel_matches(name) {
        return Err(Error::BadRequest(String::from_str("Channel name is invalid")));
    }
    Ok(())
}

impl Channel {
    /// A new channel of the guild, with no permissions set, and the row changes
    /// that put it at the bottom of the guild's `channels`: insert it, and let the
    /// channel that was last name it as the one below.  A name that does not
    /// match the channel pattern is refused.
    pub fn new(
        patterns: &Patterns,
        channel_uuid: u128,
        guild_uuid: u128,
        name: String,
        description: Option<String>,
        channels: Vec<Channel>,
    ) -> (r: Result<(Channel, Vec<LinkUpdate>), Error>)
        ensures
            !regex_is_match(CHANNEL_PATTERN@, name@) ==> (r matches Err(e) && invalid_channel_name(e)),
            regex_is_match(CHANNEL_PATTERN@, name@) ==> (r matches Ok((c, plan)) && {
                &&& c.uuid == channel_uuid
                &&& c.guild_uuid == guild_uuid
                &&& c.name == name
                &&& c.description == description
                &&& c.is_above is None
                &&& c.permissions@.len() == 0
                &&& plan@ == append_changes(channel_uuid, last_uuid(ordered_by_links(channels@)))
            }),
    {
        if !patterns.channel_matches(name.as_str()) {
            return Err(Error::BadRequest(String::from_str("Channel name is invalid")));
        }
        let ordered = order_by_is_above(channels);
        let last = if ordered.len() > 0 {
            Some(ordered[ordered.len() - 1].uuid)
        } else {
            None
        };
        let plan = append_plan(channel_uuid, last);
        let channel = Channel {
            uuid: channel_uuid,
            guild_uuid,
            name,
            description,
            is_above: None,
            permissions: Vec::new(),
        };
        Ok((channel, plan))
    }

    /// The row changes deleting this channel makes: rows naming it are cleared,
    /// its row is deleted, then rows naming it are set to the channel it named.
    /// The last change finds no row (the first cleared them all), so deleting a
    /// channel in the middle leaves the channel above it naming nothing.
    pub fn delete(self) -> (plan: Vec<LinkUpdate>)
        ensures
            plan@ == delete_changes(self.uuid, self.is_above),
    {
        delete_plan(self.uuid, self.is_above)
    }

    /// Moves the channel directly above `new_is_above`; `old_above` is the channel
    /// found naming this one.  Gives the row changes, and this channel now names
    /// `new_is_above`.
    pub fn move_channel(&mut self, old_above: Option<u128>, new_is_above: u128) -> (plan: Vec<LinkUpdate>)
        ensures
            plan@ == move_changes(old(self).uuid, old(self).is_above, old_above, new_is_above),
            final(self).is_above == Some(new_is_above),
            final(self).uuid == old(self).uuid,
            final(self).guild_uuid == old(self).guild_uuid,
            final(self).name == old(self).name,
            final(self).description == old(self).description,
            final(self).permissions == old(self).permissions,
    {
        let plan = move_plan(self.uuid, self.is_above, old_above, new_is_above);
        self.is_above = Some(new_is_above);
        plan
    }

    /// Renames the channel; a name that does not match the channel pattern is
    /// refused and the channel left as it was.
    pub fn set_name(&mut self, patterns: &Patterns, new_name: String) -> (r: Result<(), Error>)
        ensures
            regex_is_match(CHANNEL_PATTERN@, new_name@) ==> r is Ok && final(self).name == new_name,
            !regex_is_match(CHANNEL_PATTERN@, new_name@) ==> (r matches Err(e) && invalid_channel_name(e))
                && final(self).name == old(self).name,
            final(self).uuid == old(self).uuid,
            final(self).guild_uuid == old(self).guild_uuid,
            final(self).description == old(self).description,
            final(self).is_above == old(self).is_above,
            final(self).permissions == old(self).permissions,
    {
        if !patterns.channel_matches(new_name.as_str()) {
            return Err(Error::BadRequest(String::from_str("Channel name is invalid")));
        }
        self.name = new_name;
        Ok(())
    }

    /// Sets the channel's description.
    pub fn set_description(&mut self, new_description: String)
        ensures
            final(self).description == Some(new_description),
            final(self).uuid == old(self).uuid,
            final(self).guild_uuid == old(self).guild_uuid,
            final(self).name == old(self).name,
            final(self).is_above == old(self).is_above,
            final(self).permissions == old(self).permissions,
    {
        self.description = Some(new_description);
    }
}

} // verus!
