//! Guild members: who may do what, who may be removed, and which page of the
//! member list a request asks for.
use vstd::prelude::*;
use vstd::string::*;

use crate::error::Error;
use crate::objects::role::{grants, permission_bit, Permissions, Role};
use crate::objects::PaginationRequest;

verus! {

/// The membership of a user in a guild, as stored.
#[derive(Debug, Clone)]
pub struct MemberBuilder {
    pub uuid: u128,
    pub nickname: Option<String>,
    pub user_uuid: u128,
    pub guild_uuid: u128,
    pub is_owner: bool,
}

/// Some role of `roles` grants `permission`.
pub open spec fn some_role_grants(roles: Seq<Role>, permission: Permissions) -> bool {
    exists|i: int| 0 <= i < roles.len() && grants(#[trigger] roles[i].permissions, permission)
}

/// A member with `roles` may act under `permission`: the owner always may, others
/// when one of their roles grants it.
pub open spec fn member_allowed(is_owner: bool, roles: Seq<Role>, permission: Permissions) -> bool {
    is_owner || some_role_grants(roles, permission)
}

impl MemberBuilder {
    /// The membership of a user who joins a guild: no nickname, not the owner.
    pub fn new_member(uuid: u128, user_uuid: u128, guild_uuid: u128) -> (m: Self)
        ensures
            m.uuid == uuid,
            m.user_uuid == user_uuid,
            m.guild_uuid == guild_uuid,
            m.nickname is None,
            !m.is_owner,
    {
        MemberBuilder { uuid, nickname: None, user_uuid, guild_uuid, is_owner: false }
    }

    /// The membership of the user who creates a guild: no nickname, the owner.
    pub fn new_owner(uuid: u128, user_uuid: u128, guild_uuid: u128) -> (m: Self)
        ensures
            m.uuid == uuid,
            m.user_uuid == user_uuid,
            m.guild_uuid == guild_uuid,
            m.nickname is None,
            m.is_owner,
    {
        MemberBuilder { uuid, nickname: None, user_uuid, guild_uuid, is_owner: true }
    }

    /// Checks that this member, holding `roles`, may act under `permission`: the
    /// owner always may, anyone else needs a role whose mask grants it.
    pub fn check_permission(&self, roles: &Vec<Role>, permission: Permissions) -> (r: Result<(), Error>)
        ensures
            r is Ok <==> member_allowed(self.is_owner, roles@, permission),
            r is Err ==> (r matches Err(Error::Forbidden(m)) && m@ == "Not allowed"@),
            self.is_owner ==> r is Ok,
            !self.is_owner ==> (r is Ok <==> exists|i: int|
                0 <= i < roles@.len() && #[trigger] roles@[i].permissions & permission_bit(permission) != 0),
    {
        if !self.is_owner {
            let bit = permission.bit();
            let n = roles.len();
            let mut allowed = false;
            for i in 0..n
                invariant
                    n == roles@.len(),
                    bit == crate::objects::role::permission_bit(permission),
                    allowed <==> exists|j: int| 0 <= j < i && grants(#[trigger] roles@[j].permissions, permission),
            {
                if roles[i].permissions & bit != 0 {
                    allowed = true;
                }
            }
            if !allowed {
                return Err(Error::Forbidden(String::from_str("Not allowed")));
            }
        }
        Ok(())
    }
}

/// Law: the owner may always act; and giving a member one more role never takes
/// away a permission.
pub proof fn lemma_permission_monotone(is_owner: bool, roles: Seq<Role>, extra: Role, permission: Permissions)
    ensures
        member_allowed(true, roles, permission),
        member_allowed(is_owner, roles, permission) ==> member_allowed(is_owner, roles.push(extra), permission),
{
    if some_role_grants(roles, permission) {
        let i = choose|i: int| 0 <= i < roles.len() && grants(#[trigger] roles[i].permissions, permission);
        assert(roles.push(extra)[i] == roles[i]);
    }
}

/// Law: a member may act under `permission` exactly when they own the guild or
/// one of their roles has the permission's bit set in its mask.
pub proof fn lemma_allowed_by_bit(is_owner: bool, roles: Seq<Role>, permission: Permissions)
    ensures
        member_allowed(is_owner, roles, permission) <==> (is_owner || exists|i: int|
            0 <= i < roles.len() && #[trigger] roles[i].permissions & permission_bit(permission) != 0),
{
}

/// A member can be kicked unless they own the guild.
pub fn check_kick(is_owner: bool) -> (r: Result<(), Error>)
    ensures
        !is_owner ==> r is Ok,
        is_owner ==> (r matches Err(Error::Forbidden(m)) && m@ == "Can not kick owner"@),
{
    if is_owner {
        return Err(Error::Forbidden(String::from_str("Can not kick owner")));
    }
    Ok(())
}

/// A member can be banned unless they own the guild.
pub fn check_ban(is_owner: bool) -> (r: Result<(), Error>)
    ensures
        !is_owner ==> r is Ok,
        is_owner ==> (r matches Err(Error::Forbidden(m)) && m@ == "Can not ban owner"@),
{
    if is_owner {
        return Err(Error::Forbidden(String::from_str("Can not ban owner")));
    }
    Ok(())
}

/// Whether a user may join a guild, from the lookup of their ban: a ban found
/// refuses them, no ban found lets them in, a failed lookup is that failure.
pub fn check_join(ban_lookup: Result<(), Error>) -> (r: Result<(), Error>)
    ensures
        match ban_lookup {
            Ok(()) => r matches Err(Error::Forbidden(m)) && m@ == "User banned"@,
            Err(Error::SqlError { not_found: true, .. }) => r is Ok,
            Err(e) => r == Err::<(), Error>(e),
        },
{
    match ban_lookup {
        Ok(()) => Err(Error::Forbidden(String::from_str("User banned"))),
        Err(Error::SqlError { not_found: true, .. }) => Ok(()),
        Err(e) => Err(e),
    }
}

/// `r` is what joining decides from `ban_lookup`: a ban found refuses the user; no
/// ban found gives the membership `member_uuid` of `user_uuid` in `guild_uuid`
/// with no nickname and not the owner's; a failed lookup is that failure.
pub open spec fn join_outcome(
    ban_lookup: Result<(), Error>,
    member_uuid: u128,
    user_uuid: u128,
    guild_uuid: u128,
    r: Result<MemberBuilder, Error>,
) -> bool {
    match ban_lookup {
        Ok(()) => r matches Err(Error::Forbidden(m)) && m@ == "User banned"@,
        Err(Error::SqlError { not_found: true, .. }) => r matches Ok(m) && m.uuid == member_uuid && m.user_uuid
            == user_uuid && m.guild_uuid == guild_uuid && m.nickname is None && !m.is_owner,
        Err(e) => r matches Err(x) && x == e,
    }
}

/// The bans of the guilds, as (guild, user) pairs, after banning the member
/// `user_uuid` of `guild_uuid`: the ban row is added unless the member is the
/// owner, whose ban is refused.
pub open spec fn bans_after_ban(bans: Set<(u128, u128)>, is_owner: bool, guild_uuid: u128, user_uuid: u128) -> Set<
    (u128, u128),
> {
    if is_owner {
        bans
    } else {
        bans.insert((guild_uuid, user_uuid))
    }
}

/// `ban_lookup` is what looking up the ban of `user_uuid` in `guild_uuid` among
/// `bans` gives: found when the pair is there, not found otherwise.
pub open spec fn lookup_agrees(bans: Set<(u128, u128)>, guild_uuid: u128, user_uuid: u128, ban_lookup: Result<(), Error>) -> bool {
    &&& bans.contains((guild_uuid, user_uuid)) ==> ban_lookup is Ok
    &&& !bans.contains((guild_uuid, user_uuid)) ==> ban_lookup matches Err(Error::SqlError { not_found: true, .. })
}

/// Law: once banning a member succeeds, that user's joining the guild is refused
/// with "User banned"; a user without a ban joins as a new member with no
/// nickname, not the owner.
pub proof fn lemma_ban_then_join(
    bans: Set<(u128, u128)>,
    is_owner: bool,
    guild_uuid: u128,
    user_uuid: u128,
    member_uuid: u128,
    ban_result: Result<(), Error>,
    ban_lookup: Result<(), Error>,
    joined: Result<MemberBuilder, Error>,
)
    requires
        !is_owner ==> ban_result is Ok,
        is_owner ==> ban_result is Err,
        lookup_agrees(bans_after_ban(bans, is_owner, guild_uuid, user_uuid), guild_uuid, user_uuid, ban_lookup),
        join_outcome(ban_lookup, member_uuid, user_uuid, guild_uuid, joined),
    ensures
        ban_result is Ok ==> (joined matches Err(Error::Forbidden(m)) && m@ == "User banned"@),
        !bans.contains((guild_uuid, user_uuid)) && ban_result is Err ==> (joined matches Ok(m) && m.user_uuid
            == user_uuid && m.guild_uuid == guild_uuid && m.nickname is None && !m.is_owner),
{
}

/// What joining a guild decides, from the lookup of the user's ban in it: a ban
/// found refuses the user; no ban found gives the new membership `member_uuid`
/// of `user_uuid` in `guild_uuid` (no nickname, not the owner), the one row to
/// insert; a failed lookup is that failure.
pub fn join(ban_lookup: Result<(), Error>, member_uuid: u128, user_uuid: u128, guild_uuid: u128) -> (r: Result<
    MemberBuilder,
    Error,
>)
    ensures
        join_outcome(ban_lookup, member_uuid, user_uuid, guild_uuid, r),
{
    check_join(ban_lookup)?;
    Ok(MemberBuilder::new_member(member_uuid, user_uuid, guild_uuid))
}

/// How many members a page holds and how many come before it.
#[derive(Debug, Clone, Copy, PartialEq, Eq, Structural)]
pub struct PageWindow {
    pub limit: i64,
    pub offset: i64,
}

/// The page size a request asks for: 50 unless given.
pub open spec fn requested_page_size(p: PaginationRequest) -> i32 {
    match p.per_page {
        Some(n) => n,
        None => 50,
    }
}

/// The 32-bit arithmetic of the window does not overflow for this request.
pub open spec fn page_window_fits(p: PaginationRequest) -> bool {
    i32::MIN <= p.page - 1 && i32::MIN <= (p.page - 1) * requested_page_size(p) <= i32::MAX
}

/// The window of the member list a request asks for: the page size (50 unless
/// given, and it must be between 10 and 100) and the number of members before the
/// page, `(page - 1) * page size`.
pub fn page_window(pagination: PaginationRequest) -> (r: Result<PageWindow, Error>)
    requires
        page_window_fits(pagination),
    ensures
        10 <= requested_page_size(pagination) <= 100 ==> r == Ok::<PageWindow, Error>(
            PageWindow {
                limit: requested_page_size(pagination) as i64,
                offset: ((pagination.page - 1) * requested_page_size(pagination)) as i64,
            },
        ),
        !(10 <= requested_page_size(pagination) <= 100)
            ==> (r matches Err(Error::BadRequest(m)) && m@ == "Invalid amount per page requested"@),
{
    let per_page: i32 = match pagination.per_page {
        Some(n) => n,
        None => 50,
    };
    let page_multiplier: i64 = ((pagination.page - 1) * per_page) as i64;
    if !(10 <= per_page && per_page <= 100) {
        return Err(Error::BadRequest(String::from_str("Invalid amount per page requested")));
    }
    Ok(PageWindow { limit: per_page as i64, offset: page_multiplier })
}

} // verus!
