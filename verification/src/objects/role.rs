//! Roles of a guild and the permissions they grant.
use vstd::prelude::*;

use crate::objects::links::{append_changes, append_plan, LinkUpdate};
use crate::objects::{HasIsAbove, HasUuid};
use crate::utils::{ordered_by_links, order_by_is_above};

verus! {

/// A role of a guild; roles are ordered by naming the role directly below them.
#[derive(Debug, Clone)]
pub struct Role {
    pub uuid: u128,
    pub guild_uuid: u128,
    pub name: String,
    pub color: i32,
    pub is_above: Option<u128>,
    pub permissions: i64,
}

/// The membership of a member in a role.
#[derive(Debug, Clone, Copy)]
pub struct RoleMember {
    pub role_uuid: u128,
    pub member_uuid: u128,
}

impl HasUuid for Role {
    open spec fn uuid_of(&self) -> u128 {
        self.uuid
    }

    fn uuid(&self) -> (r: u128) {
        self.uuid
    }
}

impl HasIsAbove for Role {
    open spec fn is_above_of(&self) -> Option<u128> {
        self.is_above
    }

    fn is_above(&self) -> (r: Option<u128>) {
        self.is_above
    }
}

/// The uuid of the last item of `ordered`, if any.
pub open spec fn last_uuid<T: HasUuid>(ordered: Seq<T>) -> Option<u128> {
    if ordered.len() > 0 {
        Some(ordered.last().uuid_of())
    } else {
        None
    }
}

proof fn lemma_all_permissions_contains(p: Permissions)
    ensures
        all_permissions().contains(p),
{
    let all = all_permissions();
    match p {
        Permissions::SendMessage => assert(all[0] == p),
        Permissions::ManageChannel => assert(all[1] == p),
        Permissions::ManageRole => assert(all[2] == p),
        Permissions::CreateInvite => assert(all[3] == p),
        Permissions::ManageInvite => assert(all[4] == p),
        Permissions::ManageGuild => assert(all[5] == p),
        Permissions::ManageMember => assert(all[6] == p),
    }
}

/// Law: a mask's permission list holds a permission exactly when the mask has
/// that permission's bit.
pub proof fn lemma_granted_exactly(mask: i64, p: Permissions)
    ensures
        granted(mask).contains(p) <==> grants(mask, p),
{
    let pred = |q: Permissions| grants(mask, q);
    let all = all_permissions();
    lemma_all_permissions_contains(p);
    if grants(mask, p) {
        let i = choose|i: int| 0 <= i < all.len() && all[i] == p;
        all.lemma_filter_contains(pred, i);
    }
    if granted(mask).contains(p) {
        let f = all.filter(pred);
        let i = choose|i: int| 0 <= i < f.len() && f[i] == p;
        all.lemma_filter_pred(pred, i);
    }
}

/// Law: the permissions of two masks combined with `|` are those of either mask.
pub proof fn lemma_granted_union(a: i64, b: i64, p: Permissions)
    ensures
        granted(a | b).contains(p) <==> (granted(a).contains(p) || granted(b).contains(p)),
{
    lemma_granted_exactly(a | b, p);
    lemma_granted_exactly(a, p);
    lemma_granted_exactly(b, p);
    let m = permission_bit(p);
    assert(((a | b) & m != 0) == ((a & m != 0) || (b & m != 0))) by (bit_vector);
}

/// Law: the empty mask grants nothing.
pub proof fn lemma_granted_none(p: Permissions)
    ensures
        !granted(0).contains(p),
{
    lemma_granted_exactly(0, p);
    let m = permission_bit(p);
    assert(0i64 & m == 0) by (bit_vector);
}

/// The sum of the mask bits of the permissions in `s`.
pub open spec fn bits_of(s: Seq<Permissions>) -> int
    decreases s.len(),
{
    if s.len() == 0 {
        0
    } else {
        bits_of(s.drop_last()) + permission_bit(s.last())
    }
}

/// Each permission of `s` has a higher bit than every one before it.
pub open spec fn bits_increasing(s: Seq<Permissions>) -> bool {
    forall|i: int, j: int| 0 <= i < j < s.len() ==> permission_bit(#[trigger] s[i]) < permission_bit(#[trigger] s[j])
}

/// The sum of the bits of the permissions of `s` that `mask` grants.
spec fn granted_bits(s: Seq<Permissions>, mask: i64) -> int
    decreases s.len(),
{
    if s.len() == 0 {
        0
    } else {
        granted_bits(s.drop_last(), mask) + if grants(mask, s.last()) {
            permission_bit(s.last()) as int
        } else {
            0
        }
    }
}

proof fn lemma_filter_bits(s: Seq<Permissions>, mask: i64)
    ensures
        bits_of(s.filter(|p: Permissions| grants(mask, p))) == granted_bits(s, mask),
    decreases s.len(),
{
    reveal(Seq::filter);
    if s.len() > 0 {
        lemma_filter_bits(s.drop_last(), mask);
        let f = s.drop_last().filter(|p: Permissions| grants(mask, p));
        assert(f.push(s.last()).drop_last() =~= f);
    }
}

proof fn lemma_filter_keeps_increasing(s: Seq<Permissions>, pred: spec_fn(Permissions) -> bool)
    requires
        bits_increasing(s),
    ensures
        bits_increasing(s.filter(pred)),
    decreases s.len(),
{
    reveal(Seq::filter);
    if s.len() > 0 {
        let d = s.drop_last();
        assert(bits_increasing(d)) by {
            assert forall|i: int, j: int| 0 <= i < j < d.len() implies permission_bit(#[trigger] d[i])
                < permission_bit(#[trigger] d[j]) by {
                assert(d[i] == s[i] && d[j] == s[j]);
            }
        }
        lemma_filter_keeps_increasing(d, pred);
        let f = d.filter(pred);
        if pred(s.last()) {
            let g = f.push(s.last());
            assert forall|i: int, j: int| 0 <= i < j < g.len() implies permission_bit(#[trigger] g[i])
                < permission_bit(#[trigger] g[j]) by {
                if j == g.len() - 1 {
                    assert(f.contains(f[i]));
                    d.lemma_filter_contains_rev(pred, f[i]);
                    let k = choose|k: int| 0 <= k < d.len() && d[k] == f[i];
                    assert(s[k] == d[k]);
                    assert(s.last() == s[s.len() - 1]);
                } else {
                    assert(g[i] == f[i] && g[j] == f[j]);
                }
            }
        }
    }
}

proof fn lemma_filter_same<A>(s: Seq<A>, p: spec_fn(A) -> bool, q: spec_fn(A) -> bool)
    requires
        forall|x: A| #[trigger] p(x) == q(x),
    ensures
        s.filter(p) == s.filter(q),
{
    assert(p =~= q);
}

proof fn lemma_filter_filter<A>(s: Seq<A>, p: spec_fn(A) -> bool, q: spec_fn(A) -> bool, r: spec_fn(A) -> bool)
    requires
        forall|x: A| #[trigger] r(x) == (p(x) && q(x)),
    ensures
        s.filter(p).filter(q) == s.filter(r),
    decreases s.len(),
{
    reveal(Seq::filter);
    if s.len() > 0 {
        lemma_filter_filter(s.drop_last(), p, q, r);
        let f = s.drop_last().filter(p);
        assert(f.push(s.last()).drop_last() =~= f);
        assert(f.push(s.last()).last() == s.last());
        assert(r(s.last()) == (p(s.last()) && q(s.last())));
    }
}

proof fn lemma_bit_and_or(a: i64, b: i64, p: Permissions)
    ensures
        grants(a | b, p) == (grants(a, p) || grants(b, p)),
        grants(a & b, p) == (grants(a, p) && grants(b, p)),
        (a & !b) & 127 == 0 && grants(a, p) ==> grants(b, p),
{
    match p {
        Permissions::SendMessage => {
            assert(((a | b) & 1 != 0) == ((a & 1 != 0) || (b & 1 != 0))) by (bit_vector);
            assert(((a & b) & 1 != 0) == ((a & 1 != 0) && (b & 1 != 0))) by (bit_vector);
            assert((a & !b) & 127 == 0 && a & 1 != 0 ==> b & 1 != 0) by (bit_vector);
        },
        Permissions::ManageChannel => {
            assert(((a | b) & 2 != 0) == ((a & 2 != 0) || (b & 2 != 0))) by (bit_vector);
            assert(((a & b) & 2 != 0) == ((a & 2 != 0) && (b & 2 != 0))) by (bit_vector);
            assert((a & !b) & 127 == 0 && a & 2 != 0 ==> b & 2 != 0) by (bit_vector);
        },
        Permissions::ManageRole => {
            assert(((a | b) & 4 != 0) == ((a & 4 != 0) || (b & 4 != 0))) by (bit_vector);
            assert(((a & b) & 4 != 0) == ((a & 4 != 0) && (b & 4 != 0))) by (bit_vector);
            assert((a & !b) & 127 == 0 && a & 4 != 0 ==> b & 4 != 0) by (bit_vector);
        },
        Permissions::CreateInvite => {
            assert(((a | b) & 8 != 0) == ((a & 8 != 0) || (b & 8 != 0))) by (bit_vector);
            assert(((a & b) & 8 != 0) == ((a & 8 != 0) && (b & 8 != 0))) by (bit_vector);
            assert((a & !b) & 127 == 0 && a & 8 != 0 ==> b & 8 != 0) by (bit_vector);
        },
        Permissions::ManageInvite => {
            assert(((a | b) & 16 != 0) == ((a & 16 != 0) || (b & 16 != 0))) by (bit_vector);
            assert(((a & b) & 16 != 0) == ((a & 16 != 0) && (b & 16 != 0))) by (bit_vector);
            assert((a & !b) & 127 == 0 && a & 16 != 0 ==> b & 16 != 0) by (bit_vector);
        },
        Permissions::ManageGuild => {
            assert(((a | b) & 32 != 0) == ((a & 32 != 0) || (b & 32 != 0))) by (bit_vector);
            assert(((a & b) & 32 != 0) == ((a & 32 != 0) && (b & 32 != 0))) by (bit_vector);
            assert((a & !b) & 127 == 0 && a & 32 != 0 ==> b & 32 != 0) by (bit_vector);
        },
        Permissions::ManageMember => {
            assert(((a | b) & 64 != 0) == ((a & 64 != 0) || (b & 64 != 0))) by (bit_vector);
            assert(((a & b) & 64 != 0) == ((a & 64 != 0) && (b & 64 != 0))) by (bit_vector);
            assert((a & !b) & 127 == 0 && a & 64 != 0 ==> b & 64 != 0) by (bit_vector);
        },
    }
}

/// Law: the permissions a mask grants come in strictly increasing bit order (so
/// each at most once), are at most seven, and their bits add up to the mask's
/// seven low bits: the list encodes exactly the known bits of the mask.
pub proof fn lemma_granted_encodes_mask(mask: i64)
    ensures
        bits_increasing(granted(mask)),
        granted(mask).no_duplicates(),
        granted(mask).len() <= 7,
        bits_of(granted(mask)) == (mask & 127) as int,
{
    let all = all_permissions();
    assert(bits_increasing(all));
    lemma_filter_keeps_increasing(all, |p: Permissions| grants(mask, p));
    let g = granted(mask);
    assert forall|i: int, j: int| 0 <= i < g.len() && 0 <= j < g.len() && i != j implies g[i] != g[j] by {
        if i < j {
            assert(permission_bit(g[i]) < permission_bit(g[j]));
        } else {
            assert(permission_bit(g[j]) < permission_bit(g[i]));
        }
    }
    all.lemma_filter_len(|p: Permissions| grants(mask, p));
    lemma_filter_bits(all, mask);
    let a6 = all.drop_last();
    let a5 = a6.drop_last();
    let a4 = a5.drop_last();
    let a3 = a4.drop_last();
    let a2 = a3.drop_last();
    let a1 = a2.drop_last();
    let a0 = a1.drop_last();
    assert(a0.len() == 0);
    assert(granted_bits(a1, mask) == granted_bits(a0, mask) + if grants(mask, all[0]) { 1int } else { 0int });
    assert(granted_bits(a2, mask) == granted_bits(a1, mask) + if grants(mask, all[1]) { 2int } else { 0int });
    assert(granted_bits(a3, mask) == granted_bits(a2, mask) + if grants(mask, all[2]) { 4int } else { 0int });
    assert(granted_bits(a4, mask) == granted_bits(a3, mask) + if grants(mask, all[3]) { 8int } else { 0int });
    assert(granted_bits(a5, mask) == granted_bits(a4, mask) + if grants(mask, all[4]) { 16int } else { 0int });
    assert(granted_bits(a6, mask) == granted_bits(a5, mask) + if grants(mask, all[5]) { 32int } else { 0int });
    assert(granted_bits(all, mask) == granted_bits(a6, mask) + if grants(mask, all[6]) { 64int } else { 0int });
    assert((if mask & 1 != 0 { 1int } else { 0int }) + (if mask & 2 != 0 { 2int } else { 0int }) + (if mask & 4
        != 0 { 4int } else { 0int }) + (if mask & 8 != 0 { 8int } else { 0int }) + (if mask & 16 != 0 {
        16int
    } else {
        0int
    }) + (if mask & 32 != 0 { 32int } else { 0int }) + (if mask & 64 != 0 { 64int } else { 0int }) == (mask
        & 127) as int) by (bit_vector);
}

/// Law: the permissions of `a | b` are those granted by `a` or by `b`, in bit
/// order; the permissions of `a & b` are those of `a` that `b` grants too; and a
/// mask whose known bits all lie in `b` grants a part of `b`'s list, in order.
pub proof fn lemma_granted_merge(a: i64, b: i64)
    ensures
        granted(a | b) == all_permissions().filter(|p: Permissions| granted(a).contains(p) || granted(b).contains(p)),
        granted(a & b) == granted(a).filter(|p: Permissions| granted(b).contains(p)),
        (a & !b) & 127 == 0 ==> granted(a) == granted(b).filter(|p: Permissions| granted(a).contains(p)),
{
    let all = all_permissions();
    assert forall|p: Permissions| #[trigger] grants(a | b, p) == (granted(a).contains(p) || granted(b).contains(p)) by {
        lemma_bit_and_or(a, b, p);
        lemma_granted_exactly(a, p);
        lemma_granted_exactly(b, p);
    }
    lemma_filter_same(all, |p: Permissions| grants(a | b, p), |p: Permissions| granted(a).contains(p) || granted(b).contains(p));
    assert forall|p: Permissions| #[trigger] grants(a & b, p) == (grants(a, p) && granted(b).contains(p)) by {
        lemma_bit_and_or(a, b, p);
        lemma_granted_exactly(b, p);
    }
    lemma_filter_filter(
        all,
        |p: Permissions| grants(a, p),
        |p: Permissions| granted(b).contains(p),
        |p: Permissions| grants(a & b, p),
    );
    if (a & !b) & 127 == 0 {
        assert forall|p: Permissions| #[trigger] grants(a, p) == (grants(b, p) && granted(a).contains(p)) by {
            lemma_bit_and_or(a, b, p);
            lemma_granted_exactly(a, p);
        }
        lemma_filter_filter(
            all,
            |p: Permissions| grants(b, p),
            |p: Permissions| granted(a).contains(p),
            |p: Permissions| grants(a, p),
        );
    }
}

impl Role {
    /// The permissions this role grants, in bit order.
    pub fn fetch_permissions(&self) -> (res: Vec<Permissions>)
        ensures
            res@ == granted(self.permissions),
    {
        Permissions::fetch_permissions(self.permissions)
    }

    /// A new role of the guild, white (16777215) and granting nothing, and the row
    /// changes that put it at the bottom of the guild's `roles`: insert it, and let
    /// the role that was last name it as the one below.
    pub fn new(role_uuid: u128, guild_uuid: u128, name: String, roles: Vec<Role>) -> (r: (Role, Vec<LinkUpdate>))
        ensures
            r.0.uuid == role_uuid,
            r.0.guild_uuid == guild_uuid,
            r.0.name == name,
            r.0.color == 16777215,
            r.0.is_above is None,
            r.0.permissions == 0,
            r.1@ == append_changes(role_uuid, last_uuid(ordered_by_links(roles@))),
    {
        let ordered = order_by_is_above(roles);
        let last = if ordered.len() > 0 {
            Some(ordered[ordered.len() - 1].uuid)
        } else {
            None
        };
        let plan = append_plan(role_uuid, last);
        let role = Role { uuid: role_uuid, guild_uuid, name, color: 16777215, is_above: None, permissions: 0 };
        (role, plan)
    }
}

/// A single permission a role can grant; each one owns one bit of a mask.
#[derive(Clone, Copy, PartialEq, Eq, Structural, Debug)]
pub enum Permissions {
    /// Lets users send messages in the guild or channel
    SendMessage,
    /// Lets users create, delete and edit channels and categories or a singular channel depending on permission context
    ManageChannel,
    /// Lets users manage roles in the guild
    ManageRole,
    /// Lets users create invites in the guild
    CreateInvite,
    /// Lets users manage invites in the guild
    ManageInvite,
    /// Lets users change guild settings
    ManageGuild,
    /// Lets users change member settings (nickname, etc)
    ManageMember,
}

/// The bit of the permission mask that stands for `p`.
pub open spec fn permission_bit(p: Permissions) -> i64 {
    match p {
        Permissions::SendMessage => 1,
        Permissions::ManageChannel => 2,
        Permissions::ManageRole => 4,
        Permissions::CreateInvite => 8,
        Permissions::ManageInvite => 16,
        Permissions::ManageGuild => 32,
        Permissions::ManageMember => 64,
    }
}

/// Every permission, in the order of their bits.
pub open spec fn all_permissions() -> Seq<Permissions> {
    seq![
        Permissions::SendMessage,
        Permissions::ManageChannel,
        Permissions::ManageRole,
        Permissions::CreateInvite,
        Permissions::ManageInvite,
        Permissions::ManageGuild,
        Permissions::ManageMember,
    ]
}

/// Whether `mask` grants `p`.
pub open spec fn grants(mask: i64, p: Permissions) -> bool {
    mask & permission_bit(p) != 0
}

/// The permissions that `mask` grants, in the order of their bits.
pub open spec fn granted(mask: i64) -> Seq<Permissions> {
    all_permissions().filter(|p: Permissions| grants(mask, p))
}

impl Permissions {
    /// The mask bit of this permission.
    pub fn bit(self) -> (b: i64)
        ensures
            b == permission_bit(self),
    {
        match self {
            Permissions::SendMessage => 1,
            Permissions::ManageChannel => 2,
            Permissions::ManageRole => 4,
            Permissions::CreateInvite => 8,
            Permissions::ManageInvite => 16,
            Permissions::ManageGuild => 32,
            Permissions::ManageMember => 64,
        }
    }

    /// Decodes a permission mask into the permissions it grants, in bit order.
    pub fn fetch_permissions(permissions: i64) -> (res: Vec<Self>)
        ensures
            res@ == granted(permissions),
    {
        let all_perms = vec![
            Self::SendMessage,
            Self::ManageChannel,
            Self::ManageRole,
            Self::CreateInvite,
            Self::ManageInvite,
            Self::ManageGuild,
            Self::ManageMember,
        ];
        assert(all_perms@ == all_permissions());
        let ghost pred = |p: Permissions| grants(permissions, p);
        let mut res: Vec<Self> = Vec::new();
        let n = all_perms.len();
        for i in 0..n
            invariant
                n == all_perms@.len(),
                all_perms@ == all_permissions(),
                pred == (|p: Permissions| grants(permissions, p)),
                res@ == all_perms@.take(i as int).filter(pred),
        {
            proof {
                reveal_with_fuel(Seq::<_>::filter, 1);
                assert(all_perms@.take(i + 1).drop_last() =~= all_perms@.take(i as int));
            }
            let p = all_perms[i];
            if permissions & p.bit() != 0 {
                res.push(p);
            }
        }
        assert(all_perms@.take(n as int) =~= all_perms@);
        res
    }
}

} // verus!
