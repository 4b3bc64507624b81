//! The earlier permission set, with one bit per action on channels, roles,
//! invites, the server and members.
use vstd::prelude::*;
use vstd::string::*;

use crate::objects::{lowercased, to_lowercase};

verus! {

/// A permission of the earlier permission set.
#[derive(Clone, Copy, PartialEq, Eq, Structural, Debug)]
pub enum Permissions {
    SendMessage,
    CreateChannel,
    DeleteChannel,
    ManageChannel,
    CreateRole,
    DeleteRole,
    ManageRole,
    CreateInvite,
    ManageInvite,
    ManageServer,
    ManageMember,
}

/// The bit of the permission mask that stands for `p`.
pub open spec fn permission_bit(p: Permissions) -> i64 {
    match p {
        Permissions::SendMessage => 1,
        Permissions::CreateChannel => 2,
        Permissions::DeleteChannel => 4,
        Permissions::ManageChannel => 8,
        Permissions::CreateRole => 16,
        Permissions::DeleteRole => 32,
        Permissions::ManageRole => 64,
        Permissions::CreateInvite => 128,
        Permissions::ManageInvite => 256,
        Permissions::ManageServer => 512,
        Permissions::ManageMember => 1024,
    }
}

/// Every permission, in the order of their bits.
pub open spec fn all_permissions() -> Seq<Permissions> {
    seq![
        Permissions::SendMessage,
        Permissions::CreateChannel,
        Permissions::DeleteChannel,
        Permissions::ManageChannel,
        Permissions::CreateRole,
        Permissions::DeleteRole,
        Permissions::ManageRole,
        Permissions::CreateInvite,
        Permissions::ManageInvite,
        Permissions::ManageServer,
        Permissions::ManageMember,
    ]
}

/// Whether `mask` grants `p`.
pub open spec fn grants(mask: i64, p: Permissions) -> bool {
    mask & permission_bit(p) != 0
}

/// The permissions that `mask` grants, in the order of their bits.
pub open spec fn granted(mask: i64) -> Seq<Permissions> {
    all_permissions().filter(|p: Permissions| grants(mask, p))
}

impl Permissions {
    /// The mask bit of this permission.
    pub fn bit(self) -> (b: i64)
        ensures
            b == permission_bit(self),
    {
        match self {
            Permissions::SendMessage => 1,
            Permissions::CreateChannel => 2,
            Permissions::DeleteChannel => 4,
            Permissions::ManageChannel => 8,
            Permissions::CreateRole => 16,
            Permissions::DeleteRole => 32,
            Permissions::ManageRole => 64,
            Permissions::CreateInvite => 128,
            Permissions::ManageInvite => 256,
            Permissions::ManageServer => 512,
            Permissions::ManageMember => 1024,
        }
    }

    /// Decodes a permission mask into the permissions it grants, in bit order.
    pub fn fetch_permissions(permissions: i64) -> (res: Vec<Self>)
        ensures
            res@ == granted(permissions),
    {
        let all_perms = vec![
            Self::SendMessage,
            Self::CreateChannel,
            Self::DeleteChannel,
            Self::ManageChannel,
            Self::CreateRole,
            Self::DeleteRole,
            Self::ManageRole,
            Self::CreateInvite,
            Self::ManageInvite,
            Self::ManageServer,
            Self::ManageMember,
        ];
        assert(all_perms@ == all_permissions());
        let ghost pred = |p: Permissions| grants(permissions, p);
        let mut res: Vec<Self> = Vec::new();
        let n = all_perms.len();
        for i in 0..n
            invariant
                n == all_perms@.len(),
                all_perms@ == all_permissions(),
                pred == (|p: Permissions| grants(permissions, p)),
                res@ == all_perms@.take(i as int).filter(pred),
        {
            proof {
                reveal_with_fuel(Seq::<_>::filter, 1);
                assert(all_perms@.take(i + 1).drop_last() =~= all_perms@.take(i as int));
            }
            let p = all_perms[i];
            if permissions & p.bit() != 0 {
                res.push(p);
            }
        }
        assert(all_perms@.take(n as int) =~= all_perms@);
        res
    }
}

proof fn lemma_all_permissions_contains(p: Permissions)
    ensures
        all_permissions().contains(p),
{
    let all = all_permissions();
    match p {
        Permissions::SendMessage => assert(all[0] == p),
        Permissions::CreateChannel => assert(all[1] == p),
        Permissions::DeleteChannel => assert(all[2] == p),
        Permissions::ManageChannel => assert(all[3] == p),
        Permissions::CreateRole => assert(all[4] == p),
        Permissions::DeleteRole => assert(all[5] == p),
        Permissions::ManageRole => assert(all[6] == p),
        Permissions::CreateInvite => assert(all[7] == p),
        Permissions::ManageInvite => assert(all[8] == p),
        Permissions::ManageServer => assert(all[9] == p),
        Permissions::ManageMember => assert(all[10] == p),
    }
}

/// Law: a mask's permission list holds a permission exactly when the mask has
/// that permission's bit.
pub proof fn lemma_granted_exactly(mask: i64, p: Permissions)
    ensures
        granted(mask).contains(p) <==> grants(mask, p),
{
    let pred = |q: Permissions| grants(mask, q);
    let all = all_permissions();
    lemma_all_permissions_contains(p);
    if grants(mask, p) {
        let i = choose|i: int| 0 <= i < all.len() && all[i] == p;
        all.lemma_filter_contains(pred, i);
    }
    if granted(mask).contains(p) {
        let f = all.filter(pred);
        let i = choose|i: int| 0 <= i < f.len() && f[i] == p;
        all.lemma_filter_pred(pred, i);
    }
}

/// Law: the permissions of two masks combined with `|` are those of either mask.
pub proof fn lemma_granted_union(a: i64, b: i64, p: Permissions)
    ensures
        granted(a | b).contains(p) <==> (granted(a).contains(p) || granted(b).contains(p)),
{
    lemma_granted_exactly(a | b, p);
    lemma_granted_exactly(a, p);
    lemma_granted_exactly(b, p);
    let m = permission_bit(p);
    assert(((a | b) & m != 0) == ((a & m != 0) || (b & m != 0))) by (bit_vector);
}

/// Law: the empty mask grants nothing.
pub proof fn lemma_granted_none(p: Permissions)
    ensures
        !granted(0).contains(p),
{
    lemma_granted_exactly(0, p);
    let m = permission_bit(p);
    assert(0i64 & m == 0) by (bit_vector);
}

/// How mail is sent to the SMTP server.
#[derive(PartialEq, Eq, Structural, Clone, Copy, Debug)]
pub enum MailTls {
    StartTls,
    Tls,
}

impl From<String> for MailTls {
    /// "starttls" in any case means STARTTLS; anything else means TLS.
    fn from(value: String) -> (r: Self) {
        let lower = to_lowercase(value.as_str());
        if lower == String::from_str("starttls") {
            Self::StartTls
        } else {
            Self::Tls
        }
    }
}

impl vstd::std_specs::convert::FromSpecImpl<String> for MailTls {
    open spec fn obeys_from_spec() -> bool {
        true
    }

    open spec fn from_spec(v: String) -> MailTls {
        if lowercased(v@) == "starttls"@ {
            MailTls::StartTls
        } else {
            MailTls::Tls
        }
    }
}

/// Where a listing starts and how many objects it holds.
#[derive(Debug, Clone, Copy)]
pub struct StartAmountQuery {
    pub start: Option<i64>,
    pub amount: Option<i64>,
}

} // verus!
