use backend::objects::role::{Permissions, Role};
use backend::structs;
use backend::structs::Permissions as P;

#[test]
fn empty_mask_grants_nothing() {
    assert!(Permissions::fetch_permissions(0).is_empty());
    assert!(structs::Permissions::fetch_permissions(0).is_empty());
}

#[test]
fn single_bits_decode_to_their_permission() {
    assert_eq!(Permissions::fetch_permissions(1), vec![Permissions::SendMessage]);
    assert_eq!(Permissions::fetch_permissions(2), vec![Permissions::ManageChannel]);
    assert_eq!(Permissions::fetch_permissions(4), vec![Permissions::ManageRole]);
    assert_eq!(Permissions::fetch_permissions(8), vec![Permissions::CreateInvite]);
    assert_eq!(Permissions::fetch_permissions(16), vec![Permissions::ManageInvite]);
    assert_eq!(Permissions::fetch_permissions(32), vec![Permissions::ManageGuild]);
    assert_eq!(Permissions::fetch_permissions(64), vec![Permissions::ManageMember]);
}

#[test]
fn full_mask_grants_all_in_bit_order() {
    assert_eq!(
        Permissions::fetch_permissions(127),
        vec![
            Permissions::SendMessage,
            Permissions::ManageChannel,
            Permissions::ManageRole,
            Permissions::CreateInvite,
            Permissions::ManageInvite,
            Permissions::ManageGuild,
            Permissions::ManageMember,
        ]
    );
    assert_eq!(Permissions::fetch_permissions(-1).len(), 7);
}

#[test]
fn bits_outside_the_set_are_ignored() {
    assert_eq!(Permissions::fetch_permissions(128 | 256 | 1), vec![Permissions::SendMessage]);
}

#[test]
fn union_of_masks_is_union_of_permissions() {
    let a = 1 | 8;
    let b = 8 | 64;
    let pa = Permissions::fetch_permissions(a);
    let pb = Permissions::fetch_permissions(b);
    let pab = Permissions::fetch_permissions(a | b);
    for p in [
        Permissions::SendMessage,
        Permissions::ManageChannel,
        Permissions::ManageRole,
        Permissions::CreateInvite,
        Permissions::ManageInvite,
        Permissions::ManageGuild,
        Permissions::ManageMember,
    ] {
        assert_eq!(pab.contains(&p), pa.contains(&p) || pb.contains(&p));
        assert_eq!(pab.contains(&p), (a | b) & p.bit() != 0);
    }
}

#[test]
fn role_permissions_follow_its_mask() {
    let role = Role {
        uuid: 1,
        guild_uuid: 2,
        name: String::from("mods"),
        color: 0,
        is_above: None,
        permissions: 2 | 32,
    };
    assert_eq!(role.fetch_permissions(), vec![Permissions::ManageChannel, Permissions::ManageGuild]);
}

#[test]
fn earlier_permission_set_decodes_its_bits() {
    assert_eq!(P::fetch_permissions(1 | 1024), vec![P::SendMessage, P::ManageMember]);
    assert_eq!(P::fetch_permissions(2047).len(), 11);
    assert_eq!(
        P::fetch_permissions(2 | 4 | 8),
        vec![P::CreateChannel, P::DeleteChannel, P::ManageChannel]
    );
    assert_eq!(P::fetch_permissions(512), vec![P::ManageServer]);
    assert_eq!(P::ManageServer.bit(), 512);
}

fn bits(ps: &[Permissions]) -> Vec<i64> {
    ps.iter().map(|p| p.bit()).collect()
}

#[test]
fn granted_list_encodes_the_low_bits() {
    for x in [0i64, 1, 5, 64, 127, 128, 255, 0x1234, -1, i64::MIN, i64::MAX] {
        let b = bits(&Permissions::fetch_permissions(x));
        assert!(b.windows(2).all(|w| w[0] < w[1]));
        assert!(b.len() <= 7);
        assert_eq!(b.iter().sum::<i64>(), x & 127);
    }
}

#[test]
fn granted_lists_of_or_and_and() {
    for (a, b) in [(5i64, 3i64), (0, 127), (0x55, 0x2a), (-1, 9), (64, 64)] {
        let la = bits(&Permissions::fetch_permissions(a));
        let lb = bits(&Permissions::fetch_permissions(b));
        let mut merged: Vec<i64> = la.iter().chain(lb.iter()).copied().collect();
        merged.sort();
        merged.dedup();
        assert_eq!(bits(&Permissions::fetch_permissions(a | b)), merged);
        let both: Vec<i64> = la.iter().copied().filter(|x| lb.contains(x)).collect();
        assert_eq!(bits(&Permissions::fetch_permissions(a & b)), both);
    }
    let small = bits(&Permissions::fetch_permissions(0b101));
    let big = bits(&Permissions::fetch_permissions(0b111));
    assert_eq!(small, big.iter().copied().filter(|x| small.contains(x)).collect::<Vec<_>>());
}
