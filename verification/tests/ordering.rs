use std::collections::HashMap;

use backend::objects::channel::Channel;
use backend::objects::links::{append_plan, delete_plan, move_plan, LinkUpdate};
use backend::objects::role::Role;
use backend::utils::order_by_is_above;

fn channel(uuid: u128, is_above: Option<u128>) -> Channel {
    Channel {
        uuid,
        guild_uuid: 100,
        name: format!("c{uuid}"),
        description: None,
        is_above,
        permissions: vec![],
    }
}

fn uuids(cs: &[Channel]) -> Vec<u128> {
    cs.iter().map(|c| c.uuid).collect()
}

fn apply(table: &mut HashMap<u128, Option<u128>>, plan: &[LinkUpdate]) {
    for u in plan {
        match *u {
            LinkUpdate::Insert { uuid } => {
                table.insert(uuid, None);
            }
            LinkUpdate::SetByUuid { uuid, is_above } => {
                if let Some(v) = table.get_mut(&uuid) {
                    *v = is_above;
                }
            }
            LinkUpdate::SetByIsAbove { current, is_above } => {
                for v in table.values_mut() {
                    if *v == Some(current) {
                        *v = is_above;
                    }
                }
            }
            LinkUpdate::Delete { uuid } => {
                table.remove(&uuid);
            }
        }
    }
}

fn table_of(order: &[u128]) -> HashMap<u128, Option<u128>> {
    let mut t = HashMap::new();
    for (i, u) in order.iter().enumerate() {
        t.insert(*u, order.get(i + 1).copied());
    }
    t
}

fn order_of(table: &HashMap<u128, Option<u128>>) -> Vec<u128> {
    let cs: Vec<Channel> = table.iter().map(|(u, a)| channel(*u, *a)).collect();
    uuids(&order_by_is_above(cs))
}

#[test]
fn orders_a_shuffled_chain() {
    let cs = vec![channel(3, None), channel(1, Some(2)), channel(2, Some(3))];
    assert_eq!(uuids(&order_by_is_above(cs)), vec![1, 2, 3]);
}

#[test]
fn empty_list_orders_to_empty() {
    assert!(order_by_is_above(Vec::<Channel>::new()).is_empty());
}

#[test]
fn a_cycle_has_no_head() {
    let cs = vec![channel(1, Some(2)), channel(2, Some(1))];
    assert!(order_by_is_above(cs).is_empty());
}

#[test]
fn ordering_stops_where_the_link_leads_nowhere() {
    let cs = vec![channel(1, Some(9)), channel(2, None)];
    assert_eq!(uuids(&order_by_is_above(cs)), vec![1]);
}

#[test]
fn ordering_starts_at_the_first_head() {
    let cs = vec![channel(5, None), channel(4, None)];
    assert_eq!(uuids(&order_by_is_above(cs)), vec![5]);
}

#[test]
fn roles_are_ordered_the_same_way() {
    let role = |uuid: u128, is_above: Option<u128>| Role {
        uuid,
        guild_uuid: 1,
        name: String::new(),
        color: 0,
        is_above,
        permissions: 0,
    };
    let rs = vec![role(20, None), role(10, Some(20))];
    let ordered: Vec<u128> = order_by_is_above(rs).iter().map(|r| r.uuid).collect();
    assert_eq!(ordered, vec![10, 20]);
}

#[test]
fn append_plan_links_the_last_row() {
    assert_eq!(
        append_plan(7, Some(3)),
        vec![LinkUpdate::Insert { uuid: 7 }, LinkUpdate::SetByUuid { uuid: 3, is_above: Some(7) }]
    );
    assert_eq!(append_plan(7, None), vec![LinkUpdate::Insert { uuid: 7 }]);
    let mut t = table_of(&[1, 2, 3]);
    apply(&mut t, &append_plan(4, Some(3)));
    assert_eq!(t, table_of(&[1, 2, 3, 4]));
    assert_eq!(order_of(&t), vec![1, 2, 3, 4]);
}

#[test]
fn move_plan_puts_the_row_above_the_target() {
    let mut t = table_of(&[1, 2, 3, 4, 5]);
    // move 2 directly above 5
    apply(&mut t, &move_plan(2, Some(3), Some(1), 5));
    assert_eq!(t, table_of(&[1, 3, 4, 2, 5]));
    let mut t = table_of(&[1, 2, 3, 4, 5]);
    // move 4 directly above 1 (to the top)
    apply(&mut t, &move_plan(4, Some(5), Some(3), 1));
    assert_eq!(t, table_of(&[4, 1, 2, 3, 5]));
    let mut t = table_of(&[1, 2, 3, 4]);
    // move the top row 1 directly above 4
    apply(&mut t, &move_plan(1, Some(2), None, 4));
    assert_eq!(t, table_of(&[2, 3, 1, 4]));
    assert_eq!(order_of(&t), vec![2, 3, 1, 4]);
}

#[test]
fn move_plan_lists_the_statements_in_order() {
    assert_eq!(
        move_plan(2, Some(3), Some(1), 5),
        vec![
            LinkUpdate::SetByUuid { uuid: 1, is_above: None },
            LinkUpdate::SetByIsAbove { current: 5, is_above: Some(2) },
            LinkUpdate::SetByUuid { uuid: 2, is_above: Some(5) },
            LinkUpdate::SetByUuid { uuid: 1, is_above: Some(3) },
        ]
    );
}

#[test]
fn moving_above_the_row_already_below_breaks_the_list() {
    let mut t = table_of(&[1, 2, 3]);
    apply(&mut t, &move_plan(2, Some(3), Some(1), 3));
    // both 1 and 2 now name 3; 2 is named by nobody
    assert_eq!(t.get(&1), Some(&Some(3)));
    assert_eq!(t.get(&2), Some(&Some(3)));
}

#[test]
fn delete_plan_at_the_ends_keeps_the_list() {
    let mut t = table_of(&[1, 2, 3]);
    apply(&mut t, &delete_plan(1, Some(2)));
    assert_eq!(t, table_of(&[2, 3]));
    let mut t = table_of(&[1, 2, 3]);
    apply(&mut t, &delete_plan(3, None));
    assert_eq!(t, table_of(&[1, 2]));
}

#[test]
fn delete_plan_in_the_middle_splits_the_list() {
    let mut t = table_of(&[1, 2, 3]);
    apply(&mut t, &delete_plan(2, Some(3)));
    assert_eq!(t.get(&1), Some(&None));
    assert_eq!(t.get(&3), Some(&None));
    assert_eq!(order_of(&t).len(), 1);
}

#[test]
fn channel_delete_and_move_give_their_plans() {
    let c = channel(2, Some(3));
    assert_eq!(
        c.clone().delete(),
        vec![
            LinkUpdate::SetByIsAbove { current: 2, is_above: None },
            LinkUpdate::Delete { uuid: 2 },
            LinkUpdate::SetByIsAbove { current: 2, is_above: Some(3) },
        ]
    );
    let mut m = c;
    let plan = m.move_channel(Some(1), 5);
    assert_eq!(plan, move_plan(2, Some(3), Some(1), 5));
    assert_eq!(m.is_above, Some(5));
}

#[test]
fn new_role_goes_below_the_last_role() {
    let role = |uuid: u128, is_above: Option<u128>| Role {
        uuid,
        guild_uuid: 1,
        name: String::new(),
        color: 0,
        is_above,
        permissions: 0,
    };
    let (r, plan) = Role::new(9, 1, String::from("new"), vec![role(2, None), role(1, Some(2))]);
    assert_eq!(r.uuid, 9);
    assert_eq!(r.color, 16777215);
    assert_eq!(r.permissions, 0);
    assert_eq!(r.is_above, None);
    assert_eq!(plan, append_plan(9, Some(2)));
    let (_, plan) = Role::new(9, 1, String::from("first"), vec![]);
    assert_eq!(plan, vec![LinkUpdate::Insert { uuid: 9 }]);
}

#[test]
fn ties_are_broken_by_first_position_after_swap_remove() {
    // uuid 2 occurs twice; after the head is swap-removed, the copy that was last
    // stands first and is taken.
    let items = vec![channel(1, Some(2)), channel(2, None), channel(2, Some(3))];
    let ordered = order_by_is_above(items);
    assert_eq!(uuids(&ordered), vec![1, 2]);
    assert_eq!(ordered[1].is_above, Some(3));
}
