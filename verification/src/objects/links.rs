//! The `is_above` links of a guild's channels (or roles) as a table from uuid to
//! the uuid directly below, the row changes that creating, moving and deleting
//! issue, and what those changes do to the order the links describe.
use vstd::prelude::*;

verus! {

broadcast use vstd::seq_lib::group_seq_properties;

/// One change to a table of `is_above` links, as the database statements make it.
#[derive(Clone, Copy, PartialEq, Eq, Structural, Debug)]
pub enum LinkUpdate {
    /// Insert a row for `uuid` that names nothing below it.
    Insert { uuid: u128 },
    /// Set the link of the row whose uuid is `uuid`.
    SetByUuid { uuid: u128, is_above: Option<u128> },
    /// Set the link of every row whose link names `current`.
    SetByIsAbove { current: u128, is_above: Option<u128> },
    /// Delete the row whose uuid is `uuid`.
    Delete { uuid: u128 },
}

/// What one change does to the table (uuid to the uuid directly below).
pub open spec fn apply_update(t: Map<u128, Option<u128>>, u: LinkUpdate) -> Map<u128, Option<u128>> {
    match u {
        LinkUpdate::Insert { uuid } => t.insert(uuid, None),
        LinkUpdate::SetByUuid { uuid, is_above } => if t.dom().contains(uuid) {
            t.insert(uuid, is_above)
        } else {
            t
        },
        LinkUpdate::SetByIsAbove { current, is_above } => Map::new(
            |k: u128| t.dom().contains(k),
            |k: u128| if t[k] == Some(current) { is_above } else { t[k] },
        ),
        LinkUpdate::Delete { uuid } => t.remove(uuid),
    }
}

/// What a list of changes, made in order, does to the table.
pub open spec fn apply_updates(t: Map<u128, Option<u128>>, plan: Seq<LinkUpdate>) -> Map<u128, Option<u128>>
    decreases plan.len(),
{
    if plan.len() == 0 {
        t
    } else {
        apply_updates(apply_update(t, plan[0]), plan.drop_first())
    }
}

/// The uuid directly below position `k` of `order`, if any.
pub open spec fn below_in(order: Seq<u128>, k: int) -> Option<u128> {
    if k + 1 < order.len() {
        Some(order[k + 1])
    } else {
        None
    }
}

/// The uuid directly above position `k` of `order`, if any.
pub open spec fn above_in(order: Seq<u128>, k: int) -> Option<u128> {
    if k > 0 {
        Some(order[k - 1])
    } else {
        None
    }
}

/// The last uuid of `order`, if any.
pub open spec fn last_in(order: Seq<u128>) -> Option<u128> {
    if order.len() > 0 {
        Some(order.last())
    } else {
        None
    }
}

/// The table holds exactly the uuids of `order`, each linked to the one after it.
pub open spec fn represents(t: Map<u128, Option<u128>>, order: Seq<u128>) -> bool {
    &&& order.no_duplicates()
    &&& t.dom() =~= order.to_set()
    &&& forall|k: int| 0 <= k < order.len() ==> t[#[trigger] order[k]] == below_in(order, k)
}

/// `order` with the uuid at `si` taken out and put directly above the uuid at `ni`.
pub open spec fn moved_order(order: Seq<u128>, si: int, ni: int) -> Seq<u128> {
    if si < ni {
        order.subrange(0, si) + order.subrange(si + 1, ni) + seq![order[si]] + order.subrange(
            ni,
            order.len() as int,
        )
    } else {
        order.subrange(0, ni) + seq![order[si]] + order.subrange(ni, si) + order.subrange(
            si + 1,
            order.len() as int,
        )
    }
}

/// The changes that put a new row at the bottom of a list whose last row is `last`.
pub open spec fn append_changes(new_uuid: u128, last: Option<u128>) -> Seq<LinkUpdate> {
    match last {
        Some(l) => seq![
            LinkUpdate::Insert { uuid: new_uuid },
            LinkUpdate::SetByUuid { uuid: l, is_above: Some(new_uuid) },
        ],
        None => seq![LinkUpdate::Insert { uuid: new_uuid }],
    }
}

/// The changes that deleting the row `uuid`, which names `is_above` below it, makes.
pub open spec fn delete_changes(uuid: u128, is_above: Option<u128>) -> Seq<LinkUpdate> {
    seq![
        LinkUpdate::SetByIsAbove { current: uuid, is_above: None },
        LinkUpdate::Delete { uuid },
        LinkUpdate::SetByIsAbove { current: uuid, is_above },
    ]
}

/// The changes that moving the row `uuid` (which names `is_above` below it and is
/// named by `old_above`) directly above `new_is_above` makes.
pub open spec fn move_changes(
    uuid: u128,
    is_above: Option<u128>,
    old_above: Option<u128>,
    new_is_above: u128,
) -> Seq<LinkUpdate> {
    let core = seq![
        LinkUpdate::SetByIsAbove { current: new_is_above, is_above: Some(uuid) },
        LinkUpdate::SetByUuid { uuid, is_above: Some(new_is_above) },
    ];
    match old_above {
        Some(a) => seq![LinkUpdate::SetByUuid { uuid: a, is_above: None }] + core + seq![
            LinkUpdate::SetByUuid { uuid: a, is_above },
        ],
        None => core,
    }
}

/// The changes that add the row `new_uuid` below `last`, the last row of the list.
pub fn append_plan(new_uuid: u128, last: Option<u128>) -> (plan: Vec<LinkUpdate>)
    ensures
        plan@ == append_changes(new_uuid, last),
{
    let mut plan = vec![LinkUpdate::Insert { uuid: new_uuid }];
    if let Some(l) = last {
        plan.push(LinkUpdate::SetByUuid { uuid: l, is_above: Some(new_uuid) });
    }
    assert(plan@ =~= append_changes(new_uuid, last));
    plan
}

/// The changes that delete the row `uuid`, which names `is_above` below it.
pub fn delete_plan(uuid: u128, is_above: Option<u128>) -> (plan: Vec<LinkUpdate>)
    ensures
        plan@ == delete_changes(uuid, is_above),
{
    let plan = vec![
        LinkUpdate::SetByIsAbove { current: uuid, is_above: None },
        LinkUpdate::Delete { uuid },
        LinkUpdate::SetByIsAbove { current: uuid, is_above },
    ];
    assert(plan@ =~= delete_changes(uuid, is_above));
    plan
}

/// The changes that move the row `uuid` directly above `new_is_above`; `is_above` is
/// the row below it and `old_above` the row found naming it.
pub fn move_plan(uuid: u128, is_above: Option<u128>, old_above: Option<u128>, new_is_above: u128) -> (plan:
    Vec<LinkUpdate>)
    ensures
        plan@ == move_changes(uuid, is_above, old_above, new_is_above),
{
    let mut plan: Vec<LinkUpdate> = Vec::new();
    if let Some(a) = old_above {
        plan.push(LinkUpdate::SetByUuid { uuid: a, is_above: None });
    }
    plan.push(LinkUpdate::SetByIsAbove { current: new_is_above, is_above: Some(uuid) });
    plan.push(LinkUpdate::SetByUuid { uuid, is_above: Some(new_is_above) });
    if let Some(a) = old_above {
        plan.push(LinkUpdate::SetByUuid { uuid: a, is_above });
    }
    assert(plan@ =~= move_changes(uuid, is_above, old_above, new_is_above));
    plan
}


proof fn lemma_apply_two(t: Map<u128, Option<u128>>, a: LinkUpdate, b: LinkUpdate)
    ensures
        apply_updates(t, seq![a, b]) == apply_update(apply_update(t, a), b),
{
    reveal_with_fuel(apply_updates, 3);
    assert(seq![a, b].drop_first() =~= seq![b]);
    assert(seq![b].drop_first() =~= Seq::<LinkUpdate>::empty());
}

proof fn lemma_apply_one(t: Map<u128, Option<u128>>, a: LinkUpdate)
    ensures
        apply_updates(t, seq![a]) == apply_update(t, a),
{
    reveal_with_fuel(apply_updates, 2);
    assert(seq![a].drop_first() =~= Seq::<LinkUpdate>::empty());
}

/// Law: adding a new row below the last row of a well-linked list gives the same
/// list with the new row at its bottom.
pub proof fn lemma_append_keeps_order(t: Map<u128, Option<u128>>, order: Seq<u128>, new_uuid: u128)
    requires
        represents(t, order),
        !order.contains(new_uuid),
    ensures
        represents(apply_updates(t, append_changes(new_uuid, last_in(order))), order.push(new_uuid)),
{
    let o2 = order.push(new_uuid);
    let n = order.len();
    let t1 = t.insert(new_uuid, None);
    if n == 0 {
        lemma_apply_one(t, LinkUpdate::Insert { uuid: new_uuid });
        assert(t1.dom() =~= o2.to_set());
        assert(t1[o2[0]] == below_in(o2, 0));
    } else {
        let l = order.last();
        lemma_apply_two(t, LinkUpdate::Insert { uuid: new_uuid }, LinkUpdate::SetByUuid { uuid: l, is_above: Some(new_uuid) });
        assert(order.to_set().contains(order[n - 1]));
        let t2 = t1.insert(l, Some(new_uuid));
        assert(t2.dom() =~= o2.to_set()) by {
            assert forall|x: u128| t2.dom().contains(x) <==> o2.to_set().contains(x) by {
                if o2.contains(x) {
                    let k = choose|k: int| 0 <= k < o2.len() && o2[k] == x;
                    if k < n {
                        assert(order[k] == x);
                        assert(order.to_set().contains(x));
                    }
                }
                if order.to_set().contains(x) {
                    let k = choose|k: int| 0 <= k < order.len() && order[k] == x;
                    assert(o2[k] == x);
                }
            }
        }
        assert forall|k: int| 0 <= k < o2.len() implies t2[#[trigger] o2[k]] == below_in(o2, k) by {
            if k < n - 1 {
                assert(order[k] != l);
                assert(order[k] != new_uuid);
                assert(t[order[k]] == below_in(order, k));
            } else if k == n - 1 {
            } else {
                assert(new_uuid != l);
            }
        }
        assert(o2.no_duplicates()) by {
            assert forall|i: int, j: int| 0 <= i < o2.len() && 0 <= j < o2.len() && i != j implies o2[i] != o2[j] by {
                if i < n && j < n {
                } else if i == n {
                    assert(order.contains(o2[j]) || j == n);
                } else {
                    assert(order.contains(o2[i]) || i == n);
                }
            }
        }
    }
}


proof fn lemma_apply_three(t: Map<u128, Option<u128>>, a: LinkUpdate, b: LinkUpdate, c: LinkUpdate)
    ensures
        apply_updates(t, seq![a, b, c]) == apply_update(apply_update(apply_update(t, a), b), c),
{
    reveal_with_fuel(apply_updates, 4);
    assert(seq![a, b, c].drop_first() =~= seq![b, c]);
    assert(seq![b, c].drop_first() =~= seq![c]);
    assert(seq![c].drop_first() =~= Seq::<LinkUpdate>::empty());
}

proof fn lemma_apply_four(t: Map<u128, Option<u128>>, a: LinkUpdate, b: LinkUpdate, c: LinkUpdate, d: LinkUpdate)
    ensures
        apply_updates(t, seq![a, b, c, d]) == apply_update(apply_update(apply_update(apply_update(t, a), b), c), d),
{
    reveal_with_fuel(apply_updates, 5);
    assert(seq![a, b, c, d].drop_first() =~= seq![b, c, d]);
    assert(seq![b, c, d].drop_first() =~= seq![c, d]);
    assert(seq![c, d].drop_first() =~= seq![d]);
    assert(seq![d].drop_first() =~= Seq::<LinkUpdate>::empty());
}

/// Law: deleting the first or the last row of a well-linked list leaves the rest of
/// the list well linked, in the same order.  (A row in the middle is not covered:
/// its neighbour above is left naming nothing, which splits the list.)
pub proof fn lemma_delete_end_keeps_order(t: Map<u128, Option<u128>>, order: Seq<u128>, si: int)
    requires
        represents(t, order),
        0 <= si < order.len(),
        si == 0 || si == order.len() - 1,
    ensures
        represents(
            apply_updates(t, delete_changes(order[si], below_in(order, si))),
            order.remove(si),
        ),
{
    let n = order.len();
    let s = order[si];
    let below = below_in(order, si);
    let a = LinkUpdate::SetByIsAbove { current: s, is_above: None };
    let b = LinkUpdate::Delete { uuid: s };
    let c = LinkUpdate::SetByIsAbove { current: s, is_above: below };
    lemma_apply_three(t, a, b, c);
    let t1 = apply_update(t, a);
    let t2 = apply_update(t1, b);
    let t3 = apply_update(t2, c);
    let o2 = order.remove(si);
    assert(forall|x: u128| t.dom().contains(x) <==> order.contains(x));
    // no row of t2 names s any more
    assert forall|x: u128| t2.dom().contains(x) implies t2[x] != Some(s) by {
        let k = choose|k: int| 0 <= k < n && order[k] == x;
        if t[x] == Some(s) {
            assert(t[order[k]] == below_in(order, k));
            assert(order[k + 1] == s);
            assert(k + 1 == si);
        }
    }
    assert(t3 =~= t2);
    assert(t3.dom() =~= o2.to_set()) by {
        assert forall|x: u128| t3.dom().contains(x) <==> o2.contains(x) by {
            if o2.contains(x) {
                let k = choose|k: int| 0 <= k < o2.len() && o2[k] == x;
                if k < si {
                    assert(order[k] == x);
                } else {
                    assert(order[k + 1] == x);
                }
            }
            if t3.dom().contains(x) {
                let k = choose|k: int| 0 <= k < n && order[k] == x;
                assert(k != si);
                if k < si {
                    assert(o2[k] == x);
                } else {
                    assert(o2[k - 1] == x);
                }
            }
        }
    }
    assert forall|k: int| 0 <= k < o2.len() implies t3[#[trigger] o2[k]] == below_in(o2, k) by {
        if k < si {
            assert(o2[k] == order[k]);
            assert(t[order[k]] == below_in(order, k));
            if k + 1 == si {
                assert(t1[order[k]] == None::<u128>);
            }
        } else {
            assert(o2[k] == order[k + 1]);
            assert(t[order[k + 1]] == below_in(order, k + 1));
        }
    }
}

/// The position in `order` of the uuid at position `k` of `moved_order(order, si, ni)`.
spec fn moved_source(si: int, ni: int, k: int) -> int {
    if si < ni {
        if k < si {
            k
        } else if k < ni - 1 {
            k + 1
        } else if k == ni - 1 {
            si
        } else {
            k
        }
    } else {
        if k < ni {
            k
        } else if k == ni {
            si
        } else if k <= si {
            k - 1
        } else {
            k
        }
    }
}

/// The position in `moved_order(order, si, ni)` of the uuid at position `j` of `order`.
spec fn moved_target(si: int, ni: int, j: int) -> int {
    if si < ni {
        if j < si {
            j
        } else if j == si {
            ni - 1
        } else if j < ni {
            j - 1
        } else {
            j
        }
    } else {
        if j < ni {
            j
        } else if j == si {
            ni
        } else if j < si {
            j + 1
        } else {
            j
        }
    }
}

proof fn lemma_moved_order_index(order: Seq<u128>, si: int, ni: int)
    requires
        0 <= si < order.len(),
        0 <= ni < order.len(),
        si != ni,
    ensures
        moved_order(order, si, ni).len() == order.len(),
        forall|k: int| 0 <= k < order.len() ==> 0 <= #[trigger] moved_source(si, ni, k) < order.len(),
        forall|k: int| 0 <= k < order.len() ==> #[trigger] moved_order(order, si, ni)[k] == order[moved_source(si, ni, k)],
        forall|k1: int, k2: int|
            0 <= k1 < order.len() && 0 <= k2 < order.len() && k1 != k2 ==> #[trigger] moved_source(si, ni, k1) != #[trigger] moved_source(si, ni, k2),
        forall|j: int| 0 <= j < order.len() ==> 0 <= #[trigger] moved_target(si, ni, j) < order.len() && moved_source(si, ni, moved_target(si, ni, j)) == j,
{
    let m = moved_order(order, si, ni);
    assert forall|k: int| 0 <= k < order.len() implies #[trigger] m[k] == order[moved_source(si, ni, k)] by {
        if si < ni {
            let a = order.subrange(0, si);
            let b = order.subrange(si + 1, ni);
            let c = order.subrange(ni, order.len() as int);
            assert(m == a + b + seq![order[si]] + c);
        } else {
            let a = order.subrange(0, ni);
            let b = order.subrange(ni, si);
            let c = order.subrange(si + 1, order.len() as int);
            assert(m == a + seq![order[si]] + b + c);
        }
    }
}

/// The link the row at position `j` of `order` has once the row at `si` has been
/// moved directly above the row at `ni`.
spec fn moved_value(order: Seq<u128>, si: int, ni: int, j: int) -> Option<u128> {
    if j == si {
        Some(order[ni])
    } else if j == si - 1 {
        below_in(order, si)
    } else if j == ni - 1 {
        Some(order[si])
    } else {
        below_in(order, j)
    }
}

proof fn lemma_move_values_with_above(t: Map<u128, Option<u128>>, order: Seq<u128>, si: int, ni: int)
    requires
        represents(t, order),
        0 < si < order.len(),
        0 <= ni < order.len(),
        si != ni,
        ni != si + 1,
    ensures
        ({
            let tf = apply_updates(t, move_changes(order[si], below_in(order, si), above_in(order, si), order[ni]));
            &&& tf.dom() =~= t.dom()
            &&& forall|j: int| 0 <= j < order.len() ==> tf[#[trigger] order[j]] == moved_value(order, si, ni, j)
        }),
{
    let s = order[si];
    let nn = order[ni];
    let below = below_in(order, si);
    let p = order[si - 1];
    let a = LinkUpdate::SetByUuid { uuid: p, is_above: None };
    let b = LinkUpdate::SetByIsAbove { current: nn, is_above: Some(s) };
    let c = LinkUpdate::SetByUuid { uuid: s, is_above: Some(nn) };
    let d = LinkUpdate::SetByUuid { uuid: p, is_above: below };
    assert(move_changes(s, below, above_in(order, si), nn) == seq![a, b, c, d]);
    lemma_apply_four(t, a, b, c, d);
    assert(forall|x: u128| t.dom().contains(x) <==> order.contains(x));
    assert(t.dom().contains(p));
    assert(t.dom().contains(s));
    let t1 = apply_update(t, a);
    let t2 = apply_update(t1, b);
    let t3 = apply_update(t2, c);
    let t4 = apply_update(t3, d);
    assert(t4.dom() =~= t.dom());
    assert forall|j: int| 0 <= j < order.len() implies t4[#[trigger] order[j]] == moved_value(order, si, ni, j) by {
        assert(t[order[j]] == below_in(order, j));
        assert(t.dom().contains(order[j]));
        if j != si - 1 && t[order[j]] == Some(nn) {
            assert(order[j + 1] == nn);
        }
        if j == ni - 1 {
            assert(t[order[j]] == Some(nn));
        }
    }
}

proof fn lemma_move_values_at_top(t: Map<u128, Option<u128>>, order: Seq<u128>, ni: int)
    requires
        represents(t, order),
        0 < order.len(),
        0 < ni < order.len(),
        ni != 1,
    ensures
        ({
            let tf = apply_updates(t, move_changes(order[0], below_in(order, 0), above_in(order, 0), order[ni]));
            &&& tf.dom() =~= t.dom()
            &&& forall|j: int| 0 <= j < order.len() ==> tf[#[trigger] order[j]] == moved_value(order, 0, ni, j)
        }),
{
    let s = order[0];
    let nn = order[ni];
    let below = below_in(order, 0);
    let b = LinkUpdate::SetByIsAbove { current: nn, is_above: Some(s) };
    let c = LinkUpdate::SetByUuid { uuid: s, is_above: Some(nn) };
    assert(move_changes(s, below, above_in(order, 0), nn) =~= seq![b, c]);
    lemma_apply_two(t, b, c);
    assert(forall|x: u128| t.dom().contains(x) <==> order.contains(x));
    assert(t.dom().contains(s));
    let t2 = apply_update(t, b);
    let t3 = apply_update(t2, c);
    assert(t3.dom() =~= t.dom());
    assert forall|j: int| 0 <= j < order.len() implies t3[#[trigger] order[j]] == moved_value(order, 0, ni, j) by {
        assert(t[order[j]] == below_in(order, j));
        assert(t.dom().contains(order[j]));
        if t[order[j]] == Some(nn) {
            assert(order[j + 1] == nn);
        }
        if j == ni - 1 {
            assert(t[order[j]] == Some(nn));
        }
    }
}

proof fn lemma_moved_order_set(order: Seq<u128>, si: int, ni: int)
    requires
        order.no_duplicates(),
        0 <= si < order.len(),
        0 <= ni < order.len(),
        si != ni,
    ensures
        moved_order(order, si, ni).no_duplicates(),
        moved_order(order, si, ni).to_set() =~= order.to_set(),
{
    let n = order.len();
    let o2 = moved_order(order, si, ni);
    lemma_moved_order_index(order, si, ni);
    assert forall|i: int, j: int| 0 <= i < o2.len() && 0 <= j < o2.len() && i != j implies o2[i] != o2[j] by {
        assert(moved_source(si, ni, i) != moved_source(si, ni, j));
        assert(o2[i] == order[moved_source(si, ni, i)]);
        assert(o2[j] == order[moved_source(si, ni, j)]);
    }
    assert forall|x: u128| o2.contains(x) <==> order.contains(x) by {
        if o2.contains(x) {
            let k = choose|k: int| 0 <= k < o2.len() && o2[k] == x;
            assert(order[moved_source(si, ni, k)] == x);
        }
        if order.contains(x) {
            let j = choose|j: int| 0 <= j < n && order[j] == x;
            let k = moved_target(si, ni, j);
            assert(o2[k] == x);
        }
    }
}

/// Law: moving a row of a well-linked list directly above another row of it keeps
/// the list well linked, now in the moved order.  Not covered, because the list is
/// then broken: moving a row above itself, or above the row already directly
/// below it.
pub proof fn lemma_move_keeps_order(t: Map<u128, Option<u128>>, order: Seq<u128>, si: int, ni: int)
    requires
        represents(t, order),
        0 <= si < order.len(),
        0 <= ni < order.len(),
        si != ni,
        ni != si + 1,
    ensures
        represents(
            apply_updates(t, move_changes(order[si], below_in(order, si), above_in(order, si), order[ni])),
            moved_order(order, si, ni),
        ),
{
    let n = order.len();
    let o2 = moved_order(order, si, ni);
    let tf = apply_updates(t, move_changes(order[si], below_in(order, si), above_in(order, si), order[ni]));
    lemma_moved_order_index(order, si, ni);
    lemma_moved_order_set(order, si, ni);
    if si > 0 {
        lemma_move_values_with_above(t, order, si, ni);
    } else {
        lemma_move_values_at_top(t, order, ni);
    }
    assert forall|k: int| 0 <= k < o2.len() implies tf[#[trigger] o2[k]] == below_in(o2, k) by {
        let j = moved_source(si, ni, k);
        assert(o2[k] == order[j]);
        assert(tf[order[j]] == moved_value(order, si, ni, j));
        if k + 1 < n {
            assert(o2[k + 1] == order[moved_source(si, ni, k + 1)]);
        }
    }
}

} // verus!
