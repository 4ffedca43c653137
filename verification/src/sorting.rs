//! What sorting settles. Two listings of the same entries in the order of
//! the same mode need not be equal, since entries that rank the same may
//! change places; but place by place they hold entries that rank the same,
//! and so the same entities.

use vstd::prelude::*;
use vstd::seq_lib::to_multiset_build;
use vstd::seq_lib::to_multiset_contains;
use vstd::seq_lib::to_multiset_len;
use vstd::seq_lib::to_multiset_remove;
use crate::components::Entity;
use crate::components::SelectedInventoryItem;
use crate::inventory::entry_rank;
use crate::inventory::in_order;
use crate::inventory::lemma_entry_rank_carries;
use crate::inventory::lemma_entry_rank_flips;
use crate::inventory::lists_in_order;
use crate::inventory::place_of;
use crate::inventory::status_in;
use crate::inventory::InventoryEntry;
use crate::inventory::Rank;
use crate::inventory::SortMode;

verus! {

/// How many of the entries meet the condition.
pub open spec fn tally(l: Seq<InventoryEntry>, p: spec_fn(InventoryEntry) -> bool) -> nat
    decreases l.len(),
{
    if l.len() == 0 {
        0
    } else {
        tally(l.drop_last(), p) + if p(l.last()) {
            1nat
        } else {
            0nat
        }
    }
}

proof fn lemma_tally_without(l: Seq<InventoryEntry>, p: spec_fn(InventoryEntry) -> bool, j: int)
    requires
        0 <= j < l.len(),
    ensures
        tally(l, p) == tally(l.remove(j), p) + if p(l[j]) {
            1nat
        } else {
            0nat
        },
    decreases l.len(),
{
    if j == l.len() - 1 {
        assert(l.remove(j) =~= l.drop_last());
    } else {
        lemma_tally_without(l.drop_last(), p, j);
        assert(l.drop_last().remove(j) =~= l.remove(j).drop_last());
        assert(l.remove(j).last() == l.last());
    }
}

proof fn lemma_tally_of_same_entries(
    a: Seq<InventoryEntry>,
    b: Seq<InventoryEntry>,
    p: spec_fn(InventoryEntry) -> bool,
)
    requires
        a.to_multiset() == b.to_multiset(),
    ensures
        tally(a, p) == tally(b, p),
    decreases a.len(),
{
    to_multiset_len(a);
    to_multiset_len(b);
    if a.len() > 0 {
        let x = a.last();
        assert(a =~= a.drop_last().push(x));
        to_multiset_build(a.drop_last(), x);
        to_multiset_contains(a, x);
        to_multiset_contains(b, x);
        assert(a.contains(x)) by {
            assert(a[a.len() - 1] == x);
        }
        let j = choose|j: int| 0 <= j < b.len() && b[j] == x;
        to_multiset_remove(b, j);
        assert(b.remove(j).to_multiset() =~= a.drop_last().to_multiset());
        lemma_tally_of_same_entries(a.drop_last(), b.remove(j), p);
        lemma_tally_without(b, p, j);
    }
}

proof fn lemma_tally_grows(
    l: Seq<InventoryEntry>,
    p: spec_fn(InventoryEntry) -> bool,
    q: spec_fn(InventoryEntry) -> bool,
)
    requires
        forall|y: InventoryEntry| #[trigger] p(y) ==> q(y),
    ensures
        tally(l, p) <= tally(l, q),
    decreases l.len(),
{
    if l.len() > 0 {
        lemma_tally_grows(l.drop_last(), p, q);
    }
}

proof fn lemma_tally_at_most(l: Seq<InventoryEntry>, p: spec_fn(InventoryEntry) -> bool, k: int)
    requires
        0 <= k,
        forall|i: int| k <= i < l.len() ==> !p(#[trigger] l[i]),
    ensures
        tally(l, p) <= k,
        tally(l, p) <= l.len(),
    decreases l.len(),
{
    if l.len() > 0 {
        let rest = l.drop_last();
        assert forall|i: int| k <= i < rest.len() implies !p(#[trigger] rest[i]) by {
            assert(rest[i] == l[i]);
        }
        lemma_tally_at_most(rest, p, k);
        if l.len() > k {
            assert(!p(l[l.len() - 1]));
        }
    }
}

proof fn lemma_tally_at_least(l: Seq<InventoryEntry>, p: spec_fn(InventoryEntry) -> bool, m: int)
    requires
        0 <= m <= l.len(),
        forall|i: int| 0 <= i < m ==> p(#[trigger] l[i]),
    ensures
        tally(l, p) >= m,
    decreases l.len(),
{
    if l.len() > 0 && m > 0 {
        let rest = l.drop_last();
        if l.len() == m {
            assert forall|i: int| 0 <= i < m - 1 implies p(#[trigger] rest[i]) by {
                assert(rest[i] == l[i]);
            }
            lemma_tally_at_least(rest, p, m - 1);
            assert(p(l[l.len() - 1]));
        } else {
            assert forall|i: int| 0 <= i < m implies p(#[trigger] rest[i]) by {
                assert(rest[i] == l[i]);
            }
            lemma_tally_at_least(rest, p, m);
        }
    }
}

/// In two listings of the same entries in the order of the same mode, the
/// entry at a place of the one does not come before the entry at the same
/// place of the other.
proof fn lemma_not_before(
    first: Seq<InventoryEntry>,
    second: Seq<InventoryEntry>,
    mode: SortMode,
    k: int,
)
    requires
        first.to_multiset() == second.to_multiset(),
        in_order(first, mode),
        in_order(second, mode),
        0 <= k < first.len(),
        first.len() == second.len(),
    ensures
        entry_rank(first[k], second[k], mode) != Rank::Before,
{
    let a = first[k];
    let b = second[k];
    if entry_rank(a, b, mode) == Rank::Before {
        let p = |y: InventoryEntry| entry_rank(y, a, mode) != Rank::After;
        let q = |y: InventoryEntry| entry_rank(y, b, mode) == Rank::Before;
        assert forall|i: int| 0 <= i < k + 1 implies p(#[trigger] first[i]) by {
            if i == k {
                lemma_entry_rank_flips(a, a, mode);
            }
        }
        lemma_tally_at_least(first, p, k + 1);
        lemma_tally_of_same_entries(first, second, p);
        assert forall|y: InventoryEntry| #[trigger] p(y) implies q(y) by {
            lemma_entry_rank_carries(y, a, b, mode);
            if entry_rank(y, b, mode) == Rank::Same {
                lemma_entry_rank_flips(y, b, mode);
                lemma_entry_rank_carries(b, y, a, mode);
                lemma_entry_rank_flips(b, a, mode);
            }
        }
        lemma_tally_grows(second, p, q);
        assert forall|i: int| k <= i < second.len() implies !q(#[trigger] second[i]) by {
            if i == k {
                lemma_entry_rank_flips(b, b, mode);
            } else {
                lemma_entry_rank_flips(second[k], second[i], mode);
            }
        }
        lemma_tally_at_most(second, q, k);
    }
}

/// Two listings of the same entries in the order of the same mode hold, at
/// every place, entries that rank the same; these stand for the same
/// entity.
pub proof fn lemma_listings_agree(
    entries: Seq<InventoryEntry>,
    first: Seq<InventoryEntry>,
    second: Seq<InventoryEntry>,
    mode: SortMode,
)
    requires
        lists_in_order(entries, first, mode),
        lists_in_order(entries, second, mode),
    ensures
        first.len() == second.len(),
        forall|k: int|
            0 <= k < first.len() ==> entry_rank(#[trigger] first[k], second[k], mode)
                == Rank::Same,
        forall|k: int| 0 <= k < first.len() ==> (#[trigger] first[k]).entity == second[k].entity,
{
    to_multiset_len(first);
    to_multiset_len(second);
    assert forall|k: int| 0 <= k < first.len() implies entry_rank(
        #[trigger] first[k],
        second[k],
        mode,
    ) == Rank::Same by {
        lemma_not_before(first, second, mode, k);
        lemma_not_before(second, first, mode, k);
        lemma_entry_rank_flips(first[k], second[k], mode);
    }
    assert forall|k: int| 0 <= k < first.len() implies (#[trigger] first[k]).entity
        == second[k].entity by {
        assert(entry_rank(first[k], second[k], mode) == Rank::Same);
    }
}

proof fn lemma_same_places(
    first: Seq<InventoryEntry>,
    second: Seq<InventoryEntry>,
    e: Entity,
    n: int,
)
    requires
        0 <= n <= first.len(),
        first.len() == second.len(),
        forall|k: int| 0 <= k < first.len() ==> (#[trigger] first[k]).entity == second[k].entity,
    ensures
        place_of(first, e, n) == place_of(second, e, n),
    decreases n,
{
    if n > 0 {
        lemma_same_places(first, second, e, n - 1);
        assert(first[n - 1].entity == second[n - 1].entity);
    }
}

/// Sorting settles where the selection stands: whichever listing of the
/// entries in the order of the mode is taken, the status of the selection
/// in it is the same.
pub proof fn lemma_status_is_settled(
    entries: Seq<InventoryEntry>,
    first: Seq<InventoryEntry>,
    second: Seq<InventoryEntry>,
    mode: SortMode,
    selection: Option<SelectedInventoryItem>,
)
    requires
        lists_in_order(entries, first, mode),
        lists_in_order(entries, second, mode),
    ensures
        status_in(first, selection) == status_in(second, selection),
{
    lemma_listings_agree(entries, first, second, mode);
    match selection {
        Some(s) => {
            lemma_same_places(first, second, s.first_item, first.len() as int);
        },
        None => {},
    }
}

} // verus!
