//! The inventory as it is listed: what an entity has in its bag, in the
//! order the player chose, and where the selection stands in that list.

use vstd::prelude::*;
use std::cmp::Ordering;
use itertools::Itertools;
use vstd::utf8::encode_utf8;
use crate::components::Entity;
use crate::components::SelectedInventoryItem;
use crate::components::Name;
use crate::items::ItemID;
use crate::sorting::lemma_status_is_settled;
use crate::store::Components;
use crate::store::Store;
use crate::text::owned;

verus! {

/// The order in which the inventory is listed.
#[derive(Clone, Copy, Debug, PartialEq, Eq, Structural)]
pub enum SortMode {
    /// By name, in the order of the bytes of the names.
    NameABC,
    /// By the number of the item's identifier, lowest first.
    IDAsc,
}

impl SortMode {
    /// The name of the mode as it is shown.
    pub open spec fn label(self) -> Seq<char> {
        match self {
            SortMode::NameABC => "NameABC"@,
            SortMode::IDAsc => "IDAsc"@,
        }
    }

    pub fn to_string(&self) -> (r: String)
        ensures
            r@ == self.label(),
    {
        match self {
            SortMode::NameABC => owned("NameABC"),
            SortMode::IDAsc => owned("IDAsc"),
        }
    }
}

/// How the inventory is shown.
#[derive(Clone, Copy, Debug, PartialEq, Eq, Structural)]
pub struct InventoryConfig {
    pub sort_mode: SortMode,
}

/// What the player means to do with the selected item.
#[derive(Clone, Copy, Debug, PartialEq, Eq, Structural)]
pub enum UseMenuResult {
    Drop,
    Craft,
    Equip,
    Cancel,
    Consume,
    Examine,
}

impl UseMenuResult {
    /// The name of the action as it is shown.
    pub open spec fn label(self) -> Seq<char> {
        match self {
            UseMenuResult::Drop => "Drop"@,
            UseMenuResult::Craft => "Craft"@,
            UseMenuResult::Equip => "Equip"@,
            UseMenuResult::Cancel => "Cancel"@,
            UseMenuResult::Consume => "Consume"@,
            UseMenuResult::Examine => "Examine"@,
        }
    }

    pub fn to_string(&self) -> (r: String)
        ensures
            r@ == self.label(),
    {
        match self {
            UseMenuResult::Drop => owned("Drop"),
            UseMenuResult::Craft => owned("Craft"),
            UseMenuResult::Equip => owned("Equip"),
            UseMenuResult::Cancel => owned("Cancel"),
            UseMenuResult::Consume => owned("Consume"),
            UseMenuResult::Examine => owned("Examine"),
        }
    }
}

/// One item in somebody's bag.
#[derive(Debug)]
pub struct InventoryEntry {
    pub entity: Entity,
    pub item_id: ItemID,
    pub owner: Entity,
    pub name: Name,
}

/// The entry that the entity in slot `i` makes, if it is an item in a bag
/// and has a name.
pub open spec fn entry_of(slot: Option<Components>, i: int) -> Option<InventoryEntry> {
    match slot {
        Some(c) => if c.item.is_some() && c.in_bag.is_some() && c.name.is_some() {
            Some(
                InventoryEntry {
                    entity: Entity { index: i as usize },
                    item_id: c.item.unwrap().id,
                    owner: c.in_bag.unwrap().owner,
                    name: c.name.unwrap(),
                },
            )
        } else {
            None
        },
        None => None,
    }
}

/// The entries that the first `n` slots make, in the order of the slots.
pub open spec fn entries_of(slots: Seq<Option<Components>>, n: int) -> Seq<InventoryEntry>
    decreases n,
{
    if n <= 0 {
        Seq::empty()
    } else {
        match entry_of(slots[n - 1], n - 1) {
            Some(entry) => entries_of(slots, n - 1).push(entry),
            None => entries_of(slots, n - 1),
        }
    }
}

/// All items that are in somebody's bag, in the order of their slots.
pub fn inventory_entries(store: &Store) -> (r: Vec<InventoryEntry>)
    ensures
        r@ == entries_of(store@, store@.len() as int),
{
    let mut entries: Vec<InventoryEntry> = Vec::new();
    let mut i: usize = 0;
    while i < store.slots.len()
        invariant
            i <= store@.len(),
            entries@ == entries_of(store@, i as int),
        decreases store@.len() - i,
    {
        match &store.slots[i] {
            Some(c) => {
                match (&c.item, &c.in_bag, &c.name) {
                    (Some(item), Some(in_bag), Some(name)) => {
                        entries.push(
                            InventoryEntry {
                                entity: Entity { index: i },
                                item_id: item.id,
                                owner: in_bag.owner,
                                name: Name(name.0.clone()),
                            },
                        );
                    },
                    _ => {},
                }
            },
            None => {},
        }
        i = i + 1;
    }
    entries
}

/// How one thing stands to another in an order.
#[derive(Clone, Copy, Debug, PartialEq, Eq, Structural)]
pub enum Rank {
    Before,
    Same,
    After,
}

/// How two numbers stand to each other.
pub open spec fn number_rank(a: int, b: int) -> Rank {
    if a < b {
        Rank::Before
    } else if a > b {
        Rank::After
    } else {
        Rank::Same
    }
}

/// How two runs of bytes stand to each other in the order of the
/// dictionary: the first byte in which they differ decides, and a run
/// comes before every longer run that begins with it.
pub open spec fn bytes_rank(a: Seq<u8>, b: Seq<u8>) -> Rank
    decreases a.len(),
{
    if a.len() == 0 {
        if b.len() == 0 {
            Rank::Same
        } else {
            Rank::Before
        }
    } else if b.len() == 0 {
        Rank::After
    } else if a[0] < b[0] {
        Rank::Before
    } else if a[0] > b[0] {
        Rank::After
    } else {
        bytes_rank(a.drop_first(), b.drop_first())
    }
}

/// The first rank, unless it says that the two are the same; then the
/// second.
pub open spec fn or_else(first: Rank, second: Rank) -> Rank {
    if first == Rank::Same {
        second
    } else {
        first
    }
}

/// How two entries stand to each other in a listing: by name or by
/// identifier, as the mode says, and among equals by the slot of the
/// entity, lowest first.
pub open spec fn entry_rank(a: InventoryEntry, b: InventoryEntry, mode: SortMode) -> Rank {
    let main = match mode {
        SortMode::NameABC => bytes_rank(encode_utf8(a.name.0@), encode_utf8(b.name.0@)),
        SortMode::IDAsc => number_rank(a.item_id.0 as int, b.item_id.0 as int),
    };
    or_else(main, number_rank(a.entity.index as int, b.entity.index as int))
}

/// The rank that an ordering of the standard library stands for.
pub open spec fn rank_of(o: Ordering) -> Rank {
    match o {
        Ordering::Less => Rank::Before,
        Ordering::Equal => Rank::Same,
        Ordering::Greater => Rank::After,
    }
}

/// How two runs of bytes stand to each other, computed.
pub fn rank_bytes(a: &[u8], b: &[u8]) -> (r: Rank)
    ensures
        r == bytes_rank(a@, b@),
{
    let mut i: usize = 0;
    proof {
        assert(a@.skip(0) =~= a@);
        assert(b@.skip(0) =~= b@);
    }
    loop
        invariant
            i <= a@.len(),
            i <= b@.len(),
            bytes_rank(a@, b@) == bytes_rank(a@.skip(i as int), b@.skip(i as int)),
        decreases a@.len() - i,
    {
        proof {
            if i < a@.len() && i < b@.len() {
                assert(a@.skip(i as int).drop_first() =~= a@.skip(i + 1));
                assert(b@.skip(i as int).drop_first() =~= b@.skip(i + 1));
            }
        }
        if i >= a.len() {
            if i >= b.len() {
                return Rank::Same;
            } else {
                return Rank::Before;
            }
        } else if i >= b.len() {
            return Rank::After;
        } else if a[i] < b[i] {
            return Rank::Before;
        } else if a[i] > b[i] {
            return Rank::After;
        }
        i = i + 1;
    }
}

/// How two entries stand to each other in a listing, computed.
pub fn rank_entries(a: &InventoryEntry, b: &InventoryEntry, mode: SortMode) -> (r: Rank)
    ensures
        r == entry_rank(*a, *b, mode),
{
    let main: Rank = match mode {
        SortMode::NameABC => rank_bytes(a.name.0.as_str().as_bytes(), b.name.0.as_str().as_bytes()),
        SortMode::IDAsc => {
            if a.item_id.0 < b.item_id.0 {
                Rank::Before
            } else if a.item_id.0 > b.item_id.0 {
                Rank::After
            } else {
                Rank::Same
            }
        },
    };
    match main {
        Rank::Same => {
            if a.entity.index < b.entity.index {
                Rank::Before
            } else if a.entity.index > b.entity.index {
                Rank::After
            } else {
                Rank::Same
            }
        },
        _ => main,
    }
}

/// How two entries stand to each other in a listing, as an ordering of the
/// standard library.
pub fn entry_order(a: &InventoryEntry, b: &InventoryEntry, mode: SortMode) -> (r: Ordering)
    ensures
        rank_of(r) == entry_rank(*a, *b, mode),
{
    match rank_entries(a, b, mode) {
        Rank::Before => Ordering::Less,
        Rank::Same => Ordering::Equal,
        Rank::After => Ordering::Greater,
    }
}

/// Turning two runs of bytes round turns their rank round.
pub proof fn lemma_bytes_rank_flips(a: Seq<u8>, b: Seq<u8>)
    ensures
        bytes_rank(b, a) == match bytes_rank(a, b) {
            Rank::Before => Rank::After,
            Rank::Same => Rank::Same,
            Rank::After => Rank::Before,
        },
    decreases a.len(),
{
    if a.len() > 0 && b.len() > 0 && a[0] == b[0] {
        lemma_bytes_rank_flips(a.drop_first(), b.drop_first());
    }
}

/// Two runs of bytes rank the same exactly if they are the same run.
pub proof fn lemma_bytes_rank_same(a: Seq<u8>, b: Seq<u8>)
    ensures
        bytes_rank(a, b) == Rank::Same <==> a == b,
    decreases a.len(),
{
    if a.len() > 0 && b.len() > 0 && a[0] == b[0] {
        lemma_bytes_rank_same(a.drop_first(), b.drop_first());
        if a.drop_first() == b.drop_first() {
            assert(a =~= seq![a[0]] + a.drop_first());
            assert(b =~= seq![b[0]] + b.drop_first());
        }
    } else if a.len() == 0 && b.len() == 0 {
        assert(a =~= b);
    }
}

/// The order of the dictionary carries over: if `a` does not come after
/// `b`, nor `b` after `c`, then `a` does not come after `c`.
pub proof fn lemma_bytes_rank_carries(a: Seq<u8>, b: Seq<u8>, c: Seq<u8>)
    requires
        bytes_rank(a, b) != Rank::After,
        bytes_rank(b, c) != Rank::After,
    ensures
        bytes_rank(a, c) != Rank::After,
    decreases a.len(),
{
    if a.len() > 0 && b.len() > 0 && c.len() > 0 && a[0] == b[0] && b[0] == c[0] {
        lemma_bytes_rank_carries(a.drop_first(), b.drop_first(), c.drop_first());
    }
}

/// Turning two entries round turns their rank round: the order that the
/// listing is sorted by never says of two entries that each comes before
/// the other.
pub proof fn lemma_entry_rank_flips(a: InventoryEntry, b: InventoryEntry, mode: SortMode)
    ensures
        entry_rank(b, a, mode) == match entry_rank(a, b, mode) {
            Rank::Before => Rank::After,
            Rank::Same => Rank::Same,
            Rank::After => Rank::Before,
        },
{
    lemma_bytes_rank_flips(encode_utf8(a.name.0@), encode_utf8(b.name.0@));
}

/// The order that the listing is sorted by carries over: if `a` does not
/// come after `b`, nor `b` after `c`, then `a` does not come after `c`.
pub proof fn lemma_entry_rank_carries(
    a: InventoryEntry,
    b: InventoryEntry,
    c: InventoryEntry,
    mode: SortMode,
)
    requires
        entry_rank(a, b, mode) != Rank::After,
        entry_rank(b, c, mode) != Rank::After,
    ensures
        entry_rank(a, c, mode) != Rank::After,
{
    let x = encode_utf8(a.name.0@);
    let y = encode_utf8(b.name.0@);
    let z = encode_utf8(c.name.0@);
    match mode {
        SortMode::NameABC => {
            lemma_bytes_rank_carries(x, y, z);
            lemma_bytes_rank_same(x, z);
            lemma_bytes_rank_same(x, y);
            lemma_bytes_rank_same(y, z);
            lemma_bytes_rank_flips(x, y);
            lemma_bytes_rank_flips(y, z);
        },
        SortMode::IDAsc => {},
    }
}

/// Whether no entry of the listing comes after one that follows it.
pub open spec fn in_order(listing: Seq<InventoryEntry>, mode: SortMode) -> bool {
    forall|i: int, j: int|
        0 <= i < j < listing.len() ==> entry_rank(listing[i], listing[j], mode) != Rank::After
}

/// Whether `listing` holds the given entries, each as often as it was
/// given, in the order of the mode.
pub open spec fn lists_in_order(
    entries: Seq<InventoryEntry>,
    listing: Seq<InventoryEntry>,
    mode: SortMode,
) -> bool {
    listing.to_multiset() == entries.to_multiset() && in_order(listing, mode)
}

/// `Itertools::sorted_by`, which collects the entries, sorts them with the
/// slice's `sort_by` under the order given, and hands them back. The
/// contract claims, without proof, that what comes back holds the entries
/// that went in, each as often as it went in, and that none of them comes
/// after one that follows it. The order that is handed over is
/// `entry_order`; that it is an order in which the entries can be sorted
/// is what `lemma_entry_rank_flips` and `lemma_entry_rank_carries` show.
#[verifier::external_body]
fn sorted_entries(entries: Vec<InventoryEntry>, mode: SortMode) -> (r: Vec<InventoryEntry>)
    ensures
        lists_in_order(entries@, r@, mode),
{
    entries.into_iter().sorted_by(|a, b| entry_order(a, b, mode)).collect()
}

/// The entries that are in the bag of `owner`, of the first `n` given.
pub open spec fn owned_by(entries: Seq<InventoryEntry>, owner: Entity, n: int) -> Seq<InventoryEntry>
    decreases n,
{
    if n <= 0 {
        Seq::empty()
    } else if entries[n - 1].owner == owner {
        owned_by(entries, owner, n - 1).push(entries[n - 1])
    } else {
        owned_by(entries, owner, n - 1)
    }
}

/// Keeps the entries that are in the bag of `owner`, in the order given.
pub fn bag_of(entries: Vec<InventoryEntry>, owner: Entity) -> (r: Vec<InventoryEntry>)
    ensures
        r@ == owned_by(entries@, owner, entries@.len() as int),
{
    let ghost all = entries@;
    let mut kept: Vec<InventoryEntry> = Vec::new();
    for entry in it: entries
        invariant
            it.seq() == all,
            kept@ == owned_by(all, owner, it.index()),
    {
        if entry.owner.index == owner.index {
            kept.push(entry);
        }
    }
    kept
}

/// Where the selection stands in a listing.
#[derive(Clone, Copy, Debug, PartialEq, Eq, Structural)]
pub enum SelectionStatus {
    /// Nothing is selected.
    NoSelection,
    /// The selected item is no longer in the listing.
    Mismatch,
    /// The selected item stands at `index`, counted from zero.
    Selected { index: usize, action: Option<UseMenuResult> },
}

/// The place of the first entry of the first `n` that stands for entity
/// `e`.
pub open spec fn place_of(listing: Seq<InventoryEntry>, e: Entity, n: int) -> Option<int>
    decreases n,
{
    if n <= 0 {
        None
    } else {
        match place_of(listing, e, n - 1) {
            Some(i) => Some(i),
            None => if listing[n - 1].entity == e {
                Some(n - 1)
            } else {
                None
            },
        }
    }
}

/// What `place_of` finds: a place that holds the entity and before which
/// no place does; and nothing only where no place holds it.
pub proof fn lemma_place_of(listing: Seq<InventoryEntry>, e: Entity, n: int)
    requires
        0 <= n <= listing.len(),
    ensures
        match place_of(listing, e, n) {
            Some(i) => 0 <= i < n && listing[i].entity == e && forall|j: int|
                0 <= j < i ==> (#[trigger] listing[j]).entity != e,
            None => forall|j: int| 0 <= j < n ==> (#[trigger] listing[j]).entity != e,
        },
    decreases n,
{
    if n > 0 {
        lemma_place_of(listing, e, n - 1);
    }
}

proof fn lemma_place_stays(listing: Seq<InventoryEntry>, e: Entity, i: int, n: int)
    requires
        0 <= i < n <= listing.len(),
        place_of(listing, e, i + 1) == Some(i),
    ensures
        place_of(listing, e, n) == Some(i),
    decreases n,
{
    if n > i + 1 {
        lemma_place_stays(listing, e, i, n - 1);
    }
}

/// Where the selection stands in a listing: nowhere if nothing is
/// selected, at the first place that holds the selected item, and as a
/// mismatch where no place holds it.
pub open spec fn status_in(
    listing: Seq<InventoryEntry>,
    selection: Option<SelectedInventoryItem>,
) -> SelectionStatus {
    match selection {
        None => SelectionStatus::NoSelection,
        Some(s) => match place_of(listing, s.first_item, listing.len() as int) {
            Some(i) => SelectionStatus::Selected { index: i as usize, action: s.intended_action },
            None => SelectionStatus::Mismatch,
        },
    }
}

/// Where the selection stands in a listing.
pub fn status_of(listing: &Vec<InventoryEntry>, selection: Option<SelectedInventoryItem>) -> (r:
    SelectionStatus)
    ensures
        r == status_in(listing@, selection),
{
    match selection {
        None => SelectionStatus::NoSelection,
        Some(s) => {
            let mut i: usize = 0;
            while i < listing.len()
                invariant
                    i <= listing@.len(),
                    selection == Some(s),
                    place_of(listing@, s.first_item, i as int).is_none(),
                decreases listing@.len() - i,
            {
                if listing[i].entity.index == s.first_item.index {
                    proof {
                        lemma_place_stays(listing@, s.first_item, i as int, listing@.len() as int);
                    }
                    return SelectionStatus::Selected { index: i, action: s.intended_action };
                }
                i = i + 1;
            }
            SelectionStatus::Mismatch
        },
    }
}

/// The bag of `owner` as it is listed: the entries that are in it, in the
/// order of the mode.
pub fn listing_of(entries: Vec<InventoryEntry>, owner: Entity, mode: SortMode) -> (r: Vec<
    InventoryEntry,
>)
    ensures
        lists_in_order(owned_by(entries@, owner, entries@.len() as int), r@, mode),
{
    sorted_entries(bag_of(entries, owner), mode)
}

/// Where the player's selection stands in the player's bag as it is
/// listed. A selection that is no longer in the bag counts as a
/// mismatch. The status is the one that the selection has in every
/// listing of the bag in the order of the mode; where something is
/// selected, there is such a listing.
pub fn selection_status(
    entries: Vec<InventoryEntry>,
    owner: Entity,
    selection: Option<SelectedInventoryItem>,
    mode: SortMode,
) -> (r: SelectionStatus)
    ensures
        forall|listing: Seq<InventoryEntry>| #[trigger]
            lists_in_order(owned_by(entries@, owner, entries@.len() as int), listing, mode) ==> r
                == status_in(listing, selection),
        selection.is_some() ==> exists|listing: Seq<InventoryEntry>| #[trigger]
            lists_in_order(owned_by(entries@, owner, entries@.len() as int), listing, mode),
{
    match selection {
        None => SelectionStatus::NoSelection,
        Some(_) => {
            let ghost bag = owned_by(entries@, owner, entries@.len() as int);
            let listing = listing_of(entries, owner, mode);
            let r = status_of(&listing, selection);
            proof {
                assert(lists_in_order(bag, listing@, mode));
                assert forall|other: Seq<InventoryEntry>| #[trigger]
                    lists_in_order(bag, other, mode) implies r == status_in(other, selection) by {
                    lemma_status_is_settled(bag, listing@, other, mode, selection);
                }
            }
            r
        },
    }
}

impl SelectionStatus {
    /// The words for a status that needs no number: what is shown when
    /// nothing is selected, and when the selection is no longer there.
    pub open spec fn words(self) -> Seq<char> {
        match self {
            SelectionStatus::NoSelection => "No selection made"@,
            SelectionStatus::Mismatch => "Inventory selection index mismatch"@,
            SelectionStatus::Selected { index, action } => match action {
                Some(a) => a.label(),
                None => "none"@,
            },
        }
    }

    /// For a selection, the name of the action meant, or "none"; for the
    /// other two, the message that is shown in place of a selection.
    pub fn message(&self) -> (r: String)
        ensures
            r@ == self.words(),
    {
        match self {
            SelectionStatus::NoSelection => owned("No selection made"),
            SelectionStatus::Mismatch => owned("Inventory selection index mismatch"),
            SelectionStatus::Selected { index: _, action } => match action {
                Some(a) => a.to_string(),
                None => owned("none"),
            },
        }
    }
}

} // verus!
