//! The item definitions.

use vstd::prelude::*;
use crate::items::AttackBonus;
use crate::items::Consumable;
use crate::items::Equipable;
use crate::items::ItemID;
use crate::items::ItemInfo;
use crate::items::effect_named;
use crate::items::equipable_tool;
use crate::lookup::first_index;
use crate::lookup::lemma_first_index_stays;
use crate::components::Entity;
use crate::components::Item;
use crate::components::Name;
use crate::components::Position;
use crate::components::Renderable;
use crate::store::Components;
use crate::store::Store;
use crate::text::str_eq;
use crate::z_order::ITEM_Z;

verus! {

/// The item definitions, in the order in which they were given.
#[derive(Debug)]
pub struct ItemDatabase {
    data: Vec<ItemInfo>,
}

/// The item definitions as the data file holds them.
#[derive(Debug)]
pub struct RawItemDatabase {
    pub data: Vec<RawItemInfo>,
}

/// One item as the data file describes it.
#[derive(Debug)]
pub struct RawItemInfo {
    /// Unique id to find the item's static data
    pub identifier: ItemID,
    pub name: String,
    pub examine_text: String,
    pub atlas_index: u8,
    pub fg: (u8, u8, u8),
    pub pickup_text: Option<String>,
    pub equipable: Option<String>,
    pub attack_bonus: Option<usize>,
    pub consumable: Option<RawConsumable>,
}

/// What consuming an item does, as the data file describes it.
#[derive(Clone, Debug)]
pub struct RawConsumable {
    pub effect: String,
    pub amount: Option<usize>,
}

impl RawItemInfo {
    /// A definition is complete if its consumable, where it has one, says
    /// how much it does.
    pub open spec fn complete(&self) -> bool {
        self.consumable.is_some() ==> self.consumable.unwrap().amount.is_some()
    }

    /// Whether the definition is complete.
    pub fn is_complete(&self) -> (r: bool)
        ensures
            r == self.complete(),
    {
        match &self.consumable {
            Some(rc) => rc.amount.is_some(),
            None => true,
        }
    }
}

/// The item that a complete raw definition describes.
pub open spec fn described(raw: RawItemInfo, info: ItemInfo) -> bool {
    &&& info.identifier == raw.identifier
    &&& info.name == raw.name
    &&& info.examine_text == raw.examine_text
    &&& info.atlas_index == raw.atlas_index
    &&& info.fg == raw.fg
    &&& info.pickup_text == raw.pickup_text
    &&& info.equipable == match raw.equipable {
        Some(e) => Some(Equipable { tool: equipable_tool(e@) }),
        None => None,
    }
    &&& info.attack_bonus == match raw.attack_bonus {
        Some(bonus) => Some(AttackBonus(bonus as i32)),
        None => None,
    }
    &&& info.consumable == match raw.consumable {
        Some(rc) => Some(
            Consumable { effect: effect_named(rc.effect@), amount: rc.amount.unwrap() },
        ),
        None => None,
    }
}

impl ItemInfo {
    /// The item that a complete raw definition describes. Names of tools and
    /// effects are resolved; an attack bonus is kept in its lower 32 bits.
    pub fn from_raw(value: &RawItemInfo) -> (r: Self)
        requires
            value.complete(),
        ensures
            described(*value, r),
    {
        let pickup_text: Option<String> = match &value.pickup_text {
            Some(text) => Some(text.clone()),
            None => None,
        };
        let equipable: Option<Equipable> = match &value.equipable {
            Some(e) => Some(Equipable::from_str(e.as_str())),
            None => None,
        };
        let attack_bonus: Option<AttackBonus> = match value.attack_bonus {
            Some(bonus) => Some(AttackBonus(#[verifier::truncate] (bonus as i32))),
            None => None,
        };
        let consumable: Option<Consumable> = match &value.consumable {
            Some(rc) => match rc.amount {
                Some(amount) => Some(Consumable::from_str(rc.effect.as_str(), amount)),
                None => None,
            },
            None => None,
        };
        ItemInfo {
            identifier: value.identifier,
            name: value.name.clone(),
            examine_text: value.examine_text.clone(),
            atlas_index: value.atlas_index,
            fg: value.fg,
            pickup_text,
            equipable,
            attack_bonus,
            consumable,
        }
    }
}

impl ItemDatabase {
    /// The definitions, in the order in which they were given.
    pub closed spec fn view(&self) -> Seq<ItemInfo> {
        self.data@
    }

    /// The names of the items, in the order of the definitions.
    pub open spec fn names(&self) -> Seq<Seq<char>> {
        Seq::new(self@.len(), |i: int| self@[i].name@)
    }

    /// The identifiers of the items, in the order of the definitions.
    pub open spec fn ids(&self) -> Seq<ItemID> {
        Seq::new(self@.len(), |i: int| self@[i].identifier)
    }

    /// The place of the first item of the given name.
    pub open spec fn named(&self, name: Seq<char>) -> Option<int> {
        first_index(self.names(), name, self@.len() as int)
    }

    /// The place of the first item with the given identifier.
    pub open spec fn with_id(&self, id: ItemID) -> Option<int> {
        first_index(self.ids(), id, self@.len() as int)
    }

    pub fn empty() -> (r: Self)
        ensures
            r@.len() == 0,
    {
        ItemDatabase { data: Vec::new() }
    }

    /// A database of the given definitions.
    pub fn new(data: Vec<ItemInfo>) -> (r: Self)
        ensures
            r@ == data@,
    {
        ItemDatabase { data }
    }

    /// The database that a data file's definitions give: one item for each,
    /// in the same order.
    pub fn from_raws(raw: &RawItemDatabase) -> (r: Self)
        requires
            forall|i: int| 0 <= i < raw.data@.len() ==> (#[trigger] raw.data@[i]).complete(),
        ensures
            r@.len() == raw.data@.len(),
            forall|i: int| 0 <= i < raw.data@.len() ==> described(raw.data@[i], #[trigger] r@[i]),
    {
        let mut data: Vec<ItemInfo> = Vec::new();
        let mut i: usize = 0;
        while i < raw.data.len()
            invariant
                i <= raw.data@.len(),
                data@.len() == i,
                forall|j: int| 0 <= j < raw.data@.len() ==> (#[trigger] raw.data@[j]).complete(),
                forall|j: int| 0 <= j < i ==> described(raw.data@[j], #[trigger] data@[j]),
            decreases raw.data@.len() - i,
        {
            data.push(ItemInfo::from_raw(&raw.data[i]));
            i = i + 1;
        }
        ItemDatabase { data }
    }

    /// The number of definitions.
    pub fn len(&self) -> (r: usize)
        ensures
            r == self@.len(),
    {
        self.data.len()
    }

    /// The first definition of the given name, if there is one.
    pub fn get_by_name(&self, name: &str) -> (r: Option<&ItemInfo>)
        ensures
            r == match self.named(name@) {
                Some(i) => Some(&self@[i]),
                None => None,
            },
    {
        let mut i: usize = 0;
        while i < self.data.len()
            invariant
                i <= self@.len(),
                first_index(self.names(), name@, i as int).is_none(),
            decreases self@.len() - i,
        {
            if str_eq(self.data[i].name.as_str(), name) {
                proof {
                    lemma_first_index_stays(self.names(), name@, i as int, self@.len() as int);
                }
                return Some(&self.data[i]);
            }
            i = i + 1;
        }
        None
    }

    /// Gets the entity by name without ensuring it exists.
    /// To be used when certain that an item of the name exists.
    pub fn get_by_name_unchecked(&self, name: &String) -> (r: &ItemInfo)
        requires
            self.named(name@).is_some(),
        ensures
            *r == self@[self.named(name@).unwrap()],
    {
        let mut i: usize = 0;
        while i < self.data.len()
            invariant
                i <= self@.len(),
                first_index(self.names(), name@, i as int).is_none(),
                self.named(name@).is_some(),
            decreases self@.len() - i,
        {
            if self.data[i].name == *name {
                proof {
                    lemma_first_index_stays(self.names(), name@, i as int, self@.len() as int);
                }
                return &self.data[i];
            }
            i = i + 1;
        }
        proof {
            assert(false);
        }
        &self.data[0]
    }

    /// The first definition with the given identifier, if there is one.
    pub fn get_by_id(&self, id: ItemID) -> (r: Option<&ItemInfo>)
        ensures
            r == match self.with_id(id) {
                Some(i) => Some(&self@[i]),
                None => None,
            },
    {
        let mut i: usize = 0;
        while i < self.data.len()
            invariant
                i <= self@.len(),
                first_index(self.ids(), id, i as int).is_none(),
            decreases self@.len() - i,
        {
            if self.data[i].identifier.0 == id.0 {
                proof {
                    lemma_first_index_stays(self.ids(), id, i as int, self@.len() as int);
                }
                return Some(&self.data[i]);
            }
            i = i + 1;
        }
        None
    }
}

/// Whether `name` is the name under which the item with the given
/// identifier appears in the world: the name of its definition, and a
/// fixed stand-in where it has none.
pub open spec fn item_label(items: ItemDatabase, id: ItemID, name: Option<Name>) -> bool {
    name.is_some() && name.unwrap().0@ == match items.with_id(id) {
        Some(i) => items@[i].name@,
        None => "MISSING_ITEM_NAME"@,
    }
}

/// What an item lying in the world carries, under the name given: its
/// position, the mark of an item, and the looks that its definition gives
/// it, if it has a definition.
pub open spec fn item_parts(items: ItemDatabase, id: ItemID, pos: Position, name: Option<Name>) -> Components {
    Components {
        name,
        position: Some(pos),
        item: Some(Item { id }),
        renderable: match items.with_id(id) {
            Some(i) => Some(
                Renderable {
                    fg: items@[i].fg,
                    bg: (0u8, 0u8, 0u8, 0u8),
                    atlas_index: items@[i].atlas_index as usize,
                    z_priority: ITEM_Z,
                },
            ),
            None => None,
        },
        ..Components::bare()
    }
}

/// What an item of the given kind carries when it lies at `pos`.
pub fn item_components(id: ItemID, pos: Position, items: &ItemDatabase) -> (c: Components)
    ensures
        c == item_parts(*items, id, pos, c.name),
        item_label(*items, id, c.name),
{
    let mut c: Components = Components::empty();
    c.position = Some(pos);
    c.item = Some(Item { id });
    match items.get_by_id(id) {
        Some(info) => {
            c.name = Some(Name(info.name.clone()));
            c.renderable = Some(Renderable::default_bg(info.atlas_index as usize, info.fg, ITEM_Z));
        },
        None => {
            c.name = Some(Name::missing_item_name());
        },
    }
    c
}

/// Puts an item of the given kind into the store, at `pos`. An item
/// without a definition is created all the same, under a stand-in name and
/// without looks.
pub fn build_item(id: ItemID, pos: Position, items: &ItemDatabase, store: &mut Store) -> (e: Entity)
    ensures
        e.index == old(store)@.len(),
        final(store)@.len() == old(store)@.len() + 1,
        final(store)@.take(old(store)@.len() as int) == old(store)@,
        final(store)@.last().is_some(),
        final(store)@.last().unwrap() == item_parts(
            *items,
            id,
            pos,
            final(store)@.last().unwrap().name,
        ),
        item_label(*items, id, final(store)@.last().unwrap().name),
{
    let c: Components = item_components(id, pos, items);
    let e: Entity = store.create(c);
    proof {
        assert(store@.take(old(store)@.len() as int) =~= old(store)@);
    }
    e
}

} // verus!
