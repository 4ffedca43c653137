//! The data that can be attached to an entity of the world.

use vstd::prelude::*;
use std::collections::HashMap;
use vstd::std_specs::iter::IteratorSpec;
use crate::items::ItemID;
use crate::items::ItemQty;
use crate::data_read::items::ItemDatabase;
use crate::inventory::UseMenuResult;
use crate::text::str_eq;
use crate::text::owned;

verus! {

broadcast use vstd::std_specs::hash::group_hash_axioms;

/// Handle to an entity of the world: the index of its slot in the store. A
/// handle stays valid as a value after its entity is gone; the store then
/// answers that nothing lives under it.
#[derive(Clone, Copy, Debug, PartialEq, Eq, Hash, Structural)]
pub struct Entity {
    pub index: usize,
}

/// How an entity is drawn: colours, the sprite's place in the atlas, and the
/// layer it is drawn on.
#[derive(Clone, Copy, Debug, PartialEq, Eq)]
pub struct Renderable {
    pub fg: (u8, u8, u8),
    /// Red, green, blue and opacity of the background.
    pub bg: (u8, u8, u8, u8),
    pub atlas_index: usize,
    pub z_priority: u32,
}

impl Renderable {
    /// A renderable with an opaque background.
    pub fn new(fg: (u8, u8, u8), bg: (u8, u8, u8), atlas_index: usize, z_priority: u32) -> (r: Self)
        ensures
            r == (Renderable { fg, bg: (bg.0, bg.1, bg.2, 255u8), atlas_index, z_priority }),
    {
        Renderable { fg, bg: (bg.0, bg.1, bg.2, 255u8), atlas_index, z_priority }
    }

    /// Creates a renderable with a clear bg and specified parts
    pub fn default_bg(atlas_index: usize, fg: (u8, u8, u8), z_priority: u32) -> (r: Self)
        ensures
            r == (Renderable { fg, bg: (0u8, 0u8, 0u8, 0u8), atlas_index, z_priority }),
    {
        Renderable { fg, bg: (0u8, 0u8, 0u8, 0u8), atlas_index, z_priority }
    }
}

/// Represents a position of anything that exists physically in the game world
#[derive(Clone, Copy, Debug, PartialEq, Eq, Hash, Structural)]
pub struct Position {
    pub x: usize,
    pub y: usize,
}

impl Position {
    pub fn new(x: usize, y: usize) -> (r: Self)
        ensures
            r.x == x,
            r.y == y,
    {
        Position { x, y }
    }

    /// The position with the given coordinates, which may come out of a
    /// subtraction: there is none where either is negative.
    pub fn from_signed(x: i32, y: i32) -> (r: Option<Self>)
        ensures
            r == if x >= 0 && y >= 0 {
                Some(Position { x: x as usize, y: y as usize })
            } else {
                None
            },
    {
        if x >= 0 && y >= 0 {
            Some(Position { x: x as usize, y: y as usize })
        } else {
            None
        }
    }

    /// The coordinates as signed numbers, where both fit.
    pub fn to_signed(&self) -> (r: Option<(i32, i32)>)
        ensures
            r == if self.x <= i32::MAX && self.y <= i32::MAX {
                Some((self.x as i32, self.y as i32))
            } else {
                None
            },
    {
        if self.x <= 2147483647 && self.y <= 2147483647 {
            Some((self.x as i32, self.y as i32))
        } else {
            None
        }
    }

    /// The linear index of this tile on a map that is `width` tiles wide.
    pub open spec fn idx(self, width: int) -> int {
        self.y * width + self.x
    }

    /// The position of the tile with linear index `idx` on a map that is
    /// `width` tiles wide.
    pub fn from_idx(idx: usize, width: usize) -> (r: Self)
        requires
            width > 0,
        ensures
            r.x == idx % width,
            r.y == idx / width,
    {
        Position { x: idx % width, y: idx / width }
    }

    /// The linear index of this tile on a map that is `width` tiles wide, rows
    /// first.
    pub fn to_idx(&self, width: usize) -> (r: usize)
        requires
            self.idx(width as int) <= usize::MAX,
        ensures
            r == self.idx(width as int),
    {
        assert(self.y * width <= self.y * width + self.x);
        self.y * width + self.x
    }
}

/// A position inside the row it names survives the trip through its linear
/// index: `from_idx(to_idx(p))` is `p` whenever `p.x < width`.
pub proof fn lemma_position_round_trip(p: Position, width: usize)
    requires
        p.x < width,
    ensures
        p.idx(width as int) % (width as int) == p.x,
        p.idx(width as int) / (width as int) == p.y,
{
    let w: int = width as int;
    let x: int = p.x as int;
    let y: int = p.y as int;
    vstd::arithmetic::div_mod::lemma_fundamental_div_mod_converse(y * w + x, w, y, x);
}

/// A linear index survives the trip through its position:
/// `to_idx(from_idx(idx))` is `idx`.
pub proof fn lemma_idx_round_trip(idx: usize, width: usize)
    requires
        width > 0,
    ensures
        (Position { x: (idx % width) as usize, y: (idx / width) as usize }).idx(width as int) == idx,
        idx % width < width,
{
    let w: int = width as int;
    let i: int = idx as int;
    vstd::arithmetic::div_mod::lemma_fundamental_div_mod(i, w);
    vstd::arithmetic::div_mod::lemma_mod_bound(i, w);
    assert((i / w) * w == w * (i / w)) by (nonlinear_arith);
}

/// How hard the entity hits.
#[derive(Clone, Copy, Debug, PartialEq, Eq, Structural)]
pub struct Strength {
    pub amt: usize,
}

/// Prevents gameobjects from passing through it
#[derive(Clone, Copy, Debug, Default, PartialEq, Eq, Structural)]
pub struct Blocking;

/// A tile where a fishing action may be started. Times are in nanoseconds.
#[derive(Clone, Copy, Debug, Default, PartialEq, Eq, Structural)]
pub struct Fishable {
    pub time_left: u64,
}

/// The wish to fish, towards the tile where the line is cast.
#[derive(Clone, Copy, Debug, PartialEq, Eq, Structural)]
pub struct FishAction {
    pub target: Position,
}

/// The wish to give up the activity the entity is bound to.
#[derive(Clone, Copy, Debug, Default, PartialEq, Eq, Structural)]
pub struct CancelActivity;

/// An entity whose line is in the water: the attempts made so far, and the
/// nanoseconds gone by since the last one.
#[derive(Clone, Copy, Debug, PartialEq, Eq, Structural)]
pub struct WaitingForFish {
    pub attempts: usize,
    pub time_since_last_attempt: u64,
}

impl WaitingForFish {
    pub fn new(attempts: usize) -> (r: Self)
        ensures
            r.attempts == attempts,
            r.time_since_last_attempt == 0,
    {
        WaitingForFish { attempts, time_since_last_attempt: 0 }
    }
}

/// A fish has bitten and waits to be pulled in.
#[derive(Clone, Copy, Debug, Default, PartialEq, Eq, Structural)]
pub struct FishOnTheLine;

/// What something is called.
#[derive(Clone, Debug, PartialEq, Eq)]
pub struct Name(pub String);

impl Name {
    pub fn new(name: &str) -> (r: Self)
        ensures
            r.0@ == name@,
    {
        Name(owned(name))
    }

    pub fn missing_item_name() -> (r: Self)
        ensures
            r.0@ == "MISSING_ITEM_NAME"@,
    {
        Name::new("MISSING_ITEM_NAME")
    }

    pub fn missing_being_name() -> (r: Self)
        ensures
            r.0@ == "MISSING_BEING_NAME"@,
    {
        Name::new("MISSING_BEING_NAME")
    }
}

/// Marks a being as a monster.
#[derive(Clone, Copy, Debug, Default, PartialEq, Eq, Structural)]
pub struct Monster;

/// Makes the entity walk around in a random cardinal direction
#[derive(Clone, Copy, Debug, Default, PartialEq, Eq, Structural)]
pub struct RandomWalkerAI;

/// Makes the entity walk towards a goal which is targeted
#[derive(Clone, Debug)]
pub struct GoalMoverAI {
    pub current: Option<Entity>,
    pub desires: Vec<Name>,
}

impl GoalMoverAI {
    pub fn with_desires(desires: Vec<Name>) -> (r: Self)
        ensures
            r.current.is_none(),
            r.desires == desires,
    {
        GoalMoverAI { current: None, desires }
    }
}

/// Hit points, their ceiling, and what is taken off every blow.
#[derive(Clone, Copy, Debug, PartialEq, Eq, Structural)]
pub struct HealthStats {
    pub hp: usize,
    pub max_hp: usize,
    pub defense: usize,
}

impl HealthStats {
    /// Full health: the hit points start at their ceiling.
    pub fn new(max_hp: usize, defense: usize) -> (r: Self)
        ensures
            r == (HealthStats { hp: max_hp, max_hp, defense }),
    {
        HealthStats { hp: max_hp, max_hp, defense }
    }
}

/// An item that will be spawned on the associated entity's death
#[derive(Clone, Copy, Debug, PartialEq, Eq, Structural)]
pub struct DeathDrop {
    pub item_id: ItemID,
}

impl DeathDrop {
    pub fn new(item_id: &ItemID) -> (r: Self)
        ensures
            r.item_id == *item_id,
    {
        DeathDrop { item_id: *item_id }
    }
}

/// What something is broken with.
#[derive(Clone, Copy, Debug, PartialEq, Eq, Structural)]
pub enum ToolType {
    Hand,
    Pickaxe,
    Axe,
    Shovel,
}

/// The tool that a name stands for, if it is the name of a tool.
pub open spec fn tool_named(name: Seq<char>) -> Option<ToolType> {
    if name == "Hand"@ {
        Some(ToolType::Hand)
    } else if name == "Axe"@ {
        Some(ToolType::Axe)
    } else if name == "Pickaxe"@ {
        Some(ToolType::Pickaxe)
    } else if name == "Shovel"@ {
        Some(ToolType::Shovel)
    } else {
        None
    }
}

impl ToolType {
    /// The tool of the given name; names are told apart by case.
    pub fn from_name(input: &str) -> (r: Option<ToolType>)
        ensures
            r == tool_named(input@),
    {
        if str_eq(input, "Hand") {
            Some(ToolType::Hand)
        } else if str_eq(input, "Axe") {
            Some(ToolType::Axe)
        } else if str_eq(input, "Pickaxe") {
            Some(ToolType::Pickaxe)
        } else if str_eq(input, "Shovel") {
            Some(ToolType::Shovel)
        } else {
            None
        }
    }
}

/// Can be broken, with the tool it names.
#[derive(Clone, Copy, Debug, PartialEq, Eq, Structural)]
pub struct Breakable {
    pub by: ToolType,
}

impl Breakable {
    pub fn new(by: ToolType) -> (r: Self)
        ensures
            r.by == by,
    {
        Breakable { by }
    }

    /// The breakable that the name of a tool stands for.
    pub fn parse(input: &str) -> (r: Result<Breakable, ()>)
        ensures
            match tool_named(input@) {
                Some(tool) => r == Ok::<Breakable, ()>(Breakable { by: tool }),
                None => r.is_err(),
            },
    {
        match ToolType::from_name(input) {
            Some(tool) => Ok(Breakable::new(tool)),
            None => Err(()),
        }
    }
}

impl std::str::FromStr for Breakable {
    type Err = ();

    fn from_str(input: &str) -> (r: Result<Self, Self::Err>)
        ensures
            match tool_named(input@) {
                Some(tool) => r == Ok::<Breakable, ()>(Breakable { by: tool }),
                None => r.is_err(),
            },
    {
        Breakable::parse(input)
    }
}

/// The wish to break the target.
#[derive(Clone, Copy, Debug, PartialEq, Eq, Structural)]
pub struct BreakAction {
    pub target: Entity,
}

/// The wish to attack the target.
#[derive(Clone, Copy, Debug, PartialEq, Eq, Structural)]
pub struct AttackAction {
    pub target: Entity,
}

/// The wish to step onto the tile named.
#[derive(Clone, Copy, Debug, PartialEq, Eq, Structural)]
pub struct WantsToMove {
    pub new_pos: Position,
}

impl WantsToMove {
    pub fn new(pos: Position) -> (r: Self)
        ensures
            r.new_pos == pos,
    {
        WantsToMove { new_pos: pos }
    }
}

/// The blows an entity has taken this turn and that are yet to be applied.
#[derive(Clone, Debug)]
pub struct SufferDamage {
    pub amount: Vec<i32>,
}

/// Used to delete an entity when a condition is satisfied
#[derive(Clone, Copy, Debug, PartialEq, Eq, Structural)]
pub enum DeleteCondition {
    /// Condition is based on deleting after the given nanoseconds have gone by
    Timed(u64),
    /// Condition is based on when the entity finishes their activity
    ActivityFinish(Entity),
}

/// Used to signal to other systems that an entity finished their activity
#[derive(Clone, Copy, Debug, Default, PartialEq, Eq, Structural)]
pub struct FinishedActivity;

/// Marks an entity as an item, of the kind that the identifier names.
#[derive(Clone, Copy, Debug, PartialEq, Eq, Structural)]
pub struct Item {
    pub id: ItemID,
}

/// The item is in the bag of `owner`.
#[derive(Clone, Copy, Debug, PartialEq, Eq, Structural)]
pub struct InBag {
    pub owner: Entity,
}

/// The item that the player has selected in the inventory, and what they
/// mean to do with it.
#[derive(Clone, Copy, Debug, PartialEq, Eq, Structural)]
pub struct SelectedInventoryItem {
    pub first_item: Entity,
    pub intended_action: Option<UseMenuResult>,
}

/// What an entity carries: for each item, how many of it.
#[derive(Debug)]
pub struct Backpack {
    contents: HashMap<u32, ItemQty>,
}

/// This is lots of behavior for a component but backpacks are complicated and this is a simple abstraction
impl Backpack {
    /// The quantities held, by the number of the item's identifier.
    pub closed spec fn view(&self) -> Map<u32, ItemQty> {
        self.contents@
    }

    /// How many of the item the backpack holds; none where it has no entry.
    pub open spec fn count(&self, item_id: ItemID) -> nat {
        if self@.contains_key(item_id.0) {
            self@[item_id.0].0 as nat
        } else {
            0
        }
    }

    pub fn empty() -> (r: Self)
        ensures
            r@ == Map::<u32, ItemQty>::empty(),
    {
        Backpack { contents: HashMap::new() }
    }

    /// The number of different items held.
    pub fn len(&self) -> (r: usize)
        ensures
            r == self@.len(),
    {
        self.contents.len()
    }

    /// Puts `qty` more of the item into the backpack.
    pub fn add_into_backpack(&mut self, item_id: ItemID, qty: usize) -> (r: bool)
        requires
            old(self).count(item_id) + qty <= usize::MAX,
        ensures
            r,
            final(self)@ == old(self)@.insert(
                item_id.0,
                ItemQty((old(self).count(item_id) + qty) as usize),
            ),
            final(self).count(item_id) == old(self).count(item_id) + qty,
    {
        let held: usize = match self.contents.get(&item_id.0) {
            Some(o) => o.0,
            None => 0,
        };
        self.contents.insert(item_id.0, ItemQty::new(held + qty));
        true
    }

    /// How many of the item the backpack holds.
    pub fn quantity(&self, item_id: ItemID) -> (r: usize)
        ensures
            r == self.count(item_id),
    {
        match self.contents.get(&item_id.0) {
            Some(o) => o.0,
            None => 0,
        }
    }

    /// What the backpack holds, one pair for each item, in no particular
    /// order.
    pub fn iter(&self) -> (r: Vec<(ItemID, ItemQty)>)
        ensures
            r@.len() == self@.len(),
            forall|i: int|
                0 <= i < r@.len() ==> self@.contains_key((#[trigger] r@[i]).0.0) && self@[r@[i].0.0]
                    == r@[i].1,
            forall|k: u32|
                self@.contains_key(k) ==> exists|i: int|
                    0 <= i < r@.len() && (#[trigger] r@[i]).0.0 == k,
            forall|i: int, j: int|
                0 <= i < j < r@.len() ==> (#[trigger] r@[i]).0 != (#[trigger] r@[j]).0,
    {
        let mut out: Vec<(ItemID, ItemQty)> = Vec::new();
        let ghost pairs = vstd::std_specs::hash::spec_hash_map_iter(&self.contents).remaining();
        for kv in it: self.contents.iter()
            invariant
                it.seq() == pairs,
                pairs.no_duplicates(),
                out@.len() == it.index(),
                forall|j: int|
                    0 <= j < out@.len() ==> (#[trigger] out@[j]).0.0 == *pairs[j].0 && out@[j].1
                        == *pairs[j].1,
        {
            let (k, v) = kv;
            out.push((ItemID(*k), *v));
        }
        proof {
            vstd::std_specs::hash::axiom_spec_hash_map_iter(&self.contents);
            assert(out@.len() == pairs.len());
            assert forall|k: u32| self@.contains_key(k) implies exists|i: int|
                0 <= i < out@.len() && (#[trigger] out@[i]).0.0 == k by {
                let pair = (&k, &self@[k]);
                assert(pairs.contains(pair));
                let i = choose|i: int| 0 <= i < pairs.len() && pairs[i] == pair;
                assert(out@[i].0.0 == k);
            }
            assert forall|i: int, j: int| 0 <= i < j < out@.len() implies (#[trigger] out@[i]).0 != (
            #[trigger] out@[j]).0 by {
                if out@[i].0 == out@[j].0 {
                    assert(*pairs[i].0 == *pairs[j].0);
                    assert(self@[*pairs[i].0] == *pairs[i].1);
                    assert(self@[*pairs[j].0] == *pairs[j].1);
                    assert(pairs[i] == pairs[j]);
                }
            }
        }
        out
    }

    /// Checks inventory for an item based on name.
    /// This is useful when the definitions are not needed for other reasons in the calling function.
    /// If you do need them for other information then use `.contains(ItemID)`
    pub fn contains_named(&self, name: &Name, items: &ItemDatabase) -> (r: bool)
        requires
            items.named(name.0@).is_some(),
        ensures
            r == (self.count(items@[items.named(name.0@).unwrap()].identifier) > 0),
    {
        let info = items.get_by_name_unchecked(&name.0);
        self.contains(info.identifier)
    }

    /// Checks inventory for an item based on ID.
    pub fn contains(&self, item_id: ItemID) -> (r: bool)
        ensures
            r == (self.count(item_id) > 0),
    {
        match self.contents.get(&item_id.0) {
            Some(o) => o.0 > 0,
            None => false,
        }
    }
}

/// The wish to pick the item up.
#[derive(Clone, Copy, Debug, PartialEq, Eq, Structural)]
pub struct PickupAction {
    pub item: Entity,
}

/// Water ripe for swimming in or boating over or building a pier to fish off
#[derive(Clone, Copy, Debug, Default, PartialEq, Eq, Structural)]
pub struct Water;

/// A delicious treat loved by many animals and other beings...
#[derive(Clone, Copy, Debug, Default, PartialEq, Eq, Structural)]
pub struct Grass;

/// How the entity meets others.
#[derive(Clone, Copy, Debug, PartialEq, Eq, Structural)]
pub struct Interactor {
    pub mode: InteractorMode,
}

impl Interactor {
    pub fn new(mode: InteractorMode) -> (r: Self)
        ensures
            r.mode == mode,
    {
        Interactor { mode }
    }
}

/// The ways of meeting others.
#[derive(Clone, Copy, Debug, PartialEq, Eq, Structural)]
pub enum InteractorMode {
    Reactive,
    Agressive,
}

impl InteractorMode {
    /// The mode's name as it is shown to the player.
    pub open spec fn label(self) -> Seq<char> {
        match self {
            InteractorMode::Reactive => "Reactive"@,
            InteractorMode::Agressive => "Agressive"@,
        }
    }

    pub fn to_string(&self) -> (r: String)
        ensures
            r@ == self.label(),
    {
        match self {
            InteractorMode::Reactive => owned("Reactive"),
            InteractorMode::Agressive => owned("Agressive"),
        }
    }
}

} // verus!
