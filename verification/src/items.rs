//! Static item data: identifiers, quantities and item descriptions.

use vstd::prelude::*;
use crate::components::ToolType;
use crate::components::tool_named;
use crate::text::str_eq;

verus! {

/// Identifier under which an item's static data is found.
#[derive(Clone, Copy, Debug, PartialEq, Eq, Hash, Structural)]
pub struct ItemID(pub u32);

/// How many of one item a container holds.
#[derive(Clone, Copy, Debug, PartialEq, Eq, Structural)]
pub struct ItemQty(pub usize);

impl ItemQty {
    pub fn new(qty: usize) -> (r: Self)
        ensures
            r.0 == qty,
    {
        ItemQty(qty)
    }

    /// Raises the quantity by `qty`.
    pub fn increase(&mut self, qty: usize)
        requires
            old(self).0 + qty <= usize::MAX,
        ensures
            final(self).0 == old(self).0 + qty,
    {
        self.0 = self.0 + qty;
    }
}

/// What an item acts as once it is equipped.
#[derive(Clone, Copy, Debug, PartialEq, Eq, Structural)]
pub struct Equipable {
    pub tool: ToolType,
}

/// The tool an equipable of the given name acts as: the tool of that name,
/// and bare hands for every other name.
pub open spec fn equipable_tool(name: Seq<char>) -> ToolType {
    match tool_named(name) {
        Some(tool) => tool,
        None => ToolType::Hand,
    }
}

impl Equipable {
    /// What an item of the given equipable name acts as.
    pub fn from_str(name: &str) -> (r: Self)
        ensures
            r.tool == equipable_tool(name@),
    {
        match ToolType::from_name(name) {
            Some(tool) => Equipable { tool },
            None => Equipable { tool: ToolType::Hand },
        }
    }
}

/// Added to the damage an attacker deals while the item is equipped.
#[derive(Clone, Copy, Debug, PartialEq, Eq, Structural)]
pub struct AttackBonus(pub i32);

/// What consuming an item does.
#[derive(Clone, Copy, Debug, PartialEq, Eq, Structural)]
pub enum ConsumeEffect {
    /// Restores hit points.
    Heal,
    /// Does nothing.
    Nothing,
}

/// The effect named `name`: `"heal"` restores hit points, every other name
/// does nothing.
pub open spec fn effect_named(name: Seq<char>) -> ConsumeEffect {
    if name == "heal"@ {
        ConsumeEffect::Heal
    } else {
        ConsumeEffect::Nothing
    }
}

/// An item that is used up, with the strength of its effect.
#[derive(Clone, Copy, Debug, PartialEq, Eq, Structural)]
pub struct Consumable {
    pub effect: ConsumeEffect,
    pub amount: usize,
}

impl Consumable {
    /// The consumable with the effect of the given name and the given strength.
    pub fn from_str(effect: &str, amount: usize) -> (r: Self)
        ensures
            r.effect == effect_named(effect@),
            r.amount == amount,
    {
        if str_eq(effect, "heal") {
            Consumable { effect: ConsumeEffect::Heal, amount }
        } else {
            Consumable { effect: ConsumeEffect::Nothing, amount }
        }
    }
}

/// The static description of one kind of item.
#[derive(Debug)]
pub struct ItemInfo {
    /// Unique id to find the item's static data
    pub identifier: ItemID,
    pub name: String,
    pub examine_text: String,
    pub atlas_index: u8,
    pub fg: (u8, u8, u8),
    pub pickup_text: Option<String>,
    pub equipable: Option<Equipable>,
    pub attack_bonus: Option<AttackBonus>,
    pub consumable: Option<Consumable>,
}

} // verus!
