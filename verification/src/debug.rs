//! What the debug overlay shows, as plain values: the state of the
//! player's health, the player's way of interacting, and what stands on a
//! tile.

use vstd::prelude::*;
use crate::components::Entity;
use crate::components::HealthStats;
use crate::components::Interactor;
use crate::components::Position;
use crate::indexing::SpatialIndex;
use crate::tile_map::tile_at;
use crate::tile_map::tile_index;
use crate::text::owned;
use crate::inventory::inventory_entries;
use crate::inventory::lists_in_order;
use crate::inventory::owned_by;
use crate::inventory::entries_of;
use crate::inventory::selection_status;
use crate::inventory::status_in;
use crate::inventory::InventoryConfig;
use crate::inventory::InventoryEntry;
use crate::inventory::SelectionStatus;
use crate::store::alive;
use crate::world::World;

verus! {

/// How well an entity is, going by the share of its hit points that is
/// left.
#[derive(Clone, Copy, Debug, PartialEq, Eq, Structural)]
pub enum HealthBand {
    /// All hit points are left.
    Max,
    /// More than half are left.
    Medium,
    /// More than a quarter is left.
    Low,
    /// A quarter or less is left.
    Critical,
}

/// The band that hit points fall into.
pub open spec fn band_of(hp: int, max_hp: int) -> HealthBand {
    if hp == max_hp {
        HealthBand::Max
    } else if 2 * hp > max_hp {
        HealthBand::Medium
    } else if 4 * hp > max_hp {
        HealthBand::Low
    } else {
        HealthBand::Critical
    }
}

/// The band that an entity's hit points fall into.
pub fn health_band(stats: &HealthStats) -> (r: HealthBand)
    ensures
        r == band_of(stats.hp as int, stats.max_hp as int),
{
    let hp: u128 = stats.hp as u128;
    let max_hp: u128 = stats.max_hp as u128;
    if stats.hp == stats.max_hp {
        HealthBand::Max
    } else if 2 * hp > max_hp {
        HealthBand::Medium
    } else if 4 * hp > max_hp {
        HealthBand::Low
    } else {
        HealthBand::Critical
    }
}

/// The words for the player's way of interacting: the name of the mode,
/// and a warning where the player has none.
pub open spec fn mode_words(interactor: Option<Interactor>) -> Seq<char> {
    match interactor {
        Some(i) => i.mode.label(),
        None => "#[red]Mode Missing#[]"@,
    }
}

/// The words for the player's way of interacting.
pub fn interaction_label(interactor: Option<&Interactor>) -> (r: String)
    ensures
        r@ == mode_words(
            match interactor {
                Some(i) => Some(*i),
                None => None,
            },
        ),
{
    match interactor {
        Some(p) => p.mode.to_string(),
        None => owned("#[red]Mode Missing#[]"),
    }
}

/// What the index knows of one tile.
#[derive(Debug)]
pub struct TileContents<'a> {
    /// The linear index of the tile.
    pub tile: usize,
    /// The entities that stand on it.
    pub entities: &'a Vec<Entity>,
    /// Whether one of them blocks movement.
    pub blocked: bool,
}

/// What the index knows of the tile under the cursor. There is nothing to
/// tell where the cursor is not over the map, or over a place off the
/// grid.
pub fn tile_contents<'a>(index: &'a SpatialIndex, cursor: Option<Position>) -> (r: Option<
    TileContents<'a>,
>)
    requires
        index.wf(),
    ensures
        match cursor {
            Some(pos) => match tile_at(pos, index.width as int, index.height as int) {
                Some(t) => r.is_some() && r.unwrap().tile == t && r.unwrap().entities@
                    == index@.tile_entities[t] && r.unwrap().blocked == index@.blocked[t],
                None => r.is_none(),
            },
            None => r.is_none(),
        },
{
    match cursor {
        Some(pos) => match tile_index(&pos, index.width, index.height) {
            Some(tile) => Some(
                TileContents {
                    tile,
                    entities: &index.tile_entities[tile],
                    blocked: index.blocked[tile],
                },
            ),
            None => None,
        },
        None => None,
    }
}

/// What the player carries in the way of components, if the player is in
/// the world.
pub open spec fn player_parts(world: World) -> Option<crate::store::Components> {
    if world.player.is_some() && alive(world.store@, world.player.unwrap()) {
        world.store@[world.player.unwrap().index as int]
    } else {
        None
    }
}

/// The band that the player's hit points fall into, if the player is in the
/// world and has health.
pub fn player_health(world: &World) -> (r: Option<(HealthStats, HealthBand)>)
    ensures
        r == match player_parts(*world) {
            Some(c) => match c.health {
                Some(stats) => Some((stats, band_of(stats.hp as int, stats.max_hp as int))),
                None => None,
            },
            None => None,
        },
{
    match world.player {
        Some(player) => match world.store.get(player) {
            Some(c) => match &c.health {
                Some(stats) => Some((*stats, health_band(stats))),
                None => None,
            },
            None => None,
        },
        None => None,
    }
}

/// Where the player stands, if the player is in the world and stands
/// somewhere.
pub fn player_position(world: &World) -> (r: Option<Position>)
    ensures
        r == match player_parts(*world) {
            Some(c) => c.position,
            None => None,
        },
{
    match world.player {
        Some(player) => match world.store.get(player) {
            Some(c) => c.position,
            None => None,
        },
        None => None,
    }
}

/// The words for the player's way of interacting; the warning too where
/// the player is not in the world.
pub fn player_mode(world: &World) -> (r: String)
    ensures
        r@ == mode_words(
            match player_parts(*world) {
                Some(c) => c.interactor,
                None => None,
            },
        ),
{
    match world.player {
        Some(player) => match world.store.get(player) {
            Some(c) => interaction_label(c.interactor.as_ref()),
            None => interaction_label(None),
        },
        None => interaction_label(None),
    }
}

/// The entries that are in the player's bag, in the order of their slots.
pub open spec fn player_bag(world: World) -> Seq<InventoryEntry> {
    owned_by(
        entries_of(world.store@, world.store@.len() as int),
        world.player.unwrap(),
        entries_of(world.store@, world.store@.len() as int).len() as int,
    )
}

/// Where the player's selection stands in the player's bag, listed as the
/// configuration says. Without a player in the world, and for a player
/// that has selected nothing, there is no selection. Else the status is
/// the one that the selection has in every listing of the bag in the order
/// of the configuration, and there is such a listing.
pub fn player_selection(world: &World, cfg: &InventoryConfig) -> (r: SelectionStatus)
    ensures
        match player_parts(*world) {
            Some(c) => match c.selected_item {
                Some(_) => {
                    &&& forall|listing: Seq<InventoryEntry>| #[trigger]
                        lists_in_order(player_bag(*world), listing, cfg.sort_mode) ==> r
                            == status_in(listing, c.selected_item)
                    &&& exists|listing: Seq<InventoryEntry>| #[trigger]
                        lists_in_order(player_bag(*world), listing, cfg.sort_mode)
                },
                None => r == SelectionStatus::NoSelection,
            },
            None => r == SelectionStatus::NoSelection,
        },
{
    match world.player {
        Some(player) => match world.store.get(player) {
            Some(c) => {
                let selection = c.selected_item;
                match selection {
                    Some(_) => {
                        let entries = inventory_entries(&world.store);
                        let ghost bag = owned_by(entries@, player, entries@.len() as int);
                        let r = selection_status(entries, player, selection, cfg.sort_mode);
                        proof {
                            assert(bag == player_bag(*world));
                            let found = choose|listing: Seq<InventoryEntry>| #[trigger]
                                lists_in_order(bag, listing, cfg.sort_mode);
                            assert(lists_in_order(player_bag(*world), found, cfg.sort_mode));
                        }
                        r
                    },
                    None => SelectionStatus::NoSelection,
                }
            },
            None => SelectionStatus::NoSelection,
        },
        None => SelectionStatus::NoSelection,
    }
}

} // verus!
