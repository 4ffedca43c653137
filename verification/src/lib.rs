//! Turn-based simulation core of a tile-based role-playing game.
//!
//! The crate holds the data that is attached to the entities of the game
//! ([`components`], [`items`]), the store that holds the entities
//! ([`store`]) and the terrain under them ([`tile_map`]), the spatial index
//! that is derived from the store every turn ([`indexing`]), the systems
//! that resolve what the entities wish to do ([`movement`], [`fishing`],
//! [`mining`], [`combat`], [`pickup`]) and what befalls them ([`damage`],
//! [`deletion`]), and the scheduler that runs them in their order, one tick
//! at a time ([`scheduler`], [`world`]). The static definitions of beings
//! and items are looked up in [`data_read`]; [`inventory`] and [`debug`]
//! hold what the overlay shows.
//!
//! Every function carries a contract over the mathematical model of the
//! data it touches. One call leaves the crate unproved: the sorting of the
//! inventory listing in [`inventory`].

pub mod combat;
pub mod components;
pub mod damage;
pub mod data_read;
pub mod debug;
pub mod deletion;
pub mod fishing;
pub mod indexing;
pub mod inventory;
pub mod items;
pub mod lookup;
pub mod mining;
pub mod movement;
pub mod pickup;
pub mod scheduler;
pub mod sorting;
pub mod store;
pub mod text;
pub mod tile_map;
pub mod time;
pub mod world;
pub mod z_order;
