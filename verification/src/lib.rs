//! Verified game logic of FlashDark: the spatial cell index, the navigation
//! graph, the puzzles, the rules of the house's interactables, the ghost's
//! choices, the menus, and the OBJ and MTL text the level is read from.

pub mod rng;
pub mod spatial_map;
pub mod navmesh;
pub mod puzzle;
pub mod menu;
pub mod logic;
pub mod text;
pub mod obj_format;
pub mod mtl_format;
pub mod interact;
pub mod level;
pub mod monster;
pub mod controls;
