//! Verified core of the map editor's tile tools: tile grids, brushes,
//! flood fill and animation point editing.
#![allow(unused_imports)]

use vstd::prelude::*;

pub mod tiles;
pub mod fill;
pub mod layers;
pub mod brush;
pub mod hookthrough;
pub mod tool;
pub mod select;
pub mod animation;
pub mod anim_select;
pub mod layer_pick;
pub mod ui;
pub mod objects;
pub mod timeline;
pub mod tune;
pub mod tune_zones;
pub mod commands;
pub mod laws;

verus! {
} // verus!
