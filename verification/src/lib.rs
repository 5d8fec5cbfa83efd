//! Verified core of the RS2BR 2D engine: the RS2 script format (checking
//! and reading), asset naming, classification and checking, the game's
//! key/value stores, collision contact events, scene changes, the
//! animator's state graph, and the editor's decisions (warnings, listings,
//! selection, undo history, scene tabs).
use vstd::prelude::*;

pub mod text;
pub mod sorting;
pub mod float_literal;
pub mod script;
pub mod store;
pub mod save;
pub mod memory;
pub mod assets;
pub mod names;
pub mod hierarchy;
pub mod editor;
pub mod animator;
pub mod validation;
pub mod warnings;
pub mod session;
pub mod contacts;
pub mod runtime;
pub mod scene_manager;
pub mod export;
pub mod project;

verus! {

} // verus!
