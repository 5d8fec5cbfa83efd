//! Project-level data: the project configuration and the references a
//! scene and its components hold.
use vstd::prelude::*;
use crate::names::ENGINE_VERSION;

verus! {

/// A project's name, initial scene and engine version.
#[derive(Debug, Clone)]
pub struct ProjectConfig {
    pub name: String,
    pub initial_scene: String,
    pub engine_version: String,
}

impl Default for ProjectConfig {
    fn default() -> (r: Self)
        ensures
            r.name@ == "RS2BR Project"@,
            r.initial_scene@ == "assets/scenes/main.scene.json"@,
            r.engine_version@ == ENGINE_VERSION@,
    {
        ProjectConfig {
            name: String::from_str("RS2BR Project"),
            initial_scene: String::from_str("assets/scenes/main.scene.json"),
            engine_version: String::from_str(ENGINE_VERSION),
        }
    }
}

/// A Tiled map a scene loads, by its path relative to the project root.
#[derive(Debug, Clone)]
pub struct SceneTilemapRef {
    pub path: String,
}

/// An RS2 script component: the script's path.
#[derive(Debug, Clone)]
pub struct Script {
    pub file_path: String,
}

/// A Lua script component: the script's path.
#[derive(Debug, Clone)]
pub struct LuaScript {
    pub file_path: String,
}

} // verus!
