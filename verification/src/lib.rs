//! The logic of a 2D game engine and its editor, verified: entities and
//! component lists, puzzle-grid movement with pushing, player switching,
//! keeping bounding boxes and draw rectangles in step, prefab inheritance,
//! tilemap tilesets, and the decisions behind input handling, rendering and
//! the editor's widgets.
pub mod axis;
pub mod cached_bool;
pub mod cardinals;
pub mod conversant_npc_system;
pub mod cross_cutting_system;
pub mod editor_windows;
pub mod ecs;
pub mod grid_system;
pub mod imgui_component;
pub mod imgui_utility;
pub mod input_system;
pub mod number_util;
pub mod physics_system;
pub mod player_system;
pub mod prefab_system;
pub mod renderer_system;
pub mod scene_system;
pub mod tilemap_system;
pub mod time_keeper;
pub mod vec2_int;
pub mod vec_iter;
