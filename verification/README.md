# clockwork

The logic of a small 2D game engine and its in-game editor, written in
Verus and verified.

- `src/` is the verified library. Each system works on `ComponentList`s
  (at most one component per entity, in iteration order) and states its
  effect exactly over their sequence views: grid movement with pushing
  (`grid_system`), switching the controlled player (`player_system`),
  binding bounding boxes to sprites and draw rectangles to bounding boxes
  (`cross_cutting_system`), prefab inheritance and overrides
  (`prefab_system`), tilesets, tiles, painting and collision tiles of
  tilemaps (`tilemap_system`), the editor's windows and menus
  (`editor_windows`, `imgui_utility`, `imgui_component`), window events
  (`input_system`), and the decisions taken by the render and timing code.
- The grid is an `array2d::Array2D`; the few calls into it are the only
  trusted items, each with a contract read off the crate's source.
- `app/` holds what works on `f32` (vectors, rectangles, colours, collision
  tests, world/grid conversions, frame timing), the serializable copies of
  the direction enums, and the glue that hands the library each frame's
  window events and editor clicks and runs the player, grid and tilemap
  systems after checking the conditions their functions rely on.
- `tests/` runs the library on concrete values.
