use clockwork::ecs::{ComponentList, Entity};
use clockwork::editor_windows::{
    apply_entity_list_action, close_entity_inspectors, close_prefab_editor, loose_entity_entries,
    EntityListAction,
};
use clockwork::imgui_component::PrefabStatus;
use clockwork::imgui_utility::{
    create_window, imgui_str, input_isize, input_usize, main_menu_bar, menu_option, ImGuiFlags,
    option_selection_none, option_selection_some, MainMenuClicks, SceneNames,
};
use clockwork::input_system::{
    apply_input_event, mouse_button_index, record_mouse_press, record_mouse_release, InputEvent,
    InputState, MouseButton, MouseInput,
};
use clockwork::tilemap_system::{
    propogate_dirty_tilesets_to_tilemaps, TileSet,
    collision_tiles, give_dirty_tilemaps_new_tilesets, initialize_tilemaps, paint_stroke, tilemap_editing,
    fill_collision_boxes, tile_to_edit, update_tilemaps_and_tilesets, EditingMode, Tile, TileSets,
    Tilemap,
};
use clockwork::vec2_int::Vec2Int;

#[test]
fn imgui_str_joins_with_hashes() {
    assert_eq!(imgui_str("Serialize", "17"), "Serialize##17");
    assert_eq!(imgui_str("", ""), "##");
}

#[test]
fn input_usize_clamps_negatives() {
    let mut v = 5usize;
    assert!(!input_usize(&mut v, None));
    assert_eq!(v, 5);
    assert!(input_usize(&mut v, Some(-3)));
    assert_eq!(v, 0);
    assert!(input_usize(&mut v, Some(42)));
    assert_eq!(v, 42);
}

#[test]
fn input_isize_takes_entry() {
    let mut v = 5isize;
    assert!(!input_isize(&mut v, None));
    assert_eq!(v, 5);
    assert!(input_isize(&mut v, Some(-3)));
    assert_eq!(v, -3);
}

#[test]
fn flags_insert_remove_toggle() {
    let mut f = ImGuiFlags::empty();
    let tk = ImGuiFlags::from_bits(ImGuiFlags::TIME_KEEPER);
    let ev = ImGuiFlags::from_bits(ImGuiFlags::ENTITY_VIEWER);
    assert!(!f.contains(tk));
    f.insert(tk);
    assert!(f.contains(tk));
    f.insert(ev);
    assert_eq!(f.bits, 0b0000_1001);
    f.remove(tk);
    assert!(!f.contains(tk));
    assert!(f.contains(ev));
    f.toggle(ev);
    f.toggle(ev);
    assert_eq!(f.bits, 0b0000_1000);
}

#[test]
fn closing_a_window_clears_its_flag() {
    let sing = ImGuiFlags::from_bits(ImGuiFlags::SINGLETONS);
    let mut f = ImGuiFlags::from_bits(ImGuiFlags::SINGLETONS | ImGuiFlags::GAME_CONFIG);
    let mut drawn = 0;
    create_window(&mut f, sing, || {
        drawn += 1;
        true
    });
    assert!(f.contains(sing));
    create_window(&mut f, sing, || {
        drawn += 1;
        false
    });
    assert!(!f.contains(sing));
    create_window(&mut f, sing, || {
        drawn += 1;
        true
    });
    assert_eq!(drawn, 2);
    assert_eq!(f.bits, ImGuiFlags::GAME_CONFIG);
}

#[test]
fn menu_entries_toggle() {
    let mut f = ImGuiFlags::empty();
    let pi = ImGuiFlags::from_bits(ImGuiFlags::PREFAB_INSPECTOR);
    menu_option(pi, &mut f, false);
    assert!(!f.contains(pi));
    menu_option(pi, &mut f, true);
    assert!(f.contains(pi));
    let none = clicks(false, false);
    let names = SceneNames {
        switch_scene_name: "1".to_string(),
        create_scene: "2".to_string(),
        delete_scene_name: "3".to_string(),
    };
    assert!(!main_menu_bar(false, &mut f, &none, &names).shown);
    assert!(main_menu_bar(true, &mut f, &none, &names).shown);
    assert!(main_menu_bar(false, &mut f, &none, &names).shown);
    assert!(!main_menu_bar(true, &mut f, &none, &names).shown);
    assert_eq!(f.bits, ImGuiFlags::PREFAB_INSPECTOR);

    // A hidden bar ignores its clicks.
    let out = main_menu_bar(false, &mut f, &clicks(true, true), &names);
    assert!(!out.shown && out.switch_scene.is_none());
    assert_eq!(f.bits, ImGuiFlags::PREFAB_INSPECTOR);

    // A shown bar toggles the clicked windows and passes on the scene names.
    let out = main_menu_bar(true, &mut f, &clicks(true, true), &names);
    assert!(out.shown);
    assert_eq!(out.switch_scene, Some("1".to_string()));
    assert_eq!(out.create_scene, None);
    assert_eq!(out.delete_scene, Some("3".to_string()));
    assert_eq!(f.bits, ImGuiFlags::MAIN_MENU_BAR | ImGuiFlags::TIME_KEEPER | ImGuiFlags::ENTITY_VIEWER);
    let _ = (ImGuiFlags::SPRITE_RESOURCE, ImGuiFlags::TILEMAP_RESOURCE);
}

fn mouse() -> MouseInput {
    MouseInput { mouse_pressed: vec![false; 5], mouse_held: vec![false; 5], mouse_released: vec![false; 5] }
}

#[test]
fn mouse_press_and_release() {
    assert_eq!(mouse_button_index(MouseButton::Left), 0);
    assert_eq!(mouse_button_index(MouseButton::Right), 1);
    assert_eq!(mouse_button_index(MouseButton::Middle), 2);
    assert_eq!(mouse_button_index(MouseButton::Other(4)), 4);
    let mut m = mouse();
    let last = vec![false; 5];
    record_mouse_press(&mut m, &last, MouseButton::Right);
    assert!(m.mouse_pressed[1] && m.mouse_held[1] && !m.mouse_released[1]);
    record_mouse_release(&mut m, MouseButton::Right);
    assert!(!m.mouse_pressed[1] && !m.mouse_held[1] && m.mouse_released[1]);
}

#[test]
fn press_held_from_last_frame_is_ignored_and_stray_release_too() {
    let mut m = mouse();
    let mut last = vec![false; 5];
    last[0] = true;
    record_mouse_press(&mut m, &last, MouseButton::Left);
    assert!(!m.mouse_pressed[0] && !m.mouse_held[0]);
    record_mouse_release(&mut m, MouseButton::Left);
    assert!(!m.mouse_released[0]);
}

fn e(i: u32) -> Entity {
    Entity::new(i, 0)
}

#[test]
fn tilesets_insert_and_get() {
    let mut t = TileSets::new();
    t.insert("grass".to_string(), 1u32);
    t.insert("rock".to_string(), 2u32);
    t.insert("grass".to_string(), 3u32);
    assert_eq!(t.get(&"grass".to_string()), Some(&3));
    assert_eq!(t.get(&"rock".to_string()), Some(&2));
    assert_eq!(t.get(&"sand".to_string()), None);
}

#[test]
fn tilemaps_receive_requested_tilesets() {
    let mut t = TileSets::new();
    t.insert("grass".to_string(), 10u32);
    let mut maps = ComponentList::new();
    maps.set(&e(1), Tilemap::new(Some(1u32), Some(Some("grass".to_string())), Vec2Int::new(0, 0)));
    maps.set(&e(2), Tilemap::new(Some(2u32), Some(None), Vec2Int::new(0, 0)));
    maps.set(&e(3), Tilemap::new(Some(3u32), None, Vec2Int::new(0, 0)));
    give_dirty_tilemaps_new_tilesets(&mut maps, &t);
    assert_eq!(maps.get(&e(1)).unwrap().inner().tileset, Some(10));
    assert_eq!(maps.get(&e(2)).unwrap().inner().tileset, None);
    assert_eq!(maps.get(&e(3)).unwrap().inner().tileset, Some(3));
    for i in 1..4 {
        assert_eq!(maps.get(&e(i)).unwrap().inner().new_tileset, None);
    }
    maps.set(&e(3), Tilemap::new(None, Some(Some("grass".to_string())), Vec2Int::new(0, 0)));
    initialize_tilemaps(&mut maps, &t);
    assert_eq!(maps.get(&e(3)).unwrap().inner().tileset, Some(10));
}

#[test]
fn painting_each_tile_once_per_stroke() {
    let mut memo = Vec::new();
    let a = Vec2Int::new(1, 2);
    let b = Vec2Int::new(2, 2);
    assert_eq!(paint_stroke(&mut memo, Some(a), false), Some(a));
    assert_eq!(paint_stroke(&mut memo, Some(a), false), None);
    assert_eq!(paint_stroke(&mut memo, Some(b), false), Some(b));
    assert_eq!(memo, vec![a, b]);
    assert_eq!(paint_stroke(&mut memo, None, false), None);
    assert_eq!(paint_stroke(&mut memo, Some(a), true), None);
    assert!(memo.is_empty());
    assert_eq!(paint_stroke(&mut memo, Some(a), false), Some(a));
}

#[test]
fn painting_writes_tiles_and_asks_for_new_boxes() {
    let mut maps = ComponentList::new();
    let mut painted: Tilemap<u32> = Tilemap::new(Some(1), None, Vec2Int::new(3, 2));
    painted.tiles = vec![None; 4];
    painted.edit_mode = EditingMode::Editing(Some(Tile { index: 5 }), Vec::new());
    let mut idle: Tilemap<u32> = Tilemap::new(Some(1), None, Vec2Int::new(2, 2));
    idle.tiles = vec![Some(Tile { index: 1 }); 6];
    maps.set(&e(1), painted);
    maps.set(&e(2), idle);

    // Offset (2, 1) is tile 1 * 3 + 2 = 5; the idle tilemap is cut to 4 tiles.
    tilemap_editing(&mut maps, &vec![Some(Vec2Int::new(2, 1)), None], false);
    let first = maps.get(&e(1)).unwrap().inner();
    assert_eq!(first.tiles.len(), 6);
    assert_eq!(first.tiles[5], Some(Tile { index: 5 }));
    assert_eq!(first.tiles[..5].to_vec(), vec![None; 5]);
    assert!(first.rebuild_collision_boxes);
    match &first.edit_mode {
        EditingMode::Editing(_, memo) => assert_eq!(memo, &vec![Vec2Int::new(2, 1)]),
        EditingMode::NotEditing => panic!("still editing"),
    }
    let second = maps.get(&e(2)).unwrap().inner();
    assert_eq!(second.tiles, vec![Some(Tile { index: 1 }); 4]);
    assert!(!second.rebuild_collision_boxes);

    // The same offset is not painted twice in one stroke; releasing ends it.
    tilemap_editing(&mut maps, &vec![Some(Vec2Int::new(2, 1)), None], true);
    match &maps.get(&e(1)).unwrap().inner().edit_mode {
        EditingMode::Editing(_, memo) => assert!(memo.is_empty()),
        EditingMode::NotEditing => panic!("still editing"),
    }
}

#[test]
fn collision_boxes_come_from_the_non_empty_tiles() {
    let mut map: Tilemap<u32> = Tilemap::new(Some(1), None, Vec2Int::new(2, 2));
    map.tiles = vec![Some(Tile { index: 3 }), None, None, Some(Tile { index: 0 })];
    assert_eq!(collision_tiles(&mut map, Some(4)), None);
    map.rebuild_collision_boxes = true;
    assert_eq!(collision_tiles(&mut map, Some(4)), Some(vec![(0, 3), (3, 0)]));
    assert!(!map.rebuild_collision_boxes);
    map.rebuild_collision_boxes = true;
    assert_eq!(collision_tiles(&mut map, None), Some(vec![]));
}

fn tileset(name: &str, sprite: Option<u8>, boxes: Option<Vec<u8>>) -> TileSet<u8, u8> {
    TileSet {
        name: name.to_string(),
        sprite,
        next_sprite: None,
        visual_dirty: false,
        physics_dirty: false,
        revert: false,
        bounding_boxes: boxes,
    }
}

#[test]
fn edited_tilesets_are_taken_up_by_their_tilemaps() {
    let mut sprites = TileSets::new();
    sprites.insert("moss".to_string(), 42u8);
    let mut resources = TileSets::new();
    let mut grass = tileset("grass", Some(1), Some(vec![0, 0]));
    grass.visual_dirty = true;
    grass.next_sprite = Some(Some("moss".to_string()));
    resources.insert("grass".to_string(), grass);
    let mut rock = tileset("rock", Some(2), None);
    rock.next_sprite = Some(None);
    resources.insert("rock".to_string(), rock);
    let mut water = tileset("water", None, Some(vec![0]));
    water.physics_dirty = true;
    resources.insert("water".to_string(), water);

    let mut maps = ComponentList::new();
    maps.set(&e(1), Tilemap::new(Some(tileset("grass", Some(1), Some(vec![0, 0]))), None, Vec2Int::new(0, 0)));
    maps.set(&e(2), Tilemap::new(Some(tileset("rock", Some(2), None)), None, Vec2Int::new(0, 0)));
    maps.set(&e(3), Tilemap::new(Some(tileset("water", None, None)), None, Vec2Int::new(0, 0)));
    propogate_dirty_tilesets_to_tilemaps(&mut maps, &mut resources, &sprites);

    // The grass tileset took its new picture; its tilemap took it up again.
    let grass_now = resources.get(&"grass".to_string()).unwrap();
    assert_eq!(grass_now.sprite, Some(42));
    assert_eq!(grass_now.next_sprite, None);
    assert!(!grass_now.visual_dirty);
    let first = maps.get(&e(1)).unwrap().inner();
    assert_eq!(first.tileset.as_ref().unwrap().sprite, Some(42));
    assert!(first.rebuild_collision_boxes);
    // The rock tileset was not edited: its request waits, its tilemap stays.
    let rock_now = resources.get(&"rock".to_string()).unwrap();
    assert_eq!(rock_now.next_sprite, Some(None));
    assert_eq!(rock_now.sprite, Some(2));
    assert!(!maps.get(&e(2)).unwrap().inner().rebuild_collision_boxes);
    // A physics edit hands the new boxes on.
    let third = maps.get(&e(3)).unwrap().inner();
    assert_eq!(third.tileset.as_ref().unwrap().bounding_boxes, Some(vec![0]));
    assert!(third.rebuild_collision_boxes);
    assert!(!resources.get(&"water".to_string()).unwrap().physics_dirty);
}

#[test]
fn a_frame_of_tilemaps_takes_up_tilesets_paints_and_builds_boxes() {
    let sprites: TileSets<u8> = TileSets::new();
    let mut resources = TileSets::new();
    resources.insert("grass".to_string(), tileset("grass", Some(1), Some(vec![0, 0, 0])));
    let mut map = Tilemap::new(None, Some(Some("grass".to_string())), Vec2Int::new(2, 1));
    map.edit_mode = EditingMode::Editing(Some(Tile { index: 2 }), Vec::new());
    let mut idle = Tilemap::new(Some(tileset("grass", Some(1), Some(vec![0, 0, 0]))), None, Vec2Int::new(1, 1));
    idle.tiles = vec![Some(Tile { index: 0 })];
    idle.rebuild_collision_boxes = true;
    let mut maps = ComponentList::new();
    maps.set(&e(1), map);
    maps.set(&e(2), idle);
    let mut transforms = ComponentList::new();
    transforms.set(&e(1), 5u8);

    let lists = update_tilemaps_and_tilesets(
        &mut maps,
        &mut resources,
        &sprites,
        &vec![Some(Vec2Int::new(1, 0)), None],
        false,
        &mut transforms,
        0u8,
    );
    let first = maps.get(&e(1)).unwrap().inner();
    assert_eq!(first.tileset.as_ref().unwrap().name, "grass");
    assert_eq!(first.tiles, vec![None, Some(Tile { index: 2 })]);
    assert!(!first.rebuild_collision_boxes);
    assert!(!maps.get(&e(2)).unwrap().inner().rebuild_collision_boxes);
    assert_eq!(lists, vec![Some(vec![(1, 2)]), Some(vec![(0, 0)])]);
    // The tilemap without a transform got the default one.
    assert_eq!(*transforms.get(&e(1)).unwrap().inner(), 5);
    assert_eq!(*transforms.get(&e(2)).unwrap().inner(), 0);

    // Nothing asks for new boxes in the next frame.
    let lists = update_tilemaps_and_tilesets(&mut maps, &mut resources, &sprites, &vec![None, None], true, &mut transforms, 0u8);
    assert_eq!(lists, vec![None, None]);
}

#[test]
fn closing_inspector_windows_forgets_the_last_closed() {
    let mut ids = vec![e(1), e(2), e(3)];
    close_entity_inspectors(&mut ids, &vec![false, false, false]);
    assert_eq!(ids, vec![e(1), e(2), e(3)]);
    close_entity_inspectors(&mut ids, &vec![true, false, true]);
    assert_eq!(ids, vec![e(1), e(2)]);
}

#[test]
fn entity_list_toggles_and_deletes_inspectors() {
    let mut ids = vec![e(1)];
    assert_eq!(apply_entity_list_action(&mut ids, Some((e(2), EntityListAction::ToggleInspect))), None);
    assert!(ids.contains(&e(2)));
    assert_eq!(apply_entity_list_action(&mut ids, Some((e(1), EntityListAction::ToggleInspect))), None);
    assert_eq!(ids, vec![e(2)]);
    assert_eq!(apply_entity_list_action(&mut ids, Some((e(2), EntityListAction::Delete))), Some(e(2)));
    assert!(ids.is_empty());
    assert_eq!(apply_entity_list_action(&mut ids, Some((e(3), EntityListAction::Delete))), Some(e(3)));
    assert_eq!(apply_entity_list_action(&mut ids, Some((e(3), EntityListAction::LogEntity))), None);
    assert_eq!(apply_entity_list_action(&mut ids, None), None);
    assert!(ids.is_empty());
}

#[test]
fn closing_a_prefab_editor_drops_its_first_entry() {
    let mut open = vec![7u128, 9, 7];
    close_prefab_editor(&mut open, None);
    assert_eq!(open, vec![7, 9, 7]);
    close_prefab_editor(&mut open, Some(7));
    assert_eq!(open, vec![9, 7]);
    close_prefab_editor(&mut open, Some(4));
    assert_eq!(open, vec![9, 7]);
}

#[test]
fn window_events_update_the_input_state() {
    let mut input = InputState {
        end_requested: false,
        mouse_input: MouseInput {
            mouse_pressed: vec![false; 5],
            mouse_held: vec![false; 5],
            mouse_released: vec![false; 5],
        },
    };
    let clicked = vec![false, true, false, false, false];
    assert!(!apply_input_event(&mut input, &clicked, InputEvent::MousePressed(MouseButton::Left)));
    assert!(input.mouse_input.mouse_pressed[0] && input.mouse_input.mouse_held[0]);
    // A button still down since last frame is not pressed again.
    assert!(!apply_input_event(&mut input, &clicked, InputEvent::MousePressed(MouseButton::Right)));
    assert!(!input.mouse_input.mouse_pressed[1]);
    assert!(!apply_input_event(&mut input, &clicked, InputEvent::MouseReleased(MouseButton::Left)));
    assert!(input.mouse_input.mouse_released[0] && !input.mouse_input.mouse_held[0]);
    assert!(!apply_input_event(&mut input, &clicked, InputEvent::CursorMoved));
    assert!(!input.end_requested);
    assert!(apply_input_event(&mut input, &clicked, InputEvent::MainEventsCleared));
    assert!(!input.end_requested);
    assert!(apply_input_event(&mut input, &clicked, InputEvent::CloseRequested));
    assert!(input.end_requested);
}

/// Clicks on the scene buttons (switch and delete when `scenes`) and on
/// the time keeper, prefab inspector and component inspector items (when
/// `windows`).
fn clicks(scenes: bool, windows: bool) -> MainMenuClicks {
    MainMenuClicks {
        switch_scene: scenes,
        create_scene: false,
        delete_scene: scenes,
        component_inspector: windows,
        singleton_inspector: false,
        sprite_inspector: false,
        tile_set_inspector: false,
        prefab_inspector: windows,
        time_keeper: windows,
        game_config: false,
    }
}

#[test]
fn loose_entities_are_listed_after_the_scene_graph() {
    let mut prefab_markers = ComponentList::new();
    prefab_markers.set(&e(3), 0u8);
    let mut serialization_markers = ComponentList::new();
    serialization_markers.set(&e(1), 0u8);
    let entries = loose_entity_entries(
        &vec![e(1), e(2), e(3), e(4)],
        &vec![e(2)],
        &prefab_markers,
        &serialization_markers,
        &vec![e(4)],
    );
    let listed: Vec<Entity> = entries.iter().map(|(x, _)| *x).collect();
    assert_eq!(listed, vec![e(1), e(3), e(4)]);
    assert!(entries[0].1.is_serialized && !entries[0].1.being_inspected);
    assert_eq!(entries[0].1.prefab_status, PrefabStatus::NoPrefab);
    assert_eq!(entries[1].1.prefab_status, PrefabStatus::PrefabInstance);
    assert!(!entries[1].1.is_serialized);
    assert!(entries[2].1.being_inspected);
    assert_eq!(entries[2].1.depth, 0);
    assert!(!entries[2].1.has_children);
}

#[test]
fn the_tile_to_edit_stays_in_the_tileset() {
    assert_eq!(tile_to_edit(2, None, 5), 2);
    assert_eq!(tile_to_edit(2, Some(3), 5), 3);
    assert_eq!(tile_to_edit(2, Some(9), 5), 4);
    assert_eq!(tile_to_edit(2, Some(-4), 5), 0);
    assert_eq!(tile_to_edit(2, Some(3), 0), 0);
    // The count is taken as an `i32`, as the viewer does.
    assert_eq!(tile_to_edit(2, Some(9), 0x1_0000_0003usize), 2);
    assert_eq!(tile_to_edit(2, Some(9), 0x8000_0000usize), 0);
}

#[test]
fn a_collidable_tileset_gets_a_box_per_tile() {
    let mut boxes: Vec<u8> = Vec::new();
    fill_collision_boxes(&mut boxes, 3, 7);
    assert_eq!(boxes, vec![7, 7, 7]);
    fill_collision_boxes(&mut boxes, 5, 1);
    assert_eq!(boxes, vec![7, 7, 7]);
}

#[test]
fn optional_values_are_filled_and_emptied() {
    let mut v: Option<u32> = None;
    assert_eq!(option_selection_some(&mut v, false), (false, false));
    assert_eq!(option_selection_some(&mut v, true), (true, true));
    assert_eq!(v, Some(0));
    v = Some(7);
    assert_eq!(option_selection_some(&mut v, true), (false, true));
    assert_eq!(v, Some(7));
    assert_eq!(option_selection_none(&mut v, false), (false, false));
    assert_eq!(option_selection_none(&mut v, true), (true, true));
    assert_eq!(v, None);
    assert_eq!(option_selection_none(&mut v, true), (false, true));
}
