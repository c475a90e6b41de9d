use std::collections::HashMap;

use clockwork::conversant_npc_system::{apply_conversation_change, initial_ui_requests, update_conv_npc_ui_sprites, ConversantView};
use clockwork::ecs::{Component, ComponentList, Entity};
use clockwork::imgui_component::{
    add_menu_item_kind, can_create_prefab, handle_serialization_command, prefab_status,
    component_inspector_right_click, entity_inspector_post_action, serialization_menu,
    serialization_option,
    ComponentInspectorPostAction, ComponentMenuChoice, ComponentMenuClicks, SyncStatus,
    ComponentSerializationCommandType, EntitySerializationCommand, EntitySerializationCommandType,
    PrefabStatus,
};
use clockwork::imgui_utility::{select_entity, select_entity_option};
use clockwork::input_system::{accepts_input_character, imgui_mouse_slot, MouseButton};
use clockwork::prefab_system::{
    apply_prefab_component_result, clear_inherited_component,
    get_serialized_parent_prefab_from_inheritor, load_override_into_prefab, PrefabComponentInspectorResult,
    prefab_member_inheritors, remove_component_from_instances,
    update_component_of_instances, Prefab, PrefabMarker, SerializedComponent,
    SerializedEntity,
};
use clockwork::renderer_system::{assign_texture_page, blank_glyph_texture};
use clockwork::scene_system::{scene_path, set_next_scene};
use clockwork::time_keeper::FrameCounter;

fn npc(ui_ready: bool, close_enough: bool, has_text_prefab: bool) -> ConversantView<u8> {
    ConversantView { ui_ready, close_enough, has_text_prefab, color_on_close: 1, color_on_far: 2 }
}

#[test]
fn conversant_tints_and_last_close_npc_wins() {
    let npcs = vec![npc(true, true, true), npc(false, true, true), npc(true, false, true), npc(true, true, true), npc(true, true, false)];
    let (tints, conversation) = update_conv_npc_ui_sprites(&npcs, true);
    assert_eq!(tints, vec![Some(1), None, Some(2), Some(1), Some(1)]);
    assert_eq!(conversation, Some(3));
    let (_, conversation) = update_conv_npc_ui_sprites(&npcs, false);
    assert_eq!(conversation, None);
    let (tints, conversation) = update_conv_npc_ui_sprites(&Vec::<ConversantView<u8>>::new(), true);
    assert!(tints.is_empty() && conversation.is_none());
}

#[test]
fn texture_pages_are_assigned_once() {
    let mut page = None;
    assert_eq!(assign_texture_page(&mut page, 4), (4, true));
    assert_eq!(page, Some(4));
    assert_eq!(assign_texture_page(&mut page, 9), (4, false));
    assert_eq!(blank_glyph_texture(2, 3), vec![0u8; 24]);
    assert_eq!(blank_glyph_texture(0, 3), Vec::<u8>::new());
}

#[test]
fn imgui_mouse_slots() {
    assert_eq!(imgui_mouse_slot(MouseButton::Left), Some(0));
    assert_eq!(imgui_mouse_slot(MouseButton::Right), Some(1));
    assert_eq!(imgui_mouse_slot(MouseButton::Middle), Some(2));
    assert_eq!(imgui_mouse_slot(MouseButton::Other(4)), Some(4));
    assert_eq!(imgui_mouse_slot(MouseButton::Other(5)), None);
}

#[test]
fn frame_counter_counts_per_second() {
    let mut c = FrameCounter::new();
    c.start_frame(false);
    c.start_frame(false);
    c.start_frame(true);
    assert_eq!((c.tick_count, c.fps, c.last_tick), (3, 3, 3));
    c.start_frame(false);
    c.start_frame(true);
    assert_eq!((c.tick_count, c.fps, c.last_tick), (5, 2, 5));
}

#[test]
fn next_scene_only_when_it_exists() {
    let mut next = Some("1".to_string());
    assert!(!set_next_scene(&mut next, "missing".to_string(), false));
    assert_eq!(next.as_deref(), Some("1"));
    assert!(set_next_scene(&mut next, "2".to_string(), true));
    assert_eq!(next.as_deref(), Some("2"));
}

#[test]
fn scene_paths() {
    assert_eq!(scene_path("Actor", true, "assets/prefabs", "assets/scenes"), "assets/prefabs/Actor.prefab");
    assert_eq!(scene_path("1", false, "assets/prefabs", "assets/scenes"), "assets/scenes/1");
}

#[test]
fn prefab_status_rules() {
    assert_eq!(prefab_status(true, true), PrefabStatus::Prefab);
    assert_eq!(prefab_status(true, false), PrefabStatus::Prefab);
    assert_eq!(prefab_status(false, true), PrefabStatus::PrefabInstance);
    assert_eq!(prefab_status(false, false), PrefabStatus::NoPrefab);
    assert_eq!(PrefabStatus::default(), PrefabStatus::NoPrefab);
    assert_eq!(add_menu_item_kind(PrefabStatus::PrefabInstance), "Override");
    assert_eq!(add_menu_item_kind(PrefabStatus::Prefab), "Component");
    assert!(can_create_prefab(PrefabStatus::NoPrefab));
    assert!(!can_create_prefab(PrefabStatus::PrefabInstance));
}

fn member(id: u128, data: &str) -> SerializedEntity<String> {
    SerializedEntity { id, prefab_marker: None, data: data.to_string() }
}

#[test]
fn parent_prefab_member_is_loaded_with_marker() {
    let mut members = HashMap::new();
    members.insert(7u128, member(7, "actor"));
    let mut prefabs = HashMap::new();
    prefabs.insert(100u128, Prefab { members });
    let marker = PrefabMarker { main_id: 100, sub_id: 7 };
    assert_eq!((marker.main_id(), marker.sub_id()), (100, 7));
    let component = Component::new(&Entity::new(1, 0), marker);
    let mut se = member(0, "blank");
    assert!(get_serialized_parent_prefab_from_inheritor(Some(&component), &prefabs, &mut se));
    assert_eq!(se.id, 7);
    assert_eq!(se.data, "actor");
    assert_eq!(se.prefab_marker, Some(SerializedComponent { active: true, inner: marker }));
}

#[test]
fn missing_prefab_or_member_leaves_entity_alone() {
    let mut prefabs = HashMap::new();
    prefabs.insert(100u128, Prefab { members: HashMap::new() });
    let mut se = member(0, "blank");
    assert!(!get_serialized_parent_prefab_from_inheritor(None, &prefabs, &mut se));
    let no_member = Component::new(&Entity::new(1, 0), PrefabMarker { main_id: 100, sub_id: 7 });
    assert!(!get_serialized_parent_prefab_from_inheritor(Some(&no_member), &prefabs, &mut se));
    let no_prefab = Component::new(&Entity::new(1, 0), PrefabMarker { main_id: 5, sub_id: 7 });
    assert!(!get_serialized_parent_prefab_from_inheritor(Some(&no_prefab), &prefabs, &mut se));
    assert_eq!((se.id, se.data.as_str(), se.prefab_marker), (0, "blank", None));
}

#[test]
fn prefab_edits_reach_instances_only() {
    let e = |i: u32| Entity::new(i, 0);
    let mut markers = ComponentList::new();
    markers.set(&e(1), PrefabMarker { main_id: 100, sub_id: 1 });
    markers.set(&e(2), PrefabMarker { main_id: 200, sub_id: 1 });
    markers.set(&e(4), PrefabMarker { main_id: 100, sub_id: 2 });
    let mut comps = ComponentList::new();
    comps.set(&e(1), 10u32);
    comps.set(&e(2), 20u32);
    comps.set(&e(3), 30u32);
    update_component_of_instances(&markers, 100, &77u32, &mut comps);
    assert_eq!(*comps.get(&e(1)).unwrap().inner(), 77);
    assert_eq!(*comps.get(&e(2)).unwrap().inner(), 20);
    assert_eq!(*comps.get(&e(3)).unwrap().inner(), 30);
    assert!(comps.get(&e(4)).is_none());
    remove_component_from_instances(&markers, 100, &mut comps);
    assert!(comps.get(&e(1)).is_none());
    assert_eq!(comps.len(), 2);
    assert_eq!(comps.at(0).entity_id(), e(2));
    assert_eq!(comps.at(1).entity_id(), e(3));
}

#[test]
fn delete_character_is_not_typed() {
    assert!(accepts_input_character('a'));
    assert!(accepts_input_character('\u{8}'));
    assert!(!accepts_input_character('\u{7f}'));
}

#[test]
fn initial_ui_requests_skip_npcs_without_prefab() {
    let mut npcs = ComponentList::new();
    npcs.set(&Entity::new(1, 0), Some(10u128));
    npcs.set(&Entity::new(2, 0), None);
    npcs.set(&Entity::new(3, 0), Some(30u128));
    assert_eq!(
        initial_ui_requests(&npcs),
        vec![(Entity::new(1, 0), 10), (Entity::new(3, 0), 30)]
    );
}

#[test]
fn serialization_commands_carry_the_right_delta() {
    let e = Entity::new(4, 1);
    let key = "transform".to_string();
    let now = Some("x: 1".to_string());
    let saved = Some(Some("x: 0".to_string()));
    let parent = Some(Some("x: 1".to_string()));

    // Serializing a component equal to the parent's stores null.
    let c = handle_serialization_command(e, ComponentSerializationCommandType::Serialize, now.clone(), saved.clone(), parent.clone(), key.clone());
    assert_eq!(c.delta, None);
    assert_eq!(c.key, "transform");
    assert_eq!(c.entity, e);
    let c = handle_serialization_command(e, ComponentSerializationCommandType::Serialize, now.clone(), saved.clone(), Some(Some("x: 2".to_string())), key.clone());
    assert_eq!(c.delta, now);
    let c = handle_serialization_command(e, ComponentSerializationCommandType::Serialize, now.clone(), saved.clone(), None, key.clone());
    assert_eq!(c.delta, now);
    let c = handle_serialization_command(e, ComponentSerializationCommandType::StopSerializing, now.clone(), saved.clone(), parent.clone(), key.clone());
    assert_eq!(c.delta, None);
    let c = handle_serialization_command(e, ComponentSerializationCommandType::Revert, now.clone(), saved.clone(), parent.clone(), key.clone());
    assert_eq!(c.delta, Some("x: 0".to_string()));
    let c = handle_serialization_command(e, ComponentSerializationCommandType::Revert, now.clone(), None, parent.clone(), key.clone());
    assert_eq!(c.delta, None);
    let c = handle_serialization_command(e, ComponentSerializationCommandType::ApplyOverrideToParentPrefab, now.clone(), saved.clone(), None, key.clone());
    assert_eq!(c.delta, now);
    let c = handle_serialization_command(e, ComponentSerializationCommandType::RevertToParentPrefab, None, saved.clone(), Some(Some("x: 5".to_string())), key.clone());
    assert_eq!(c.delta, Some("x: 5".to_string()));
    assert_eq!(c.command_type, ComponentSerializationCommandType::RevertToParentPrefab);
}

#[test]
fn entity_popups_choose_and_close() {
    let es = [Entity::new(1, 0), Entity::new(2, 0), Entity::new(3, 0)];
    assert_eq!(select_entity_option(&es, &vec![false, false, false], false, false), (None, false));
    assert_eq!(select_entity_option(&es, &vec![false, false, false], false, true), (None, true));
    assert_eq!(select_entity_option(&es, &vec![true, false, true], false, false), (Some(Some(es[2])), true));
    assert_eq!(select_entity_option(&es, &vec![false, true, false], true, false), (Some(None), true));
    assert_eq!(select_entity(&es, &vec![false, true, false], false, false), (Some(es[1]), true));
    assert_eq!(select_entity(&es, &vec![false, true, false], true, false), (None, true));
    assert_eq!(select_entity(&es, &vec![false, false, false], false, false), (None, false));
}

#[test]
fn inheritors_of_a_prefab_member_are_found_in_order() {
    let (a, b, c, d) = (Entity::new(1, 0), Entity::new(2, 0), Entity::new(3, 0), Entity::new(4, 0));
    let mut markers = ComponentList::new();
    markers.set(&c, PrefabMarker { main_id: 7, sub_id: 1 });
    markers.set(&a, PrefabMarker { main_id: 7, sub_id: 1 });
    markers.set(&b, PrefabMarker { main_id: 7, sub_id: 2 });
    let mut serialization_ids = ComponentList::new();
    serialization_ids.set(&a, 500u128);
    let found = prefab_member_inheritors(&vec![a, b, c, d], &markers, &serialization_ids, 7, 1);
    assert_eq!(found, vec![(a, Some(500)), (c, None)]);
    assert!(prefab_member_inheritors(&vec![a, b, c, d], &markers, &serialization_ids, 8, 1).is_empty());
}

#[test]
fn an_override_replaces_only_its_non_null_fields() {
    let f = |k: &str, v: Option<&str>| (k.to_string(), v.map(|x| x.to_string()));
    let prefab = vec![f("name", Some("Actor")), f("transform", Some("x: 0")), f("sprite", None)];
    let over = vec![f("transform", Some("x: 3")), f("name", None), f("velocity", Some("y: 1"))];
    let merged = load_override_into_prefab(prefab, over);
    assert_eq!(
        merged,
        vec![f("name", Some("Actor")), f("transform", Some("x: 3")), f("sprite", None), f("velocity", Some("y: 1"))]
    );
}

#[test]
fn a_started_conversation_gets_its_new_ui() {
    let (npc, old_ui, new_ui, other) = (Entity::new(1, 0), Entity::new(2, 0), Entity::new(3, 0), Entity::new(4, 0));
    let mut runtime_uis = ComponentList::new();
    runtime_uis.set(&npc, Some(old_ui));
    runtime_uis.set(&other, None);
    let mut follows = ComponentList::new();
    follows.set(&new_ui, None);
    apply_conversation_change(&mut runtime_uis, &mut follows, npc, new_ui);
    assert_eq!(*runtime_uis.get(&npc).unwrap().inner(), Some(new_ui));
    assert_eq!(*runtime_uis.get(&other).unwrap().inner(), None);
    assert_eq!(*follows.get(&new_ui).unwrap().inner(), Some(npc));

    // A new UI that cannot follow is left without a target.
    let mut no_follows: ComponentList<Option<Entity>> = ComponentList::new();
    apply_conversation_change(&mut runtime_uis, &mut no_follows, npc, old_ui);
    assert_eq!(no_follows.len(), 0);
    assert_eq!(*runtime_uis.get(&npc).unwrap().inner(), Some(old_ui));
}

fn menu_choice(key: &str, command_type: ComponentSerializationCommandType) -> Option<ComponentMenuChoice> {
    Some(ComponentMenuChoice {
        command_type,
        key: key.to_string(),
        current: Some("now".to_string()),
        saved: Some(Some("saved".to_string())),
        parent: None,
    })
}

#[test]
fn the_serialization_menu_takes_the_last_choice_and_entity_buttons_win() {
    let e = Entity::new(9, 0);
    let none = serialization_menu(e, 77, vec![None, None], false, false);
    assert!(none.is_none());

    let choices = vec![
        menu_choice("sprite", ComponentSerializationCommandType::Serialize),
        None,
        menu_choice("transform", ComponentSerializationCommandType::Revert),
        None,
    ];
    match serialization_menu(e, 77, choices, false, false) {
        Some(ComponentInspectorPostAction::ComponentCommands(c)) => {
            assert_eq!(c.key, "transform");
            assert_eq!(c.command_type, ComponentSerializationCommandType::Revert);
            assert_eq!(c.delta, Some("saved".to_string()));
            assert_eq!(c.entity, e);
        }
        _ => panic!("expected a component command"),
    }

    let choices = vec![menu_choice("sprite", ComponentSerializationCommandType::Serialize)];
    match serialization_menu(e, 77, choices, false, true) {
        Some(ComponentInspectorPostAction::EntityCommands(c)) => assert_eq!(
            c,
            EntitySerializationCommand { entity: e, id: 77, command_type: EntitySerializationCommandType::Overwrite }
        ),
        _ => panic!("expected an entity command"),
    }
    match serialization_menu(e, 77, vec![None], true, false) {
        Some(ComponentInspectorPostAction::EntityCommands(c)) => {
            assert_eq!(c.command_type, EntitySerializationCommandType::Revert)
        }
        _ => panic!("expected an entity command"),
    }
    match serialization_menu(e, 77, vec![None], true, true) {
        Some(ComponentInspectorPostAction::EntityCommands(c)) => {
            assert_eq!(c.command_type, EntitySerializationCommandType::Overwrite)
        }
        _ => panic!("expected an entity command"),
    }
}

#[test]
fn right_click_menu_takes_the_last_enabled_click() {
    let clicks = ComponentMenuClicks {
        delete: true,
        serialize: true,
        stop_serializing: false,
        revert: true,
        apply_overrides: false,
        revert_to_prefab: false,
    };
    // Revert is disabled while the component is saved, so Serialize stands.
    assert_eq!(
        component_inspector_right_click(SyncStatus::OutofSync, SyncStatus::Synced, true, clicks),
        (Some(ComponentSerializationCommandType::Serialize), true)
    );
    assert_eq!(
        component_inspector_right_click(SyncStatus::Unsynced, SyncStatus::Synced, false, clicks),
        (Some(ComponentSerializationCommandType::Revert), true)
    );
    let prefab_clicks = ComponentMenuClicks { delete: false, apply_overrides: true, revert_to_prefab: true, ..clicks };
    assert_eq!(
        component_inspector_right_click(SyncStatus::Synced, SyncStatus::Unsynced, true, prefab_clicks),
        (Some(ComponentSerializationCommandType::ApplyOverrideToParentPrefab), false)
    );
    assert_eq!(
        component_inspector_right_click(SyncStatus::Synced, SyncStatus::Synced, true, prefab_clicks),
        (None, false)
    );
}

#[test]
fn serialization_option_needs_a_saved_entity_with_the_component() {
    assert_eq!(serialization_option(true, true, true, false, false), Some(ComponentSerializationCommandType::Serialize));
    assert_eq!(serialization_option(true, true, true, true, false), Some(ComponentSerializationCommandType::StopSerializing));
    assert_eq!(serialization_option(true, true, true, true, true), Some(ComponentSerializationCommandType::Revert));
    assert_eq!(serialization_option(false, true, true, true, true), None);
    assert_eq!(serialization_option(true, false, true, true, true), None);
    assert_eq!(serialization_option(true, true, false, false, false), None);
}

#[test]
fn inheritors_drop_their_own_copy_of_a_changed_component() {
    let f = |k: &str, v: Option<&str>| (k.to_string(), v.map(|x| x.to_string()));
    let mut saved = vec![
        (10u128, vec![f("name", Some("A")), f("sprite", Some("s: 1"))]),
        (20u128, vec![f("name", Some("B"))]),
        (30u128, vec![f("sprite", Some("s: 3"))]),
    ];
    let inheritors = vec![(Entity::new(1, 0), Some(10)), (Entity::new(2, 0), None), (Entity::new(3, 0), Some(20))];
    clear_inherited_component(&mut saved, &inheritors, &"sprite".to_string());
    assert_eq!(saved[0], (10, vec![f("name", Some("A")), f("sprite", None)]));
    assert_eq!(saved[1], (20, vec![f("name", Some("B")), f("sprite", None)]));
    assert_eq!(saved[2], (30, vec![f("sprite", Some("s: 3"))]));
}

#[test]
fn the_entity_inspector_keeps_its_last_request() {
    let e = Entity::new(5, 0);
    let entity_command = |t| Some(ComponentInspectorPostAction::EntityCommands(EntitySerializationCommand { entity: e, id: 3, command_type: t }));
    let kind = |a: Option<ComponentInspectorPostAction>| match a {
        Some(ComponentInspectorPostAction::EntityCommands(c)) => Some(c.command_type),
        _ => None,
    };
    assert!(entity_inspector_post_action(e, None, None, true, true, None).is_none());
    assert_eq!(kind(entity_inspector_post_action(e, Some(3), None, true, false, None)), Some(EntitySerializationCommandType::Overwrite));
    assert_eq!(kind(entity_inspector_post_action(e, Some(3), None, true, true, None)), Some(EntitySerializationCommandType::StopSerializing));
    assert_eq!(
        kind(entity_inspector_post_action(e, Some(3), None, true, true, entity_command(EntitySerializationCommandType::Revert))),
        Some(EntitySerializationCommandType::Revert)
    );
    assert_eq!(
        kind(entity_inspector_post_action(e, Some(3), entity_command(EntitySerializationCommandType::Revert), false, false, None)),
        Some(EntitySerializationCommandType::Revert)
    );
}

#[test]
fn prefab_component_edits_reach_the_instances() {
    let (a, b) = (Entity::new(1, 0), Entity::new(2, 0));
    let mut markers = ComponentList::new();
    markers.set(&a, PrefabMarker { main_id: 9, sub_id: 0 });
    let mut components = ComponentList::new();
    components.set(&a, 1u32);
    components.set(&b, 2u32);

    let mut prefab_component = Some(5u32);
    assert!(!apply_prefab_component_result(PrefabComponentInspectorResult::NoChange, &mut prefab_component, &markers, 9, &mut components));
    assert_eq!(*components.get(&a).unwrap().inner(), 1);

    assert!(apply_prefab_component_result(PrefabComponentInspectorResult::Update, &mut prefab_component, &markers, 9, &mut components));
    assert_eq!(*components.get(&a).unwrap().inner(), 5);
    assert_eq!(*components.get(&b).unwrap().inner(), 2);

    assert!(apply_prefab_component_result(PrefabComponentInspectorResult::Deleted, &mut prefab_component, &markers, 9, &mut components));
    assert_eq!(prefab_component, None);
    assert!(components.get(&a).is_none());
    assert_eq!(*components.get(&b).unwrap().inner(), 2);
}
