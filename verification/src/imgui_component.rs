//! How the entity inspector classifies an entity with respect to prefabs,
//! and which serialization command a component's menu gives.
use vstd::prelude::*;

use crate::ecs::Entity;

verus! {

/// An entity's relation to prefabs.
#[derive(Debug, Clone, Copy, PartialEq, Eq, Structural, Hash)]
pub enum PrefabStatus {
    NoPrefab,
    Prefab,
    PrefabInstance,
}

impl Default for PrefabStatus {
    fn default() -> (s: Self)
        ensures
            s == PrefabStatus::NoPrefab,
    {
        PrefabStatus::NoPrefab
    }
}

/// Every entity of a prefab scene is part of the prefab; elsewhere an
/// entity with a prefab marker is an instance of one.
pub fn prefab_status(scene_is_prefab: bool, has_prefab_marker: bool) -> (status: PrefabStatus)
    ensures
        status == if scene_is_prefab {
            PrefabStatus::Prefab
        } else if has_prefab_marker {
            PrefabStatus::PrefabInstance
        } else {
            PrefabStatus::NoPrefab
        },
{
    if scene_is_prefab {
        PrefabStatus::Prefab
    } else {
        if has_prefab_marker {
            PrefabStatus::PrefabInstance
        } else {
            PrefabStatus::NoPrefab
        }
    }
}

/// What the inspector's add menu adds: an override on a prefab instance, a
/// component otherwise.
pub fn add_menu_item_kind(status: PrefabStatus) -> (kind: &'static str)
    ensures
        status == PrefabStatus::PrefabInstance ==> kind@ == seq!['O', 'v', 'e', 'r', 'r', 'i', 'd', 'e'],
        status != PrefabStatus::PrefabInstance ==> kind@ == seq![
            'C',
            'o',
            'm',
            'p',
            'o',
            'n',
            'e',
            'n',
            't',
        ],
{
    proof {
        reveal_strlit("Override");
        reveal_strlit("Component");
    }
    if status == PrefabStatus::PrefabInstance {
        "Override"
    } else {
        "Component"
    }
}

/// Only an entity that is neither a prefab nor an instance of one can be
/// made into a new prefab.
pub fn can_create_prefab(status: PrefabStatus) -> (can: bool)
    ensures
        can == (status == PrefabStatus::NoPrefab),
{
    status == PrefabStatus::NoPrefab
}


/// What the serialization menu of a component asked for.
#[derive(Debug, Clone, Copy, PartialEq, Eq, Structural, Hash)]
pub enum ComponentSerializationCommandType {
    Serialize,
    StopSerializing,
    Revert,
    ApplyOverrideToParentPrefab,
    RevertToParentPrefab,
}

/// A command on the serialized form of one component of `entity`: the
/// component stored under `key` becomes `delta`, where a component is given
/// as the text of its serialized value and `None` stands for null.
#[derive(Debug)]
pub struct ComponentSerializationCommand {
    pub delta: Option<String>,
    pub command_type: ComponentSerializationCommandType,
    pub key: String,
    pub entity: Entity,
}

/// Whether two serialized values are the same.
pub open spec fn same_value(a: Option<String>, b: Option<String>) -> bool {
    match (a, b) {
        (Some(x), Some(y)) => x@ == y@,
        (None, None) => true,
        _ => false,
    }
}

/// The delta a command carries: `current` is the component as it is now,
/// `saved` the component in the entity's saved form and `parent` the one in
/// its parent prefab (`None` where there is none). Serializing a component
/// equal to the parent's stores null, as it overrides nothing.
pub open spec fn command_delta(
    command_type: ComponentSerializationCommandType,
    current: Option<String>,
    saved: Option<Option<String>>,
    parent: Option<Option<String>>,
) -> Option<String> {
    match command_type {
        ComponentSerializationCommandType::Serialize => if parent matches Some(p) && same_value(
            p,
            current,
        ) {
            None
        } else {
            current
        },
        ComponentSerializationCommandType::StopSerializing => None,
        ComponentSerializationCommandType::Revert => match saved {
            Some(v) => v,
            None => None,
        },
        ComponentSerializationCommandType::ApplyOverrideToParentPrefab => current,
        ComponentSerializationCommandType::RevertToParentPrefab => match parent {
            Some(v) => v,
            None => None,
        },
    }
}

/// What each command carries: serializing stores the component unless it
/// equals the one in the parent prefab (then it stores nothing), stopping
/// stores nothing, a revert brings back the saved value, applying to the
/// parent carries the component as it is, and a revert to the parent brings
/// back the parent's value.
pub proof fn lemma_command_deltas(current: Option<String>, saved: Option<String>, parent: Option<String>)
    ensures
        same_value(parent, current) ==> command_delta(
            ComponentSerializationCommandType::Serialize,
            current,
            Some(saved),
            Some(parent),
        ) is None,
        !same_value(parent, current) ==> command_delta(
            ComponentSerializationCommandType::Serialize,
            current,
            Some(saved),
            Some(parent),
        ) == current,
        command_delta(ComponentSerializationCommandType::Serialize, current, Some(saved), None) == current,
        command_delta(ComponentSerializationCommandType::StopSerializing, current, Some(saved), Some(parent))
            is None,
        command_delta(ComponentSerializationCommandType::Revert, current, Some(saved), Some(parent)) == saved,
        command_delta(ComponentSerializationCommandType::Revert, current, None, Some(parent)) is None,
        command_delta(
            ComponentSerializationCommandType::ApplyOverrideToParentPrefab,
            current,
            Some(saved),
            Some(parent),
        ) == current,
        command_delta(ComponentSerializationCommandType::RevertToParentPrefab, current, Some(saved), Some(parent))
            == parent,
        command_delta(ComponentSerializationCommandType::RevertToParentPrefab, current, Some(saved), None)
            is None,
{
}

/// The command for a choice of the serialization menu of the component
/// stored under `key` on `entity`.
pub fn handle_serialization_command(
    entity: Entity,
    command_type: ComponentSerializationCommandType,
    current: Option<String>,
    saved: Option<Option<String>>,
    parent: Option<Option<String>>,
    key: String,
) -> (command: ComponentSerializationCommand)
    ensures
        command.delta == command_delta(command_type, current, saved, parent),
        command.command_type == command_type,
        command.key == key,
        command.entity == entity,
{
    let delta = match command_type {
        ComponentSerializationCommandType::Serialize => {
            let same = match (&parent, &current) {
                (Some(Some(p)), Some(c)) => *p == *c,
                (Some(None), None) => true,
                _ => false,
            };
            if same {
                None
            } else {
                current
            }
        },
        ComponentSerializationCommandType::StopSerializing => None,
        ComponentSerializationCommandType::Revert => match saved {
            Some(v) => v,
            None => None,
        },
        ComponentSerializationCommandType::ApplyOverrideToParentPrefab => current,
        ComponentSerializationCommandType::RevertToParentPrefab => match parent {
            Some(v) => v,
            None => None,
        },
    };
    ComponentSerializationCommand { delta, command_type, key, entity }
}

/// What can be done to an entity's saved form as a whole.
#[derive(Debug, Clone, Copy, PartialEq, Eq, Structural, Hash)]
pub enum EntitySerializationCommandType {
    Revert,
    Overwrite,
    StopSerializing,
}

/// A command on the saved form of `entity`, saved under `id`.
#[derive(Debug, Clone, Copy, PartialEq, Eq, Structural)]
pub struct EntitySerializationCommand {
    pub entity: Entity,
    pub id: u128,
    pub command_type: EntitySerializationCommandType,
}

/// What the serialization menu of the inspector asks for.
#[derive(Debug)]
pub enum ComponentInspectorPostAction {
    ComponentCommands(ComponentSerializationCommand),
    EntityCommands(EntitySerializationCommand),
}

/// A choice made in the serialization menu of one component: the command,
/// the component's key, and its value now, saved, and in the parent prefab
/// (as `handle_serialization_command` takes them).
#[derive(Debug)]
pub struct ComponentMenuChoice {
    pub command_type: ComponentSerializationCommandType,
    pub key: String,
    pub current: Option<String>,
    pub saved: Option<Option<String>>,
    pub parent: Option<Option<String>>,
}

/// The index of the last component whose menu made a choice, if any.
pub open spec fn last_choice(choices: Seq<Option<ComponentMenuChoice>>) -> Option<int>
    decreases choices.len(),
{
    if choices.len() == 0 {
        None
    } else if choices.last() is Some {
        Some(choices.len() - 1)
    } else {
        last_choice(choices.drop_last())
    }
}

/// The serialization menu of an entity saved under `serialized_id`: the
/// component menus are read in order and the last choice made gives a
/// component command (see `handle_serialization_command`); below them, the
/// Revert button and then the Overwrite button, when clicked, replace it by
/// a revert, respectively an overwrite, of the whole entity.
pub fn serialization_menu(
    entity: Entity,
    serialized_id: u128,
    choices: Vec<Option<ComponentMenuChoice>>,
    revert_clicked: bool,
    overwrite_clicked: bool,
) -> (action: Option<ComponentInspectorPostAction>)
    ensures
        overwrite_clicked ==> action == Some(
            ComponentInspectorPostAction::EntityCommands(
                EntitySerializationCommand {
                    entity,
                    id: serialized_id,
                    command_type: EntitySerializationCommandType::Overwrite,
                },
            ),
        ),
        revert_clicked && !overwrite_clicked ==> action == Some(
            ComponentInspectorPostAction::EntityCommands(
                EntitySerializationCommand {
                    entity,
                    id: serialized_id,
                    command_type: EntitySerializationCommandType::Revert,
                },
            ),
        ),
        !(revert_clicked || overwrite_clicked) ==> match last_choice(choices@) {
            None => action is None,
            Some(i) => action matches Some(ComponentInspectorPostAction::ComponentCommands(c)) && {
                let ch = choices@[i].unwrap();
                &&& c.delta == command_delta(ch.command_type, ch.current, ch.saved, ch.parent)
                &&& c.command_type == ch.command_type
                &&& c.key == ch.key
                &&& c.entity == entity
            },
        },
{
    let ghost all = choices@;
    let mut post_action: Option<ComponentInspectorPostAction> = None;
    let mut remaining = choices;
    let n = remaining.len();
    let mut i: usize = 0;
    while i < n
        invariant
            n == all.len(),
            0 <= i <= n,
            remaining@ == all.subrange(i as int, n as int),
            match last_choice(all.subrange(0, i as int)) {
                None => post_action is None,
                Some(k) => post_action matches Some(ComponentInspectorPostAction::ComponentCommands(c)) && {
                    let ch = all[k].unwrap();
                    &&& c.delta == command_delta(ch.command_type, ch.current, ch.saved, ch.parent)
                    &&& c.command_type == ch.command_type
                    &&& c.key == ch.key
                    &&& c.entity == entity
                },
            },
        decreases n - i,
    {
        let choice = remaining.remove(0);
        proof {
            assert(all.subrange(0, i as int + 1).drop_last() =~= all.subrange(0, i as int));
            assert(all.subrange(0, i as int + 1).last() == all[i as int]);
            if let Some(k) = last_choice(all.subrange(0, i as int)) {
                lemma_last_choice_bounds(all.subrange(0, i as int));
                assert(all.subrange(0, i as int)[k] == all[k]);
            }
        }
        if let Some(ch) = choice {
            post_action = Some(
                ComponentInspectorPostAction::ComponentCommands(
                    handle_serialization_command(entity, ch.command_type, ch.current, ch.saved, ch.parent, ch.key),
                ),
            );
        }
        i = i + 1;
    }
    proof {
        assert(all.subrange(0, n as int) =~= all);
    }
    if revert_clicked {
        post_action = Some(
            ComponentInspectorPostAction::EntityCommands(
                EntitySerializationCommand {
                    entity,
                    id: serialized_id,
                    command_type: EntitySerializationCommandType::Revert,
                },
            ),
        );
    }
    if overwrite_clicked {
        post_action = Some(
            ComponentInspectorPostAction::EntityCommands(
                EntitySerializationCommand {
                    entity,
                    id: serialized_id,
                    command_type: EntitySerializationCommandType::Overwrite,
                },
            ),
        );
    }
    post_action
}

/// The last choice names an entry of the menu that made one.
proof fn lemma_last_choice_bounds(choices: Seq<Option<ComponentMenuChoice>>)
    ensures
        last_choice(choices) matches Some(k) ==> 0 <= k < choices.len() && choices[k] is Some,
    decreases choices.len(),
{
    if choices.len() > 0 && choices.last() is None {
        lemma_last_choice_bounds(choices.drop_last());
    }
}

/// How a component stands with its saved form (or with its prefab).
#[derive(Debug, Clone, Copy, PartialEq, Eq, Structural, Hash)]
pub enum SyncStatus {
    Unsynced,
    Headless,
    OutofSync,
    Synced,
}

/// The clicks in a component's right-click menu, in menu order.
#[derive(Debug, Clone, Copy, PartialEq, Eq, Structural)]
pub struct ComponentMenuClicks {
    pub delete: bool,
    pub serialize: bool,
    pub stop_serializing: bool,
    pub revert: bool,
    pub apply_overrides: bool,
    pub revert_to_prefab: bool,
}

/// The command of a component's right-click menu: of the items that are
/// enabled and clicked, the last in menu order. Serialize is enabled when
/// the component is out of sync with its saved form, Stop Serializing when
/// it is saved at all (`synced_at_all`), Revert when it is not saved; Apply
/// Overrides when it is not in sync with its prefab, Revert to Prefab when
/// it is out of sync with it.
pub open spec fn right_click_action(
    serialization: SyncStatus,
    prefab: SyncStatus,
    synced_at_all: bool,
    c: ComponentMenuClicks,
) -> Option<ComponentSerializationCommandType> {
    if c.revert_to_prefab && prefab == SyncStatus::OutofSync {
        Some(ComponentSerializationCommandType::RevertToParentPrefab)
    } else if c.apply_overrides && prefab == SyncStatus::Unsynced {
        Some(ComponentSerializationCommandType::ApplyOverrideToParentPrefab)
    } else if c.revert && serialization == SyncStatus::Unsynced {
        Some(ComponentSerializationCommandType::Revert)
    } else if c.stop_serializing && synced_at_all {
        Some(ComponentSerializationCommandType::StopSerializing)
    } else if c.serialize && serialization == SyncStatus::OutofSync {
        Some(ComponentSerializationCommandType::Serialize)
    } else {
        None
    }
}

/// A component's right-click menu: the command it asks for (see
/// `right_click_action`) and whether it asks to delete the component.
pub fn component_inspector_right_click(
    serialization: SyncStatus,
    prefab: SyncStatus,
    synced_at_all: bool,
    clicks: ComponentMenuClicks,
) -> (r: (Option<ComponentSerializationCommandType>, bool))
    ensures
        r.0 == right_click_action(serialization, prefab, synced_at_all, clicks),
        r.1 == clicks.delete,
{
    let mut requested_action = None;
    if clicks.serialize && serialization == SyncStatus::OutofSync {
        requested_action = Some(ComponentSerializationCommandType::Serialize);
    }
    if clicks.stop_serializing && synced_at_all {
        requested_action = Some(ComponentSerializationCommandType::StopSerializing);
    }
    if clicks.revert && serialization == SyncStatus::Unsynced {
        requested_action = Some(ComponentSerializationCommandType::Revert);
    }
    if clicks.apply_overrides && prefab == SyncStatus::Unsynced {
        requested_action = Some(ComponentSerializationCommandType::ApplyOverrideToParentPrefab);
    }
    if clicks.revert_to_prefab && prefab == SyncStatus::OutofSync {
        requested_action = Some(ComponentSerializationCommandType::RevertToParentPrefab);
    }
    (requested_action, clicks.delete)
}

/// The serialization menu of one component type for an entity: it is
/// offered when the entity is saved and has such a component, and gives
/// the last of Serialize, Stop Serializing and Revert that was clicked.
pub fn serialization_option(
    is_serialized: bool,
    component_exists: bool,
    serialize: bool,
    stop_serializing: bool,
    revert: bool,
) -> (r: Option<ComponentSerializationCommandType>)
    ensures
        r == if is_serialized && component_exists {
            if revert {
                Some(ComponentSerializationCommandType::Revert)
            } else if stop_serializing {
                Some(ComponentSerializationCommandType::StopSerializing)
            } else if serialize {
                Some(ComponentSerializationCommandType::Serialize)
            } else {
                None
            }
        } else {
            None
        },
{
    let mut output = None;
    if is_serialized && component_exists {
        if serialize {
            output = Some(ComponentSerializationCommandType::Serialize);
        }
        if stop_serializing {
            output = Some(ComponentSerializationCommandType::StopSerializing);
        }
        if revert {
            output = Some(ComponentSerializationCommandType::Revert);
        }
    }
    output
}

/// What the entity inspector finally asks for this frame, taking the
/// requests in the order the inspector makes them, each replacing the one
/// before: a component's command, then (for an entity saved under
/// `serialized_id`) an overwrite asked by its serialization marker's
/// inspector, then a stop of serialization when that marker is deleted,
/// then the choice of the Serialize menu.
pub fn entity_inspector_post_action(
    entity: Entity,
    serialized_id: Option<u128>,
    component_action: Option<ComponentInspectorPostAction>,
    overwrite_requested: bool,
    marker_deleted: bool,
    menu_action: Option<ComponentInspectorPostAction>,
) -> (action: Option<ComponentInspectorPostAction>)
    ensures
        action == if menu_action is Some {
            menu_action
        } else {
            match serialized_id {
                Some(id) => if marker_deleted {
                    Some(
                        ComponentInspectorPostAction::EntityCommands(
                            EntitySerializationCommand {
                                entity,
                                id,
                                command_type: EntitySerializationCommandType::StopSerializing,
                            },
                        ),
                    )
                } else if overwrite_requested {
                    Some(
                        ComponentInspectorPostAction::EntityCommands(
                            EntitySerializationCommand {
                                entity,
                                id,
                                command_type: EntitySerializationCommandType::Overwrite,
                            },
                        ),
                    )
                } else {
                    component_action
                },
                None => component_action,
            }
        },
{
    let mut final_post_action = component_action;
    if let Some(id) = serialized_id {
        if overwrite_requested {
            final_post_action = Some(
                ComponentInspectorPostAction::EntityCommands(
                    EntitySerializationCommand {
                        entity,
                        id,
                        command_type: EntitySerializationCommandType::Overwrite,
                    },
                ),
            );
        }
        if marker_deleted {
            final_post_action = Some(
                ComponentInspectorPostAction::EntityCommands(
                    EntitySerializationCommand {
                        entity,
                        id,
                        command_type: EntitySerializationCommandType::StopSerializing,
                    },
                ),
            );
        }
    }
    if menu_action.is_some() {
        final_post_action = menu_action;
    }
    final_post_action
}

/// Stop Serializing is offered exactly for a saved component: clicked on
/// one, with no later enabled item clicked, it is the command; on a
/// component that is not saved at all it never is.
pub proof fn lemma_stop_serializing_needs_a_saved_component(
    serialization: SyncStatus,
    prefab: SyncStatus,
    synced_at_all: bool,
    c: ComponentMenuClicks,
)
    ensures
        c.stop_serializing && synced_at_all && !(c.revert && serialization == SyncStatus::Unsynced) && !(
        c.apply_overrides && prefab == SyncStatus::Unsynced) && !(c.revert_to_prefab && prefab
            == SyncStatus::OutofSync) ==> right_click_action(serialization, prefab, synced_at_all, c)
            == Some(ComponentSerializationCommandType::StopSerializing),
        !synced_at_all ==> right_click_action(serialization, prefab, synced_at_all, c) != Some(
            ComponentSerializationCommandType::StopSerializing,
        ),
{
}

/// Every command of the right-click menu was clicked and enabled: Serialize
/// only out of sync, Revert only unsaved, Apply Overrides only when the
/// prefab is unsynced, Revert to Prefab only when it is out of sync; and a
/// click on no item gives no command.
pub proof fn lemma_right_click_commands_are_enabled_clicks(
    serialization: SyncStatus,
    prefab: SyncStatus,
    synced_at_all: bool,
    c: ComponentMenuClicks,
)
    ensures
        right_click_action(serialization, prefab, synced_at_all, c) == Some(
            ComponentSerializationCommandType::Serialize,
        ) ==> c.serialize && serialization == SyncStatus::OutofSync,
        right_click_action(serialization, prefab, synced_at_all, c) == Some(
            ComponentSerializationCommandType::Revert,
        ) ==> c.revert && serialization == SyncStatus::Unsynced,
        right_click_action(serialization, prefab, synced_at_all, c) == Some(
            ComponentSerializationCommandType::StopSerializing,
        ) ==> c.stop_serializing && synced_at_all,
        right_click_action(serialization, prefab, synced_at_all, c) == Some(
            ComponentSerializationCommandType::ApplyOverrideToParentPrefab,
        ) ==> c.apply_overrides && prefab == SyncStatus::Unsynced,
        right_click_action(serialization, prefab, synced_at_all, c) == Some(
            ComponentSerializationCommandType::RevertToParentPrefab,
        ) ==> c.revert_to_prefab && prefab == SyncStatus::OutofSync,
        !(c.serialize || c.stop_serializing || c.revert || c.apply_overrides || c.revert_to_prefab)
            ==> right_click_action(serialization, prefab, synced_at_all, c) is None,
{
}

} // verus!
