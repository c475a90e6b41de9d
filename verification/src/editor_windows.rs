//! The editor's bookkeeping of open windows: which entities have an
//! inspector open, what an entry of the entity list asked for, and which
//! prefabs have an editor open.
use vstd::prelude::*;

use crate::ecs::{has_entity, ComponentList, Entity};
use crate::imgui_component::PrefabStatus;

verus! {

/// No entity occurs twice.
pub open spec fn distinct_entities(s: Seq<Entity>) -> bool {
    forall|i: int, j: int| 0 <= i < s.len() && 0 <= j < s.len() && i != j ==> s[i] != s[j]
}

/// The index of the last flag that is set, if any.
pub open spec fn last_flagged(closed: Seq<bool>) -> Option<int> {
    if exists|k: int| 0 <= k < closed.len() && #[trigger] closed[k] {
        Some(choose|k: int| 0 <= k < closed.len() && #[trigger] closed[k]
            && forall|l: int| k < l < closed.len() ==> !closed[l])
    } else {
        None
    }
}

/// Closes the entity inspectors whose windows were closed this frame:
/// `closed[i]` tells whether the window of `stored_ids[i]` was closed. As
/// in the editor, only the last closed one is forgotten this frame.
pub fn close_entity_inspectors(stored_ids: &mut Vec<Entity>, closed: &Vec<bool>)
    requires
        closed@.len() == old(stored_ids)@.len(),
    ensures
        match last_flagged(closed@) {
            None => final(stored_ids)@ == old(stored_ids)@,
            Some(k) => final(stored_ids)@ == old(stored_ids)@.remove(k),
        },
{
    if let Some(k) = last_flagged_index(closed) {
        stored_ids.remove(k);
    }
}

/// The index of the last flag of `flags` that is set, if any.
pub fn last_flagged_index(flags: &Vec<bool>) -> (r: Option<usize>)
    ensures
        match r {
            None => last_flagged(flags@) is None,
            Some(k) => last_flagged(flags@) == Some(k as int) && k < flags@.len(),
        },
{
    let n = flags.len();
    let mut found: Option<usize> = None;
    let mut i: usize = 0;
    while i < n
        invariant
            n == flags@.len(),
            0 <= i <= n,
            match found {
                None => forall|l: int| 0 <= l < i ==> !flags@[l],
                Some(k) => k < i && flags@[k as int] && forall|l: int| k < l < i ==> !flags@[l],
            },
        decreases n - i,
    {
        if flags[i] {
            found = Some(i);
        }
        i = i + 1;
    }
    proof {
        match found {
            None => {
                assert(!exists|k: int| 0 <= k < flags@.len() && #[trigger] flags@[k]);
            },
            Some(k) => {
                assert(flags@[k as int]);
                let c = choose|c: int|
                    0 <= c < flags@.len() && #[trigger] flags@[c] && forall|l: int|
                        c < l < flags@.len() ==> !flags@[l];
                if c < k {
                    assert(!flags@[k as int]);
                }
                if k < c {
                    assert(!flags@[c]);
                }
                assert(c == k);
            },
        }
    }
    found
}

/// What an entry of the entity list asked for.
#[derive(Debug, Clone, PartialEq, Eq)]
pub enum EntityListAction {
    ChangeName(String),
    Serialize,
    Unserialize,
    ToggleInspect,
    Clone,
    Delete,
    GoToPrefab,
    PromoteToPrefab,
    LogPrefab,
    LogSerializedEntity,
    LogEntity,
}

/// The position of `e` in `s`, if it occurs.
fn find_entity(s: &Vec<Entity>, e: Entity) -> (r: Option<usize>)
    ensures
        match r {
            Some(k) => k < s@.len() && s@[k as int] == e,
            None => !s@.contains(e),
        },
{
    let n = s.len();
    let mut i: usize = 0;
    while i < n
        invariant
            n == s@.len(),
            0 <= i <= n,
            forall|l: int| 0 <= l < i ==> s@[l] != e,
        decreases n - i,
    {
        if s[i] == e {
            return Some(i);
        }
        i = i + 1;
    }
    None
}

/// Removing the only occurrence of `s[k]` from a list without duplicates
/// leaves exactly the other entities.
proof fn lemma_remove_distinct(s: Seq<Entity>, k: int)
    requires
        distinct_entities(s),
        0 <= k < s.len(),
    ensures
        distinct_entities(s.remove(k)),
        forall|x: Entity| #[trigger] s.remove(k).contains(x) <==> (s.contains(x) && x != s[k]),
{
    let r = s.remove(k);
    assert forall|x: Entity| #[trigger] r.contains(x) <==> (s.contains(x) && x != s[k]) by {
        if r.contains(x) {
            let j = choose|j: int| 0 <= j < r.len() && r[j] == x;
            if j < k {
                assert(s[j] == x);
            } else {
                assert(s[j + 1] == x);
            }
        }
        if s.contains(x) && x != s[k] {
            let j = choose|j: int| 0 <= j < s.len() && s[j] == x;
            if j < k {
                assert(r[j] == x);
            } else {
                assert(j != k);
                assert(r[j - 1] == x);
            }
        }
    }
    assert forall|i: int, j: int| 0 <= i < r.len() && 0 <= j < r.len() && i != j implies r[i] != r[j] by {
        let si = if i < k { i } else { i + 1 };
        let sj = if j < k { j } else { j + 1 };
        assert(r[i] == s[si]);
        assert(r[j] == s[sj]);
    }
}

/// Carries out the part of an entity-list request that concerns the
/// inspected entities: toggling an inspector opens it when closed and
/// closes it when open; deleting an entity closes its inspector and returns
/// the entity, to be removed from the world. Other requests leave the
/// inspected entities as they are and return `None`.
pub fn apply_entity_list_action(
    stored_ids: &mut Vec<Entity>,
    action: Option<(Entity, EntityListAction)>,
) -> (delete: Option<Entity>)
    requires
        distinct_entities(old(stored_ids)@),
    ensures
        distinct_entities(final(stored_ids)@),
        delete == match action {
            Some((e, EntityListAction::Delete)) => Some(e),
            _ => None,
        },
        match action {
            Some((e, EntityListAction::ToggleInspect)) => {
                &&& final(stored_ids)@.contains(e) == !old(stored_ids)@.contains(e)
                &&& forall|x: Entity|
                    x != e ==> (#[trigger] final(stored_ids)@.contains(x) == old(stored_ids)@.contains(x))
            },
            Some((e, EntityListAction::Delete)) => {
                &&& !final(stored_ids)@.contains(e)
                &&& forall|x: Entity|
                    x != e ==> (#[trigger] final(stored_ids)@.contains(x) == old(stored_ids)@.contains(x))
            },
            _ => final(stored_ids)@ == old(stored_ids)@,
        },
{
    match action {
        Some((e, EntityListAction::ToggleInspect)) => {
            match find_entity(stored_ids, e) {
                Some(k) => {
                    proof {
                        lemma_remove_distinct(stored_ids@, k as int);
                    }
                    stored_ids.remove(k);
                },
                None => {
                    let ghost before = stored_ids@;
                    stored_ids.push(e);
                    proof {
                        assert(stored_ids@[before.len() as int] == e);
                        assert forall|x: Entity| #[trigger] stored_ids@.contains(x) <==> (before.contains(x) || x == e) by {
                            if stored_ids@.contains(x) {
                                let j = choose|j: int| 0 <= j < stored_ids@.len() && stored_ids@[j] == x;
                                if j < before.len() {
                                    assert(before[j] == x);
                                }
                            }
                            if before.contains(x) {
                                let j = choose|j: int| 0 <= j < before.len() && before[j] == x;
                                assert(stored_ids@[j] == x);
                            }
                        }
                    }
                },
            }
            None
        },
        Some((e, EntityListAction::Delete)) => {
            if let Some(k) = find_entity(stored_ids, e) {
                proof {
                    lemma_remove_distinct(stored_ids@, k as int);
                }
                stored_ids.remove(k);
            }
            Some(e)
        },
        _ => None,
    }
}

/// The first position of `id` in `s`, if it occurs.
pub open spec fn first_position(s: Seq<u128>, id: u128) -> Option<int> {
    if s.contains(id) {
        Some(choose|k: int| 0 <= k < s.len() && s[k] == id && forall|l: int| 0 <= l < k ==> s[l] != id)
    } else {
        None
    }
}

/// Closes the prefab editor of `closed`, if a window was closed: the first
/// occurrence of that prefab is dropped from the open editors, the others
/// keep their order.
pub fn close_prefab_editor(stored_prefabs: &mut Vec<u128>, closed: Option<u128>)
    ensures
        match closed {
            None => final(stored_prefabs)@ == old(stored_prefabs)@,
            Some(id) => match first_position(old(stored_prefabs)@, id) {
                None => final(stored_prefabs)@ == old(stored_prefabs)@,
                Some(k) => final(stored_prefabs)@ == old(stored_prefabs)@.remove(k),
            },
        },
{
    if let Some(id) = closed {
        let n = stored_prefabs.len();
        let mut found: Option<usize> = None;
        let mut i: usize = 0;
        while i < n
            invariant
                n == stored_prefabs@.len(),
                0 <= i <= n,
                match found {
                    None => forall|l: int| 0 <= l < i ==> stored_prefabs@[l] != id,
                    Some(k) => k < n && stored_prefabs@[k as int] == id && forall|l: int|
                        0 <= l < k ==> stored_prefabs@[l] != id,
                },
            decreases n - i,
        {
            if found.is_none() && stored_prefabs[i] == id {
                found = Some(i);
            }
            i = i + 1;
        }
        proof {
            let s = stored_prefabs@;
            match found {
                None => {
                    assert(!s.contains(id));
                },
                Some(k) => {
                    assert(s.contains(id)) by {
                        assert(s[k as int] == id);
                    }
                    let c = choose|c: int|
                        0 <= c < s.len() && s[c] == id && forall|l: int| 0 <= l < c ==> s[l] != id;
                    if c < k {
                        assert(s[c] != id);
                    }
                    if k < c {
                        assert(s[k as int] != id);
                    }
                    assert(c == k);
                },
            }
        }
        if let Some(k) = found {
            stored_prefabs.remove(k);
        }
    }
}


/// How the entity list shows one entity.
#[derive(Debug, Clone, Copy, PartialEq, Eq, Structural)]
pub struct NameInspectorParameters {
    pub prefab_status: PrefabStatus,
    pub being_inspected: bool,
    pub depth: u32,
    pub has_children: bool,
    pub is_serialized: bool,
}

/// How the entity list shows an entity outside the scene graph: at the top
/// level, without children, as a prefab instance when it has a prefab
/// marker, inspected when its inspector is open, serialized when it has a
/// serialization marker.
pub open spec fn loose_entry<P, S>(
    e: Entity,
    prefab_markers: Seq<crate::ecs::Component<P>>,
    serialization_markers: Seq<crate::ecs::Component<S>>,
    stored_ids: Seq<Entity>,
) -> NameInspectorParameters {
    NameInspectorParameters {
        prefab_status: if has_entity(prefab_markers, e) {
            PrefabStatus::PrefabInstance
        } else {
            PrefabStatus::NoPrefab
        },
        being_inspected: stored_ids.contains(e),
        depth: 0,
        has_children: false,
        is_serialized: has_entity(serialization_markers, e),
    }
}

/// The entries the entity list shows after the scene graph: every entity,
/// in order, that the scene graph did not show.
pub open spec fn loose_entries<P, S>(
    entities: Seq<Entity>,
    scene_graph_entities: Seq<Entity>,
    prefab_markers: Seq<crate::ecs::Component<P>>,
    serialization_markers: Seq<crate::ecs::Component<S>>,
    stored_ids: Seq<Entity>,
) -> Seq<(Entity, NameInspectorParameters)>
    decreases entities.len(),
{
    if entities.len() == 0 {
        Seq::empty()
    } else {
        let rest = loose_entries(
            entities.drop_last(),
            scene_graph_entities,
            prefab_markers,
            serialization_markers,
            stored_ids,
        );
        let e = entities.last();
        if scene_graph_entities.contains(e) {
            rest
        } else {
            rest.push((e, loose_entry(e, prefab_markers, serialization_markers, stored_ids)))
        }
    }
}

/// The entries of the entity list for the entities the scene graph did not
/// show (see `loose_entries`).
pub fn loose_entity_entries<P, S>(
    entities: &Vec<Entity>,
    scene_graph_entities: &Vec<Entity>,
    prefab_markers: &ComponentList<P>,
    serialization_markers: &ComponentList<S>,
    stored_ids: &Vec<Entity>,
) -> (entries: Vec<(Entity, NameInspectorParameters)>)
    requires
        prefab_markers.wf(),
        serialization_markers.wf(),
    ensures
        entries@ == loose_entries(
            entities@,
            scene_graph_entities@,
            prefab_markers@,
            serialization_markers@,
            stored_ids@,
        ),
{
    let mut entries: Vec<(Entity, NameInspectorParameters)> = Vec::new();
    let n = entities.len();
    let mut i: usize = 0;
    while i < n
        invariant
            n == entities@.len(),
            0 <= i <= n,
            prefab_markers.wf(),
            serialization_markers.wf(),
            entries@ == loose_entries(
                entities@.subrange(0, i as int),
                scene_graph_entities@,
                prefab_markers@,
                serialization_markers@,
                stored_ids@,
            ),
        decreases n - i,
    {
        let e = entities[i];
        proof {
            assert(entities@.subrange(0, i as int + 1).drop_last() =~= entities@.subrange(0, i as int));
        }
        if find_entity(scene_graph_entities, e).is_none() {
            let prefab_status = if prefab_markers.index_of(&e).is_some() {
                PrefabStatus::PrefabInstance
            } else {
                PrefabStatus::NoPrefab
            };
            let params = NameInspectorParameters {
                prefab_status,
                being_inspected: find_entity(stored_ids, e).is_some(),
                depth: 0,
                has_children: false,
                is_serialized: serialization_markers.index_of(&e).is_some(),
            };
            entries.push((e, params));
        }
        i = i + 1;
    }
    proof {
        assert(entities@.subrange(0, n as int) =~= entities@);
    }
    entries
}

} // verus!
