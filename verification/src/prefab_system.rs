//! Prefabs: serialized entities that other entities inherit from. A
//! prefab instance carries a marker naming its prefab (`main_id`) and the
//! member of that prefab it stems from (`sub_id`). Identifiers are the
//! 128-bit values of their UUIDs.
use vstd::prelude::*;

use std::collections::HashMap;

use crate::tilemap_system::{distinct_names, insert_named, lemma_named_push, named};
use crate::ecs::{has_entity, lemma_position_of_unique, lookup, Component, ComponentList, Entity};

verus! {

/// Which prefab, and which member of it, an entity was instantiated from.
#[derive(Debug, Clone, Copy, PartialEq, Eq, Structural, Hash)]
pub struct PrefabMarker {
    pub main_id: u128,
    pub sub_id: u128,
}

impl PrefabMarker {
    pub fn main_id(&self) -> (id: u128)
        ensures
            id == self.main_id,
    {
        self.main_id
    }

    pub fn sub_id(&self) -> (id: u128)
        ensures
            id == self.sub_id,
    {
        self.sub_id
    }
}

/// A serialized component and whether it is active.
#[derive(Debug, Clone, Copy, PartialEq, Eq, Structural)]
pub struct SerializedComponent<T> {
    pub active: bool,
    pub inner: T,
}

/// A serialized entity: its id, its prefab marker if it is a prefab
/// instance, and the serialized data of its other components.
pub struct SerializedEntity<D> {
    pub id: u128,
    pub prefab_marker: Option<SerializedComponent<PrefabMarker>>,
    pub data: D,
}

impl<D: Clone> Clone for SerializedEntity<D> {
    fn clone(&self) -> (c: Self)
        ensures
            c.id == self.id,
            c.prefab_marker == self.prefab_marker,
            cloned(self.data, c.data),
    {
        SerializedEntity { id: self.id, prefab_marker: self.prefab_marker, data: self.data.clone() }
    }
}

/// A prefab: its members, keyed by member id.
pub struct Prefab<D> {
    pub members: HashMap<u128, SerializedEntity<D>>,
}

/// Loads into `serialized_entity` the member of the parent prefab that the
/// marked entity inherits from: the member named by the marker's `sub_id`
/// in the prefab named by its `main_id`, carrying the marker itself.
/// Returns whether such a member was found; `serialized_entity` is left
/// untouched otherwise.
pub fn get_serialized_parent_prefab_from_inheritor<D: Clone>(
    maybe_prefab_marker: Option<&Component<PrefabMarker>>,
    prefabs: &HashMap<u128, Prefab<D>>,
    serialized_entity: &mut SerializedEntity<D>,
) -> (found: bool)
    ensures
        found == match maybe_prefab_marker {
            Some(m) => prefabs@.contains_key(m.inner.main_id)
                && prefabs@[m.inner.main_id].members@.contains_key(m.inner.sub_id),
            None => false,
        },
        !found ==> *final(serialized_entity) == *old(serialized_entity),
        found ==> ({
            let m = maybe_prefab_marker.unwrap().inner;
            let member = prefabs@[m.main_id].members@[m.sub_id];
            &&& final(serialized_entity).id == member.id
            &&& final(serialized_entity).prefab_marker == Some(
                SerializedComponent { active: true, inner: m },
            )
            &&& cloned(member.data, final(serialized_entity).data)
        }),
{
    broadcast use vstd::std_specs::hash::group_hash_axioms;

    if let Some(prefab_component) = maybe_prefab_marker {
        let main_id = prefab_component.inner.main_id();
        let prefab = match prefabs.get(&main_id) {
            Some(i) => i,
            None => return false,
        };
        let sub_id = prefab_component.inner.sub_id();
        let mut serialized_prefab = match prefab.members.get(&sub_id) {
            Some(sp) => sp.clone(),
            None => return false,
        };
        serialized_prefab.prefab_marker = Some(
            SerializedComponent { active: true, inner: prefab_component.inner },
        );
        *serialized_entity = serialized_prefab;
        true
    } else {
        false
    }
}

/// Whether one of the markers among the first `k` marks `e` as an
/// instance of prefab `prefab_id`.
pub open spec fn marked_among(
    markers: Seq<Component<PrefabMarker>>,
    k: int,
    e: Entity,
    prefab_id: u128,
) -> bool {
    exists|i: int|
        0 <= i < k && #[trigger] markers[i].entity_id == e && markers[i].inner.main_id == prefab_id
}

/// Whether `e` is an instance of prefab `prefab_id`.
pub open spec fn is_instance_of(markers: Seq<Component<PrefabMarker>>, e: Entity, prefab_id: u128) -> bool {
    marked_among(markers, markers.len() as int, e, prefab_id)
}

/// When a component is deleted from prefab `prefab_id`, every instance of
/// the prefab loses its component of that type; the other entities keep
/// theirs.
pub fn remove_component_from_instances<T>(
    prefab_markers: &ComponentList<PrefabMarker>,
    prefab_id: u128,
    components: &mut ComponentList<T>,
)
    requires
        old(components).wf(),
    ensures
        final(components).wf(),
        forall|e: Entity|
            #[trigger] has_entity(final(components)@, e) <==> (has_entity(old(components)@, e)
                && !is_instance_of(prefab_markers@, e, prefab_id)),
        forall|e: Entity|
            has_entity(final(components)@, e) ==> #[trigger] lookup(final(components)@, e)
                == lookup(old(components)@, e),
{
    let ghost start = components@;
    let n = prefab_markers.len();
    let mut k: usize = 0;
    while k < n
        invariant
            n == prefab_markers@.len(),
            0 <= k <= n,
            components.wf(),
            forall|e: Entity|
                #[trigger] has_entity(components@, e) <==> (has_entity(start, e) && !marked_among(
                    prefab_markers@,
                    k as int,
                    e,
                    prefab_id,
                )),
            forall|e: Entity|
                has_entity(components@, e) ==> #[trigger] lookup(components@, e) == lookup(start, e),
        decreases n - k,
    {
        let marker = prefab_markers.at(k);
        let ghost before = components@;
        if marker.inner.main_id == prefab_id {
            components.unset(&marker.entity_id);
        }
        proof {
            assert forall|e: Entity|
                #[trigger] has_entity(components@, e) <==> (has_entity(start, e) && !marked_among(
                    prefab_markers@,
                    k + 1,
                    e,
                    prefab_id,
                )) by {
                if marked_among(prefab_markers@, k + 1, e, prefab_id) && !marked_among(
                    prefab_markers@,
                    k as int,
                    e,
                    prefab_id,
                ) {
                    let i = choose|i: int|
                        0 <= i < k + 1 && #[trigger] prefab_markers@[i].entity_id == e
                            && prefab_markers@[i].inner.main_id == prefab_id;
                    assert(i == k);
                }
                if marked_among(prefab_markers@, k as int, e, prefab_id) {
                    let i = choose|i: int|
                        0 <= i < k && #[trigger] prefab_markers@[i].entity_id == e
                            && prefab_markers@[i].inner.main_id == prefab_id;
                    assert(0 <= i < k + 1);
                }
                if marker.inner.main_id == prefab_id && e == marker.entity_id {
                    assert(prefab_markers@[k as int].entity_id == e);
                    assert(marked_among(prefab_markers@, k + 1, e, prefab_id));
                }
            }
        }
        k = k + 1;
    }
}

/// When a component of prefab `prefab_id` is edited, every instance of the
/// prefab that has a component of that type takes a copy of the edited
/// value; nothing else changes.
pub fn update_component_of_instances<T: Clone>(
    prefab_markers: &ComponentList<PrefabMarker>,
    prefab_id: u128,
    value: &T,
    components: &mut ComponentList<T>,
)
    requires
        old(components).wf(),
    ensures
        final(components).wf(),
        final(components)@.len() == old(components)@.len(),
        forall|i: int|
            0 <= i < old(components)@.len() ==> {
                let c = #[trigger] final(components)@[i];
                let o = old(components)@[i];
                &&& c.entity_id == o.entity_id
                &&& c.is_active == o.is_active
                &&& if is_instance_of(prefab_markers@, o.entity_id, prefab_id) {
                    cloned(*value, c.inner)
                } else {
                    c.inner == o.inner
                }
            },
{
    let ghost start = components@;
    let n = prefab_markers.len();
    let mut k: usize = 0;
    while k < n
        invariant
            n == prefab_markers@.len(),
            0 <= k <= n,
            components.wf(),
            components@.len() == start.len(),
            forall|i: int|
                0 <= i < start.len() ==> {
                    let c = #[trigger] components@[i];
                    let o = start[i];
                    &&& c.entity_id == o.entity_id
                    &&& c.is_active == o.is_active
                    &&& if marked_among(prefab_markers@, k as int, o.entity_id, prefab_id) {
                        cloned(*value, c.inner)
                    } else {
                        c.inner == o.inner
                    }
                },
        decreases n - k,
    {
        let marker = prefab_markers.at(k);
        let ghost before = components@;
        if marker.inner.main_id == prefab_id {
            if let Some(i) = components.index_of(&marker.entity_id) {
                let copy = value.clone();
                components.set_inner_at(i, copy);
            }
        }
        proof {
            assert forall|i: int| 0 <= i < start.len() implies {
                let c = #[trigger] components@[i];
                let o = start[i];
                &&& c.entity_id == o.entity_id
                &&& c.is_active == o.is_active
                &&& if marked_among(prefab_markers@, k + 1, o.entity_id, prefab_id) {
                    cloned(*value, c.inner)
                } else {
                    c.inner == o.inner
                }
            } by {
                let o = start[i];
                assert(before[i].entity_id == o.entity_id);
                if marked_among(prefab_markers@, k + 1, o.entity_id, prefab_id) && !marked_among(
                    prefab_markers@,
                    k as int,
                    o.entity_id,
                    prefab_id,
                ) {
                    let j = choose|j: int|
                        0 <= j < k + 1 && #[trigger] prefab_markers@[j].entity_id == o.entity_id
                            && prefab_markers@[j].inner.main_id == prefab_id;
                    assert(j == k);
                    lemma_position_of_unique(before, o.entity_id, i);
                }
                if marked_among(prefab_markers@, k as int, o.entity_id, prefab_id) {
                    let j = choose|j: int|
                        0 <= j < k && #[trigger] prefab_markers@[j].entity_id == o.entity_id
                            && prefab_markers@[j].inner.main_id == prefab_id;
                    assert(0 <= j < k + 1);
                }
                if marker.inner.main_id == prefab_id && o.entity_id == marker.entity_id {
                    assert(prefab_markers@[k as int].entity_id == o.entity_id);
                    assert(marked_among(prefab_markers@, k + 1, o.entity_id, prefab_id));
                    lemma_position_of_unique(before, o.entity_id, i);
                }
            }
        }
        k = k + 1;
    }
}


/// Whether the marker of `e` in `markers`, if any, names member `sub_id`
/// of prefab `main_id`.
pub open spec fn inherits_member(
    markers: Seq<Component<PrefabMarker>>,
    e: Entity,
    main_id: u128,
    sub_id: u128,
) -> bool {
    match lookup(markers, e) {
        Some(m) => m.main_id == main_id && m.sub_id == sub_id,
        None => false,
    }
}

/// The inheritors of member `sub_id` of prefab `main_id` among `entities`,
/// in order, each with the id it is serialized under, if any.
pub open spec fn member_inheritors(
    entities: Seq<Entity>,
    markers: Seq<Component<PrefabMarker>>,
    serialization_ids: Seq<Component<u128>>,
    main_id: u128,
    sub_id: u128,
) -> Seq<(Entity, Option<u128>)>
    decreases entities.len(),
{
    if entities.len() == 0 {
        Seq::empty()
    } else {
        let rest = member_inheritors(entities.drop_last(), markers, serialization_ids, main_id, sub_id);
        let e = entities.last();
        if inherits_member(markers, e, main_id, sub_id) {
            rest.push((e, lookup(serialization_ids, e)))
        } else {
            rest
        }
    }
}

/// After member `sub_id` of prefab `main_id` changed, the entities that
/// take the change: every inheritor of that member (see
/// `member_inheritors`), with the id it is serialized under, whose saved
/// form then loses its own copy of the component.
pub fn prefab_member_inheritors(
    entities: &Vec<Entity>,
    prefab_markers: &ComponentList<PrefabMarker>,
    serialization_ids: &ComponentList<u128>,
    main_id: u128,
    sub_id: u128,
) -> (inheritors: Vec<(Entity, Option<u128>)>)
    requires
        prefab_markers.wf(),
        serialization_ids.wf(),
    ensures
        inheritors@ == member_inheritors(entities@, prefab_markers@, serialization_ids@, main_id, sub_id),
{
    let mut inheritors: Vec<(Entity, Option<u128>)> = Vec::new();
    let n = entities.len();
    let mut i: usize = 0;
    while i < n
        invariant
            n == entities@.len(),
            0 <= i <= n,
            prefab_markers.wf(),
            serialization_ids.wf(),
            inheritors@ == member_inheritors(
                entities@.subrange(0, i as int),
                prefab_markers@,
                serialization_ids@,
                main_id,
                sub_id,
            ),
        decreases n - i,
    {
        let e = entities[i];
        proof {
            assert(entities@.subrange(0, i as int + 1).drop_last() =~= entities@.subrange(0, i as int));
        }
        let inherits = match prefab_markers.get(&e) {
            Some(m) => m.inner.main_id == main_id && m.inner.sub_id == sub_id,
            None => false,
        };
        if inherits {
            let id = match serialization_ids.get(&e) {
                Some(c) => Some(c.inner),
                None => None,
            };
            inheritors.push((e, id));
        }
        i = i + 1;
    }
    proof {
        assert(entities@.subrange(0, n as int) =~= entities@);
    }
    inheritors
}


/// The field `key` of a serialized entity after an override was laid over
/// it: a field the override gives a non-null value takes it; the others
/// keep the prefab's.
pub open spec fn overridden(
    prefab_fields: Seq<(String, Option<String>)>,
    override_fields: Seq<(String, Option<String>)>,
    key: Seq<char>,
) -> Option<Option<String>> {
    match named(override_fields, key) {
        Some(Some(v)) => Some(Some(v)),
        _ => named(prefab_fields, key),
    }
}

/// Lays an override over a prefab's serialized entity. Both are given as
/// the fields of their serialized mapping, each component under its key as
/// the text of its value (`None` for null); every non-null field of the
/// override replaces (or adds) the prefab's field of that key.
pub fn load_override_into_prefab(
    prefab_fields: Vec<(String, Option<String>)>,
    override_fields: Vec<(String, Option<String>)>,
) -> (merged: Vec<(String, Option<String>)>)
    requires
        distinct_names(prefab_fields@),
        distinct_names(override_fields@),
    ensures
        distinct_names(merged@),
        forall|key: Seq<char>|
            #[trigger] named(merged@, key) == overridden(prefab_fields@, override_fields@, key),
{
    let ghost ov = override_fields@;
    let ghost pf = prefab_fields@;
    let mut merged = prefab_fields;
    let mut remaining = override_fields;
    let n = remaining.len();
    let mut i: usize = 0;
    while i < n
        invariant
            n == ov.len(),
            0 <= i <= n,
            distinct_names(ov),
            remaining@ == ov.subrange(i as int, n as int),
            distinct_names(merged@),
            forall|key: Seq<char>|
                #[trigger] named(merged@, key) == overridden(pf, ov.subrange(0, i as int), key),
        decreases n - i,
    {
        let ghost before = merged@;
        let (key, value) = remaining.remove(0);
        proof {
            let sub = ov.subrange(0, i as int);
            assert(ov.subrange(0, i as int + 1) =~= sub.push((key, value)));
            assert(ov[i as int] == (key, value));
            assert forall|a: int, b: int|
                0 <= a < sub.push((key, value)).len() && 0 <= b < sub.push((key, value)).len() && a != b
                implies #[trigger] sub.push((key, value))[a].0@ != #[trigger] sub.push((key, value))[b].0@ by {
                assert(sub.push((key, value))[a] == ov[a]);
                assert(sub.push((key, value))[b] == ov[b]);
            }
            assert forall|k: Seq<char>| #[trigger] named(sub.push((key, value)), k) == if k == key@ {
                Some(value)
            } else {
                named(sub, k)
            } by {
                lemma_named_push(sub, (key, value), k);
            }
        }
        match value {
            Some(v) => {
                let ghost kv = key@;
                let ghost vv = Some(v);
                insert_named(&mut merged, key, Some(v));
                proof {
                    assert forall|k: Seq<char>|
                        #[trigger] named(merged@, k) == overridden(pf, ov.subrange(0, i as int + 1), k) by {
                        if k != kv {
                            assert(named(merged@, k) == named(before, k));
                        }
                    }
                }
            },
            None => {
                proof {
                    assert forall|k: Seq<char>|
                        #[trigger] named(merged@, k) == overridden(pf, ov.subrange(0, i as int + 1), k) by {
                        assert(named(merged@, k) == named(before, k));
                    }
                }
            },
        }
        i = i + 1;
    }
    proof {
        assert(ov.subrange(0, n as int) =~= ov);
    }
    merged
}

/// Whether `id` is among the serialization ids of `inheritors`.
pub open spec fn lists_id(inheritors: Seq<(Entity, Option<u128>)>, id: u128) -> bool {
    exists|i: int| 0 <= i < inheritors.len() && #[trigger] inheritors[i].1 == Some(id)
}

/// After a prefab member's component changed, the saved form of each of
/// its inheritors (`entities` lists every saved entity by id with the
/// fields of its serialized mapping) stores null under `key`, so that it
/// takes the prefab's component; the other saved entities and fields stay
/// as they were.
pub fn clear_inherited_component(
    entities: &mut Vec<(u128, Vec<(String, Option<String>)>)>,
    inheritors: &Vec<(Entity, Option<u128>)>,
    key: &String,
)
    requires
        forall|j: int| 0 <= j < old(entities)@.len() ==> distinct_names((#[trigger] old(entities)@[j]).1@),
    ensures
        final(entities)@.len() == old(entities)@.len(),
        forall|j: int|
            0 <= j < old(entities)@.len() ==> {
                &&& (#[trigger] final(entities)@[j]).0 == old(entities)@[j].0
                &&& distinct_names(final(entities)@[j].1@)
                &&& forall|k: Seq<char>|
                    #[trigger] named(final(entities)@[j].1@, k) == if k == key@ && lists_id(
                        inheritors@,
                        old(entities)@[j].0,
                    ) {
                        Some(None)
                    } else {
                        named(old(entities)@[j].1@, k)
                    }
            },
{
    let ghost start = entities@;
    let n = entities.len();
    let mut j: usize = 0;
    while j < n
        invariant
            n == start.len(),
            start == old(entities)@,
            entities@.len() == n,
            0 <= j <= n,
            forall|l: int| 0 <= l < n ==> distinct_names((#[trigger] start[l]).1@),
            forall|l: int| j <= l < n ==> #[trigger] entities@[l] == start[l],
            forall|l: int|
                0 <= l < j ==> {
                    &&& (#[trigger] entities@[l]).0 == start[l].0
                    &&& distinct_names(entities@[l].1@)
                    &&& forall|k: Seq<char>|
                        #[trigger] named(entities@[l].1@, k) == if k == key@ && lists_id(
                            inheritors@,
                            start[l].0,
                        ) {
                            Some(None)
                        } else {
                            named(start[l].1@, k)
                        }
                },
        decreases n - j,
    {
        let id = entities[j].0;
        let m = inheritors.len();
        let mut listed = false;
        let mut i: usize = 0;
        while i < m
            invariant
                m == inheritors@.len(),
                0 <= i <= m,
                listed == exists|x: int| 0 <= x < i && #[trigger] inheritors@[x].1 == Some(id),
            decreases m - i,
        {
            if inheritors[i].1 == Some(id) {
                listed = true;
            }
            i = i + 1;
        }
        let ghost before = entities@;
        assert(before[j as int] == start[j as int]);
        if listed {
            let (eid, mut fields) = entities.remove(j);
            insert_named(&mut fields, key.clone(), None);
            entities.insert(j, (eid, fields));
            proof {
                assert forall|l: int| 0 <= l < n && l != j implies #[trigger] entities@[l] == before[l] by {}
            }
        }
        j = j + 1;
    }
}

/// What the prefab editor's inspector of one component did.
#[derive(Debug, Clone, Copy, PartialEq, Eq, Structural, Hash)]
pub enum PrefabComponentInspectorResult {
    NoChange,
    Deleted,
    Update,
}

/// Carries an edit of a prefab's component over to the prefab's instances:
/// a deleted component is dropped from the prefab and from every instance
/// (see `remove_component_from_instances`); an updated one is copied to
/// every instance that has that component (see
/// `update_component_of_instances`). Returns whether the prefab changed.
pub fn apply_prefab_component_result<T: Clone>(
    result: PrefabComponentInspectorResult,
    prefab_component: &mut Option<T>,
    prefab_markers: &ComponentList<PrefabMarker>,
    prefab_id: u128,
    components: &mut ComponentList<T>,
) -> (changed: bool)
    requires
        old(components).wf(),
        result == PrefabComponentInspectorResult::Update ==> (*old(prefab_component)) is Some,
    ensures
        final(components).wf(),
        changed == (result != PrefabComponentInspectorResult::NoChange),
        result == PrefabComponentInspectorResult::NoChange ==> *final(prefab_component) == *old(
            prefab_component,
        ) && final(components)@ == old(components)@,
        result == PrefabComponentInspectorResult::Deleted ==> {
            &&& (*final(prefab_component)) is None
            &&& forall|e: Entity|
                #[trigger] has_entity(final(components)@, e) <==> (has_entity(old(components)@, e)
                    && !is_instance_of(prefab_markers@, e, prefab_id))
            &&& forall|e: Entity|
                has_entity(final(components)@, e) ==> #[trigger] lookup(final(components)@, e) == lookup(
                    old(components)@,
                    e,
                )
        },
        result == PrefabComponentInspectorResult::Update ==> {
            &&& *final(prefab_component) == *old(prefab_component)
            &&& final(components)@.len() == old(components)@.len()
            &&& forall|i: int|
                0 <= i < old(components)@.len() ==> {
                    let c = #[trigger] final(components)@[i];
                    let o = old(components)@[i];
                    &&& c.entity_id == o.entity_id
                    &&& c.is_active == o.is_active
                    &&& if is_instance_of(prefab_markers@, o.entity_id, prefab_id) {
                        cloned((*old(prefab_component)).unwrap(), c.inner)
                    } else {
                        c.inner == o.inner
                    }
                }
        },
{
    match result {
        PrefabComponentInspectorResult::NoChange => false,
        PrefabComponentInspectorResult::Deleted => {
            *prefab_component = None;
            remove_component_from_instances(prefab_markers, prefab_id, components);
            true
        },
        PrefabComponentInspectorResult::Update => {
            match prefab_component {
                Some(value) => {
                    update_component_of_instances(prefab_markers, prefab_id, value, components);
                },
                None => {},
            }
            true
        },
    }
}

} // verus!
