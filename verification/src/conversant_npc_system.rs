//! Conversant NPCs: each shows a UI sprite tinted by whether its partner is
//! close, and when asked to, the close NPC that comes last starts a
//! conversation.
use vstd::prelude::*;

use crate::ecs::{has_entity, lookup, Component, ComponentList, Entity};

verus! {

/// What the conversation logic needs to know of one conversant NPC this
/// frame.
#[derive(Debug, Clone, Copy, PartialEq, Eq, Structural)]
pub struct ConversantView<C> {
    /// The NPC has a partner, both have transforms, and the NPC's UI entity
    /// exists and has a sprite: the UI can be updated this frame.
    pub ui_ready: bool,
    /// The partner is within the NPC's conversation distance.
    pub close_enough: bool,
    /// A text UI prefab is set for starting a conversation.
    pub has_text_prefab: bool,
    pub color_on_close: C,
    pub color_on_far: C,
}

/// The tint the NPC's UI sprite takes, if its UI can be updated.
pub open spec fn spec_tint<C>(npc: ConversantView<C>) -> Option<C> {
    if npc.ui_ready {
        Some(
            if npc.close_enough {
                npc.color_on_close
            } else {
                npc.color_on_far
            },
        )
    } else {
        None
    }
}

/// Whether the NPC asks to start a conversation this frame.
pub open spec fn wants_conversation<C>(npc: ConversantView<C>, do_it: bool) -> bool {
    npc.ui_ready && npc.close_enough && do_it && npc.has_text_prefab
}

/// The last of the first `k` NPCs that asks to start a conversation.
pub open spec fn last_conversation<C>(npcs: Seq<ConversantView<C>>, k: int, do_it: bool) -> Option<
    int,
>
    decreases k,
{
    if k <= 0 {
        None
    } else if wants_conversation(npcs[k - 1], do_it) {
        Some(k - 1)
    } else {
        last_conversation(npcs, k - 1, do_it)
    }
}

/// One frame of the conversant NPCs: the tint of each NPC's UI sprite
/// (`None` where the UI cannot be updated), and which NPC starts a
/// conversation: the last one, in order, that is close to its partner and
/// has a text prefab, when `do_it` asks for conversations at all.
pub fn update_conv_npc_ui_sprites<C: Copy>(npcs: &Vec<ConversantView<C>>, do_it: bool) -> (r: (
    Vec<Option<C>>,
    Option<usize>,
))
    ensures
        r.0@.len() == npcs@.len(),
        forall|i: int| 0 <= i < npcs@.len() ==> #[trigger] r.0@[i] == spec_tint(npcs@[i]),
        r.1 == match last_conversation(npcs@, npcs@.len() as int, do_it) {
            Some(i) => Some(i as usize),
            None => None,
        },
{
    let n = npcs.len();
    let mut tints: Vec<Option<C>> = Vec::new();
    let mut create_prefab: Option<usize> = None;
    let mut i: usize = 0;
    while i < n
        invariant
            n == npcs@.len(),
            0 <= i <= n,
            tints@.len() == i,
            forall|j: int| 0 <= j < i ==> #[trigger] tints@[j] == spec_tint(npcs@[j]),
            create_prefab == match last_conversation(npcs@, i as int, do_it) {
                Some(j) => Some(j as usize),
                None => None,
            },
        decreases n - i,
    {
        let npc = npcs[i];
        if npc.ui_ready {
            let new_color = if npc.close_enough {
                if do_it && npc.has_text_prefab {
                    create_prefab = Some(i);
                }
                npc.color_on_close
            } else {
                npc.color_on_far
            };
            tints.push(Some(new_color));
        } else {
            tints.push(None);
        }
        i = i + 1;
    }
    (tints, create_prefab)
}

/// The NPCs among the first `k` that have an initial UI prefab set, with
/// that prefab, in order.
pub open spec fn initial_ui_requests_of(npcs: Seq<Component<Option<u128>>>, k: nat) -> Seq<
    (Entity, u128),
>
    decreases k,
{
    if k == 0 {
        Seq::empty()
    } else {
        let rest = initial_ui_requests_of(npcs, (k - 1) as nat);
        match npcs[k - 1].inner {
            Some(prefab) => rest.push((npcs[k - 1].entity_id, prefab)),
            None => rest,
        }
    }
}

/// At start-up, each conversant NPC spawns its initial UI prefab: the
/// list, in order, of the NPCs (given with their initial UI prefab, if set)
/// that have one, paired with it. NPCs without one are skipped.
pub fn initial_ui_requests(npcs: &ComponentList<Option<u128>>) -> (requests: Vec<(Entity, u128)>)
    ensures
        requests@ == initial_ui_requests_of(npcs@, npcs@.len()),
{
    let mut requests: Vec<(Entity, u128)> = Vec::new();
    let n = npcs.len();
    let mut i: usize = 0;
    while i < n
        invariant
            n == npcs@.len(),
            0 <= i <= n,
            requests@ == initial_ui_requests_of(npcs@, i as nat),
        decreases n - i,
    {
        let c = npcs.at(i);
        if let Some(prefab_ui) = c.inner {
            requests.push((c.entity_id, prefab_ui));
        }
        i = i + 1;
    }
    requests
}


/// Hands a conversation's new text UI to the NPC that started it: the new
/// UI entity (spawned from the NPC's text prefab) follows the NPC when it
/// can follow, and becomes the NPC's runtime UI. `runtime_uis` holds each
/// conversant NPC's runtime UI, `follow_targets` each follower's target;
/// the old UI entity is removed by the caller.
pub fn apply_conversation_change(
    runtime_uis: &mut ComponentList<Option<Entity>>,
    follow_targets: &mut ComponentList<Option<Entity>>,
    originator: Entity,
    new_ui: Entity,
)
    requires
        old(runtime_uis).wf(),
        old(follow_targets).wf(),
        has_entity(old(runtime_uis)@, originator),
    ensures
        final(runtime_uis).wf(),
        final(follow_targets).wf(),
        lookup(final(runtime_uis)@, originator) == Some(Some(new_ui)),
        forall|e: Entity| #[trigger] has_entity(final(runtime_uis)@, e) == has_entity(old(runtime_uis)@, e),
        forall|e: Entity|
            e != originator ==> #[trigger] lookup(final(runtime_uis)@, e) == lookup(old(runtime_uis)@, e),
        forall|e: Entity| #[trigger] has_entity(final(follow_targets)@, e) == has_entity(old(follow_targets)@, e),
        has_entity(old(follow_targets)@, new_ui) ==> lookup(final(follow_targets)@, new_ui) == Some(
            Some(originator),
        ),
        forall|e: Entity|
            e != new_ui ==> #[trigger] lookup(final(follow_targets)@, e) == lookup(old(follow_targets)@, e),
        !has_entity(old(follow_targets)@, new_ui) ==> final(follow_targets)@ == old(follow_targets)@,
{
    if follow_targets.index_of(&new_ui).is_some() {
        follow_targets.set(&new_ui, Some(originator));
    }
    runtime_uis.set(&originator, Some(new_ui));
}

/// Only an NPC whose UI can be updated, whose partner is close enough and
/// that has a text prefab starts a conversation, and only when
/// conversations are asked for; it is the last such NPC.
pub proof fn lemma_conversation_needs_a_close_partner<C>(npcs: Seq<ConversantView<C>>, k: int, do_it: bool)
    requires
        0 <= k <= npcs.len(),
    ensures
        last_conversation(npcs, k, do_it) matches Some(i) ==> {
            &&& 0 <= i < k
            &&& npcs[i].ui_ready
            &&& npcs[i].close_enough
            &&& npcs[i].has_text_prefab
            &&& do_it
            &&& forall|j: int|
                i < j < k ==> !(npcs[j].ui_ready && npcs[j].close_enough && npcs[j].has_text_prefab)
        },
        last_conversation(npcs, k, do_it) is None ==> forall|j: int|
            0 <= j < k ==> !(do_it && npcs[j].ui_ready && npcs[j].close_enough && npcs[j].has_text_prefab),
    decreases k,
{
    if k > 0 {
        lemma_conversation_needs_a_close_partner(npcs, k - 1, do_it);
    }
}

/// An NPC's UI takes the close colour exactly when its partner is close,
/// the far colour otherwise, and keeps its tint when it cannot be updated.
pub proof fn lemma_tint_follows_distance<C>(npc: ConversantView<C>)
    ensures
        npc.ui_ready && npc.close_enough ==> spec_tint(npc) == Some(npc.color_on_close),
        npc.ui_ready && !npc.close_enough ==> spec_tint(npc) == Some(npc.color_on_far),
        !npc.ui_ready ==> spec_tint(npc) is None,
{
}

} // verus!
