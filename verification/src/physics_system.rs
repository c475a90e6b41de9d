//! Gathering the collision boxes an entity moves among.
use vstd::prelude::*;

use crate::ecs::{has_entity, lemma_position_of_unique, lookup, Component, ComponentList, Entity};

verus! {

/// The boxes, in order, of every component of `s` that does not belong to `e`.
pub open spec fn boxes_of_others<P>(s: Seq<Component<P>>, e: Entity) -> Seq<P>
    decreases s.len(),
{
    if s.len() == 0 {
        Seq::empty()
    } else {
        let rest = boxes_of_others(s.drop_last(), e);
        if s.last().entity_id != e {
            rest.push(s.last().inner)
        } else {
            rest
        }
    }
}

/// All boxes of all lists, one list after the other.
pub open spec fn concat_all<P>(lists: Seq<Seq<P>>) -> Seq<P>
    decreases lists.len(),
{
    if lists.len() == 0 {
        Seq::empty()
    } else {
        concat_all(lists.drop_last()) + lists.last()
    }
}

/// Splits the positioned bounding boxes of the objects into the one of
/// `entity_id` and those of everyone else, then adds the collision boxes of
/// every tilemap after the others. `entity_id` must have a bounding box.
pub fn create_positional_rect_lists<P: Copy>(
    entity_id: Entity,
    object_rects: &ComponentList<P>,
    tilemap_boxes: &Vec<Vec<P>>,
) -> (r: (P, Vec<P>))
    requires
        object_rects.wf(),
        has_entity(object_rects@, entity_id),
    ensures
        Some(r.0) == lookup(object_rects@, entity_id),
        r.1@ == boxes_of_others(object_rects@, entity_id) + concat_all(
            tilemap_boxes@.map_values(|v: Vec<P>| v@),
        ),
{
    let mut out_list: Vec<P> = Vec::new();
    let mut our_bb: Option<P> = None;
    let n = object_rects.len();
    let mut i: usize = 0;
    while i < n
        invariant
            n == object_rects@.len(),
            object_rects.wf(),
            0 <= i <= n,
            out_list@ == boxes_of_others(object_rects@.take(i as int), entity_id),
            our_bb matches Some(b) ==> Some(b) == lookup(object_rects@, entity_id),
            our_bb is None ==> forall|j: int| 0 <= j < i ==> object_rects@[j].entity_id != entity_id,
        decreases n - i,
    {
        let this_comp = object_rects.at(i);
        proof {
            assert(object_rects@.take(i + 1).drop_last() =~= object_rects@.take(i as int));
        }
        if this_comp.entity_id == entity_id {
            proof {
                lemma_position_of_unique(object_rects@, entity_id, i as int);
            }
            our_bb = Some(this_comp.inner);
        } else {
            out_list.push(this_comp.inner);
        }
        i = i + 1;
    }
    proof {
        assert(object_rects@.take(n as int) =~= object_rects@);
        if our_bb is None {
            let j = crate::ecs::position_of(object_rects@, entity_id);
        }
    }
    let ghost others = out_list@;
    let ghost lists = tilemap_boxes@.map_values(|v: Vec<P>| v@);
    let m = tilemap_boxes.len();
    let mut t: usize = 0;
    while t < m
        invariant
            m == tilemap_boxes@.len(),
            lists == tilemap_boxes@.map_values(|v: Vec<P>| v@),
            0 <= t <= m,
            out_list@ == others + concat_all(lists.take(t as int)),
        decreases m - t,
    {
        let boxes = &tilemap_boxes[t];
        let k = boxes.len();
        let mut b: usize = 0;
        let ghost start = out_list@;
        while b < k
            invariant
                k == boxes@.len(),
                0 <= b <= k,
                out_list@ == start + boxes@.take(b as int),
            decreases k - b,
        {
            out_list.push(boxes[b]);
            proof {
                assert(boxes@.take(b + 1) =~= boxes@.take(b as int).push(boxes@[b as int]));
                assert(out_list@ =~= start + boxes@.take(b + 1));
            }
            b = b + 1;
        }
        proof {
            assert(boxes@.take(k as int) =~= boxes@);
            assert(lists.take(t + 1).drop_last() =~= lists.take(t as int));
            assert(lists.take(t + 1).last() == boxes@);
            assert(out_list@ =~= others + concat_all(lists.take(t + 1)));
        }
        t = t + 1;
    }
    proof {
        assert(lists.take(m as int) =~= lists);
    }
    (our_bb.unwrap(), out_list)
}

/// Appends copies of all `input_boxes` to `output_vec`, in order.
pub fn merge_bounding_boxes<R: Copy>(input_boxes: &[R], output_vec: &mut Vec<R>)
    ensures
        final(output_vec)@ == old(output_vec)@ + input_boxes@,
{
    let ghost start = output_vec@;
    let n = input_boxes.len();
    let mut i: usize = 0;
    while i < n
        invariant
            n == input_boxes@.len(),
            0 <= i <= n,
            output_vec@ == start + input_boxes@.take(i as int),
        decreases n - i,
    {
        output_vec.push(input_boxes[i]);
        proof {
            assert(input_boxes@.take(i + 1) =~= input_boxes@.take(i as int).push(input_boxes@[i as int]));
            assert(output_vec@ =~= start + input_boxes@.take(i + 1));
        }
        i = i + 1;
    }
    proof {
        assert(input_boxes@.take(n as int) =~= input_boxes@);
    }
}

} // verus!
