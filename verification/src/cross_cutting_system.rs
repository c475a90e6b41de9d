//! Keeping bounding boxes in step with sprites, and drawn rectangles in
//! step with bounding boxes.
use vstd::prelude::*;

use crate::ecs::{lookup, Component, ComponentList};

verus! {

/// A collision box, optionally sized from the entity's sprite.
#[derive(Debug, Clone, Copy, PartialEq, Eq, Structural)]
pub struct BoundingBox<R> {
    pub bind_to_sprite: bool,
    pub rect: R,
}

/// A rectangle to draw, optionally copied from the entity's bounding box.
#[derive(Debug, Clone, Copy, PartialEq, Eq, Structural)]
pub struct DrawRectangle<R> {
    pub bind_to_bounding_box: bool,
    pub rect: R,
}

/// A bounding box after following the sprite: when bound and the entity's
/// sprite names its image, it takes the rectangle of that image; when
/// bound and the entity has no sprite, it stops being bound.
pub open spec fn bounding_box_following<R>(
    bb: Component<BoundingBox<R>>,
    sprite_rects: Seq<Component<Option<R>>>,
) -> Component<BoundingBox<R>> {
    if bb.inner.bind_to_sprite {
        match lookup(sprite_rects, bb.entity_id) {
            Some(Some(rect)) => Component {
                entity_id: bb.entity_id,
                is_active: bb.is_active,
                inner: BoundingBox { bind_to_sprite: true, rect: rect },
            },
            Some(None) => bb,
            None => Component {
                entity_id: bb.entity_id,
                is_active: bb.is_active,
                inner: BoundingBox { bind_to_sprite: false, rect: bb.inner.rect },
            },
        }
    } else {
        bb
    }
}

/// A draw rectangle after following the bounding box: when bound, it copies
/// the entity's bounding box rectangle, or stops being bound when the
/// entity has none.
pub open spec fn draw_rectangle_following<R>(
    dr: Component<DrawRectangle<R>>,
    bbs: Seq<Component<BoundingBox<R>>>,
) -> Component<DrawRectangle<R>> {
    if dr.inner.bind_to_bounding_box {
        match lookup(bbs, dr.entity_id) {
            Some(bb) => Component {
                entity_id: dr.entity_id,
                is_active: dr.is_active,
                inner: DrawRectangle { bind_to_bounding_box: true, rect: bb.rect },
            },
            None => Component {
                entity_id: dr.entity_id,
                is_active: dr.is_active,
                inner: DrawRectangle { bind_to_bounding_box: false, rect: dr.inner.rect },
            },
        }
    } else {
        dr
    }
}

/// Each sprite-bound bounding box takes the rectangle of its entity's
/// sprite image. `sprite_rects` gives, for each sprite, the rectangle its
/// image occupies relative to the entity, or `None` when the sprite names
/// no image.
pub fn bounding_box_and_sprite<R: Copy>(
    bbs: &mut ComponentList<BoundingBox<R>>,
    sprite_rects: &ComponentList<Option<R>>,
)
    requires
        old(bbs).wf(),
        sprite_rects.wf(),
    ensures
        final(bbs).wf(),
        final(bbs)@ == old(bbs)@.map_values(
            |bb: Component<BoundingBox<R>>| bounding_box_following(bb, sprite_rects@),
        ),
{
    let ghost start = bbs@;
    let n = bbs.len();
    let mut i: usize = 0;
    while i < n
        invariant
            n == start.len(),
            bbs.wf(),
            sprite_rects.wf(),
            0 <= i <= n,
            bbs@.len() == n,
            forall|j: int|
                0 <= j < n ==> #[trigger] bbs@[j] == if j < i {
                    bounding_box_following(start[j], sprite_rects@)
                } else {
                    start[j]
                },
        decreases n - i,
    {
        let this_bb = *bbs.at(i).inner();
        let this_entity_id = bbs.at(i).entity_id;
        if this_bb.bind_to_sprite {
            match sprite_rects.get(&this_entity_id) {
                Some(this_sprite) => {
                    if let Some(rect) = this_sprite.inner {
                        bbs.set_inner_at(i, BoundingBox { bind_to_sprite: true, rect });
                    }
                },
                None => {
                    bbs.set_inner_at(i, BoundingBox { bind_to_sprite: false, rect: this_bb.rect });
                },
            }
        }
        i = i + 1;
    }
    proof {
        assert(bbs@ =~= start.map_values(
            |bb: Component<BoundingBox<R>>| bounding_box_following(bb, sprite_rects@),
        ));
    }
}

/// Each box-bound draw rectangle copies its entity's bounding box
/// rectangle; one whose entity has no bounding box stops being bound.
pub fn draw_rectangle_and_bounding_box<R: Copy>(
    draw_rects: &mut ComponentList<DrawRectangle<R>>,
    bbs: &ComponentList<BoundingBox<R>>,
)
    requires
        old(draw_rects).wf(),
        bbs.wf(),
    ensures
        final(draw_rects).wf(),
        final(draw_rects)@ == old(draw_rects)@.map_values(
            |dr: Component<DrawRectangle<R>>| draw_rectangle_following(dr, bbs@),
        ),
{
    let ghost start = draw_rects@;
    let n = draw_rects.len();
    let mut i: usize = 0;
    while i < n
        invariant
            n == start.len(),
            draw_rects.wf(),
            bbs.wf(),
            0 <= i <= n,
            draw_rects@.len() == n,
            forall|j: int|
                0 <= j < n ==> #[trigger] draw_rects@[j] == if j < i {
                    draw_rectangle_following(start[j], bbs@)
                } else {
                    start[j]
                },
        decreases n - i,
    {
        let this_dr = *draw_rects.at(i).inner();
        let this_entity_id = draw_rects.at(i).entity_id;
        if this_dr.bind_to_bounding_box {
            match bbs.get(&this_entity_id) {
                Some(this_bb) => {
                    let rect = this_bb.inner.rect;
                    draw_rects.set_inner_at(i, DrawRectangle { bind_to_bounding_box: true, rect });
                },
                None => {
                    draw_rects.set_inner_at(
                        i,
                        DrawRectangle { bind_to_bounding_box: false, rect: this_dr.rect },
                    );
                },
            }
        }
        i = i + 1;
    }
    proof {
        assert(draw_rects@ =~= start.map_values(
            |dr: Component<DrawRectangle<R>>| draw_rectangle_following(dr, bbs@),
        ));
    }
}

/// Bounding boxes follow sprites first; draw rectangles then follow the
/// updated bounding boxes.
pub fn cross_cutting_system<R: Copy>(
    bbs: &mut ComponentList<BoundingBox<R>>,
    sprite_rects: &ComponentList<Option<R>>,
    draw_rects: &mut ComponentList<DrawRectangle<R>>,
)
    requires
        old(bbs).wf(),
        sprite_rects.wf(),
        old(draw_rects).wf(),
    ensures
        final(bbs).wf(),
        final(draw_rects).wf(),
        final(bbs)@ == old(bbs)@.map_values(
            |bb: Component<BoundingBox<R>>| bounding_box_following(bb, sprite_rects@),
        ),
        final(draw_rects)@ == old(draw_rects)@.map_values(
            |dr: Component<DrawRectangle<R>>| draw_rectangle_following(dr, final(bbs)@),
        ),
{
    bounding_box_and_sprite(bbs, sprite_rects);
    draw_rectangle_and_bounding_box(draw_rects, bbs);
}

/// Binding is stable: once bounding boxes followed the sprites, following
/// the same sprites again changes nothing.
pub proof fn lemma_bounding_boxes_settle<R>(
    bbs: Seq<Component<BoundingBox<R>>>,
    sprite_rects: Seq<Component<Option<R>>>,
)
    ensures
        ({
            let once = bbs.map_values(
                |bb: Component<BoundingBox<R>>| bounding_box_following(bb, sprite_rects),
            );
            once.map_values(|bb: Component<BoundingBox<R>>| bounding_box_following(bb, sprite_rects))
                == once
        }),
{
    let once = bbs.map_values(
        |bb: Component<BoundingBox<R>>| bounding_box_following(bb, sprite_rects),
    );
    let twice = once.map_values(
        |bb: Component<BoundingBox<R>>| bounding_box_following(bb, sprite_rects),
    );
    assert(twice =~= once);
}

/// Likewise, once draw rectangles followed the bounding boxes, following
/// the same bounding boxes again changes nothing.
pub proof fn lemma_draw_rectangles_settle<R>(
    draw_rects: Seq<Component<DrawRectangle<R>>>,
    bbs: Seq<Component<BoundingBox<R>>>,
)
    ensures
        ({
            let once = draw_rects.map_values(
                |dr: Component<DrawRectangle<R>>| draw_rectangle_following(dr, bbs),
            );
            once.map_values(|dr: Component<DrawRectangle<R>>| draw_rectangle_following(dr, bbs))
                == once
        }),
{
    let once = draw_rects.map_values(
        |dr: Component<DrawRectangle<R>>| draw_rectangle_following(dr, bbs),
    );
    let twice = once.map_values(
        |dr: Component<DrawRectangle<R>>| draw_rectangle_following(dr, bbs),
    );
    assert(twice =~= once);
}

} // verus!
