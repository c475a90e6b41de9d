use clockwork::cross_cutting_system::{
    bounding_box_and_sprite, cross_cutting_system, draw_rectangle_and_bounding_box, BoundingBox,
    DrawRectangle,
};
use clockwork::ecs::{ComponentList, Entity};
use clockwork::physics_system::{create_positional_rect_lists, merge_bounding_boxes};
use clockwork::renderer_system::{
    advance_frame, assign_text_pages, glyph_pixels, render, swapchain_extent, text_step, DrawingError,
    GlyphCacheOutcome, RenderStep, TextStep,
};

fn e(i: u32) -> Entity {
    Entity::new(i, 0)
}

#[test]
fn positional_rect_lists_split_ours_from_others() {
    let mut rects = ComponentList::new();
    rects.set(&e(1), 10u32);
    rects.set(&e(2), 20u32);
    rects.set(&e(3), 30u32);
    let tilemaps = vec![vec![100u32, 101], vec![], vec![200]];
    let (ours, others) = create_positional_rect_lists(e(2), &rects, &tilemaps);
    assert_eq!(ours, 20);
    assert_eq!(others, vec![10, 30, 100, 101, 200]);
}

#[test]
fn merge_appends_in_order() {
    let mut out = vec![1u8];
    merge_bounding_boxes(&[2, 3], &mut out);
    assert_eq!(out, vec![1, 2, 3]);
    merge_bounding_boxes(&[], &mut out);
    assert_eq!(out, vec![1, 2, 3]);
}

#[test]
fn bounding_boxes_follow_sprites() {
    let mut bbs = ComponentList::new();
    bbs.set(&e(1), BoundingBox { bind_to_sprite: true, rect: 1u32 });
    bbs.set(&e(2), BoundingBox { bind_to_sprite: true, rect: 2u32 });
    bbs.set(&e(3), BoundingBox { bind_to_sprite: true, rect: 3u32 });
    bbs.set(&e(4), BoundingBox { bind_to_sprite: false, rect: 4u32 });
    let mut sprites = ComponentList::new();
    sprites.set(&e(1), Some(11u32));
    sprites.set(&e(2), None);
    sprites.set(&e(4), Some(44u32));
    bounding_box_and_sprite(&mut bbs, &sprites);
    assert_eq!(*bbs.get(&e(1)).unwrap().inner(), BoundingBox { bind_to_sprite: true, rect: 11 });
    assert_eq!(*bbs.get(&e(2)).unwrap().inner(), BoundingBox { bind_to_sprite: true, rect: 2 });
    assert_eq!(*bbs.get(&e(3)).unwrap().inner(), BoundingBox { bind_to_sprite: false, rect: 3 });
    assert_eq!(*bbs.get(&e(4)).unwrap().inner(), BoundingBox { bind_to_sprite: false, rect: 4 });
}

#[test]
fn draw_rectangles_follow_bounding_boxes() {
    let mut drs = ComponentList::new();
    drs.set(&e(1), DrawRectangle { bind_to_bounding_box: true, rect: 0u32 });
    drs.set(&e(2), DrawRectangle { bind_to_bounding_box: true, rect: 0u32 });
    drs.set(&e(3), DrawRectangle { bind_to_bounding_box: false, rect: 0u32 });
    let mut bbs = ComponentList::new();
    bbs.set(&e(1), BoundingBox { bind_to_sprite: false, rect: 5u32 });
    bbs.set(&e(3), BoundingBox { bind_to_sprite: false, rect: 6u32 });
    draw_rectangle_and_bounding_box(&mut drs, &bbs);
    assert_eq!(*drs.get(&e(1)).unwrap().inner(), DrawRectangle { bind_to_bounding_box: true, rect: 5 });
    assert_eq!(*drs.get(&e(2)).unwrap().inner(), DrawRectangle { bind_to_bounding_box: false, rect: 0 });
    assert_eq!(*drs.get(&e(3)).unwrap().inner(), DrawRectangle { bind_to_bounding_box: false, rect: 0 });
}

#[test]
fn cross_cutting_chains_sprite_to_draw_rect() {
    let mut bbs = ComponentList::new();
    bbs.set(&e(1), BoundingBox { bind_to_sprite: true, rect: 0u32 });
    let mut sprites = ComponentList::new();
    sprites.set(&e(1), Some(7u32));
    let mut drs = ComponentList::new();
    drs.set(&e(1), DrawRectangle { bind_to_bounding_box: true, rect: 0u32 });
    cross_cutting_system(&mut bbs, &sprites, &mut drs);
    assert_eq!(drs.get(&e(1)).unwrap().inner().rect, 7);
}

#[test]
fn render_decisions() {
    assert_eq!(render(Ok(false)), RenderStep::Done);
    assert_eq!(render(Ok(true)), RenderStep::RecreateSwapchain);
    assert_eq!(
        render(Err(DrawingError::AcquireAnImageFromSwapchain)),
        RenderStep::RecreateSwapchain
    );
    assert_eq!(render(Err(DrawingError::PresentIntoSwapchain)), RenderStep::RecreateSwapchain);
    assert_eq!(
        render(Err(DrawingError::WaitOnFence)),
        RenderStep::Failed(DrawingError::WaitOnFence)
    );
    assert_eq!(
        render(Err(DrawingError::ResetFence)),
        RenderStep::Failed(DrawingError::ResetFence)
    );
    assert_eq!(
        render(Err(DrawingError::DynamicTextureCreation)),
        RenderStep::Failed(DrawingError::DynamicTextureCreation)
    );
}

#[test]
fn frames_cycle() {
    assert_eq!(advance_frame(0, 3), 1);
    assert_eq!(advance_frame(2, 3), 0);
    assert_eq!(advance_frame(0, 1), 0);
}

#[test]
fn glyph_pixels_repeat_coverage() {
    assert_eq!(glyph_pixels(&[1, 200]), vec![1, 1, 1, 1, 200, 200, 200, 200]);
    assert_eq!(glyph_pixels(&[]), Vec::<u8>::new());
}

#[test]
fn cross_cutting_twice_changes_nothing_more() {
    let mut bbs = ComponentList::new();
    bbs.set(&e(1), BoundingBox { bind_to_sprite: true, rect: 0u32 });
    bbs.set(&e(2), BoundingBox { bind_to_sprite: true, rect: 5u32 });
    let mut sprites = ComponentList::new();
    sprites.set(&e(1), Some(7u32));
    let mut drs = ComponentList::new();
    drs.set(&e(1), DrawRectangle { bind_to_bounding_box: true, rect: 0u32 });
    drs.set(&e(3), DrawRectangle { bind_to_bounding_box: true, rect: 9u32 });
    cross_cutting_system(&mut bbs, &sprites, &mut drs);
    let once_bbs: Vec<_> = (0..bbs.len()).map(|i| *bbs.at(i).inner()).collect();
    let once_drs: Vec<_> = (0..drs.len()).map(|i| *drs.at(i).inner()).collect();
    cross_cutting_system(&mut bbs, &sprites, &mut drs);
    let twice_bbs: Vec<_> = (0..bbs.len()).map(|i| *bbs.at(i).inner()).collect();
    let twice_drs: Vec<_> = (0..drs.len()).map(|i| *drs.at(i).inner()).collect();
    assert_eq!(once_bbs, twice_bbs);
    assert_eq!(once_drs, twice_drs);
    assert_eq!(twice_drs[1], DrawRectangle { bind_to_bounding_box: false, rect: 9 });
}

#[test]
fn fonts_in_use_get_the_next_free_pages() {
    // Font 1 already has page 0; fonts 0 and 2 are used and get new pages in
    // order of first use; font 3 is unused; font 9 is unknown.
    let mut pages = vec![None, Some(0), None, None];
    let new = assign_text_pages(&mut pages, &vec![2, 1, 9, 0, 2], 4);
    assert_eq!(new, 2);
    assert_eq!(pages, vec![Some(5), Some(0), Some(4), None]);
    assert_eq!(assign_text_pages(&mut pages, &vec![0, 1, 2], 6), 0);
    assert_eq!(pages, vec![Some(5), Some(0), Some(4), None]);
}

#[test]
fn the_swapchain_fits_window_and_surface() {
    assert_eq!(swapchain_extent((1920, 1080), (800, 600)), (800, 600));
    assert_eq!(swapchain_extent((640, 1080), (800, 600)), (640, 600));
    assert_eq!(swapchain_extent((640, 480), (800, 600)), (640, 480));
}

#[test]
fn text_building_grows_a_small_page() {
    assert_eq!(text_step(GlyphCacheOutcome::Draw), TextStep::Done(true));
    assert_eq!(text_step(GlyphCacheOutcome::ReDraw), TextStep::Done(false));
    assert_eq!(text_step(GlyphCacheOutcome::TextureTooSmall(512, 256)), TextStep::GrowPage(512, 256));
}
