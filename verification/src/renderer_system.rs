//! The decisions of the frame loop: what to do after drawing a frame, which
//! frame slot comes next, and how glyph coverage becomes texture bytes.
use vstd::prelude::*;

verus! {

/// Why drawing a frame failed.
#[derive(Debug, Clone, Copy, PartialEq, Eq, Structural, Hash)]
pub enum DrawingError {
    AcquireAnImageFromSwapchain,
    WaitOnFence,
    ResetFence,
    PresentIntoSwapchain,
    DynamicTextureCreation,
}

/// What the frame loop does after an attempt to draw.
#[derive(Debug, Clone, Copy, PartialEq, Eq, Structural, Hash)]
pub enum RenderStep {
    /// The frame was presented; nothing more to do.
    Done,
    /// The swapchain no longer fits the window and is rebuilt.
    RecreateSwapchain,
    /// Drawing failed for good with this error.
    Failed(DrawingError),
}

/// Decides from the outcome of drawing a frame: `Ok(suboptimal)` when it was
/// presented (and whether the swapchain was reported suboptimal), or the
/// error. A suboptimal swapchain, or a failure to acquire or present an
/// image, rebuilds the swapchain; other errors are passed on.
pub fn render(draw_result: Result<bool, DrawingError>) -> (step: RenderStep)
    ensures
        step == match draw_result {
            Ok(true) => RenderStep::RecreateSwapchain,
            Ok(false) => RenderStep::Done,
            Err(DrawingError::AcquireAnImageFromSwapchain) => RenderStep::RecreateSwapchain,
            Err(DrawingError::PresentIntoSwapchain) => RenderStep::RecreateSwapchain,
            Err(e) => RenderStep::Failed(e),
        },
{
    match draw_result {
        Ok(sub_optimal) => {
            if sub_optimal {
                RenderStep::RecreateSwapchain
            } else {
                RenderStep::Done
            }
        },
        Err(e) => match e {
            DrawingError::AcquireAnImageFromSwapchain | DrawingError::PresentIntoSwapchain => {
                RenderStep::RecreateSwapchain
            },
            _ => RenderStep::Failed(e),
        },
    }
}

/// The frame slot after `current_frame`, cycling through `frames_in_flight`.
pub fn advance_frame(current_frame: usize, frames_in_flight: usize) -> (next: usize)
    requires
        frames_in_flight > 0,
        current_frame < usize::MAX,
    ensures
        next == (current_frame + 1) % (frames_in_flight as int),
        next < frames_in_flight,
{
    (current_frame + 1) % frames_in_flight
}

/// The texture bytes of a glyph: each coverage value repeated in all four
/// channels of its pixel.
pub fn glyph_pixels(tex_data: &[u8]) -> (pixels: Vec<u8>)
    requires
        tex_data@.len() * 4 <= usize::MAX,
    ensures
        pixels@.len() == 4 * tex_data@.len(),
        forall|i: int| 0 <= i < pixels@.len() ==> #[trigger] pixels@[i] == tex_data@[i / 4],
{
    let n = tex_data.len();
    let mut pass_through_vec: Vec<u8> = Vec::with_capacity(n * 4);
    let mut i: usize = 0;
    while i < n
        invariant
            n == tex_data@.len(),
            n * 4 <= usize::MAX,
            0 <= i <= n,
            pass_through_vec@.len() == 4 * i,
            forall|j: int| 0 <= j < 4 * i ==> #[trigger] pass_through_vec@[j] == tex_data@[j / 4],
        decreases n - i,
    {
        let opacity_val = tex_data[i];
        let mut k: usize = 0;
        while k < 4
            invariant
                0 <= k <= 4,
                i < n,
                pass_through_vec@.len() == 4 * i + k,
                forall|j: int| 0 <= j < 4 * i ==> #[trigger] pass_through_vec@[j] == tex_data@[j / 4],
                forall|j: int| 4 * i <= j < 4 * i + k ==> #[trigger] pass_through_vec@[j] == opacity_val,
                opacity_val == tex_data@[i as int],
            decreases 4 - k,
        {
            pass_through_vec.push(opacity_val);
            k = k + 1;
        }
        proof {
            assert forall|j: int| 0 <= j < 4 * (i + 1) implies #[trigger] pass_through_vec@[j] == tex_data@[j / 4] by {
                if j >= 4 * i {
                    assert(j / 4 == i as int);
                }
            }
        }
        i = i + 1;
    }
    pass_through_vec
}

/// Gives a font its texture page on first use: a font without one takes
/// the next free page, `loaded_textures`. Returns the font's page and
/// whether a new texture must be allocated for it.
pub fn assign_texture_page(texture_page: &mut Option<usize>, loaded_textures: usize) -> (r: (
    usize,
    bool,
))
    ensures
        *final(texture_page) == Some(r.0),
        r.1 == (*old(texture_page) is None),
        r.0 == match *old(texture_page) {
            Some(page) => page,
            None => loaded_textures,
        },
{
    match *texture_page {
        Some(page) => (page, false),
        None => {
            *texture_page = Some(loaded_textures);
            (loaded_textures, true)
        },
    }
}

/// Whether font `f` is the font of one of the first `n` text sources.
pub open spec fn used_among(used: Seq<usize>, n: int, f: int) -> bool {
    exists|j: int| 0 <= j < n && used[j] == f
}

/// Whether page `k` went to a font of `after` that had none in `before`.
pub open spec fn page_taken(before: Seq<Option<usize>>, after: Seq<Option<usize>>, k: int) -> bool {
    exists|f: int| 0 <= f < before.len() && before[f] is None && #[trigger] after[f] == Some(k as usize)
}

/// Whether the `j`-th text source is the first use of a font that is known
/// and had no page.
pub open spec fn takes_new_page(pages: Seq<Option<usize>>, used: Seq<usize>, j: int) -> bool {
    &&& used[j] < pages.len()
    &&& pages[used[j] as int] is None
    &&& !used_among(used, j, used[j] as int)
}

/// How many of the first `n` text sources take a new page.
pub open spec fn new_pages_before(pages: Seq<Option<usize>>, used: Seq<usize>, n: int) -> int
    decreases n,
{
    if n <= 0 {
        0
    } else {
        new_pages_before(pages, used, n - 1) + if takes_new_page(pages, used, n - 1) {
            1int
        } else {
            0
        }
    }
}

/// Gives every font that some text source uses a texture page: `pages[f]`
/// is the page of font `f`, `used` lists the font of each text source, in
/// order, and a source whose font is unknown is passed over. A font that
/// has no page yet takes the next free one, counting from `textures_len`.
/// Returns how many new pages are taken: the new pages are exactly
/// `textures_len .. textures_len + new`, one per font that had none and is
/// used, given in order of first use.
pub fn assign_text_pages(pages: &mut Vec<Option<usize>>, used: &Vec<usize>, textures_len: usize) -> (new:
    usize)
    requires
        textures_len + used@.len() <= usize::MAX,
    ensures
        final(pages)@.len() == old(pages)@.len(),
        forall|f: int|
            0 <= f < old(pages)@.len() && old(pages)@[f] is Some ==> #[trigger] final(pages)@[f] == old(
                pages,
            )@[f],
        forall|f: int|
            0 <= f < old(pages)@.len() && old(pages)@[f] is None ==> (#[trigger] final(pages)@[f] is Some
                <==> used_among(used@, used@.len() as int, f)),
        forall|f: int|
            0 <= f < old(pages)@.len() && old(pages)@[f] is None && #[trigger] final(pages)@[f] is Some
                ==> textures_len <= final(pages)@[f].unwrap() < textures_len + new,
        forall|f: int, g: int|
            0 <= f < old(pages)@.len() && 0 <= g < old(pages)@.len() && f != g && old(pages)@[f] is None
                && old(pages)@[g] is None && #[trigger] final(pages)@[f] is Some
                && #[trigger] final(pages)@[g] is Some ==> final(pages)@[f] != final(pages)@[g],
        forall|k: int|
            textures_len <= k < textures_len + new ==> #[trigger] page_taken(old(pages)@, final(pages)@, k),
        new == new_pages_before(old(pages)@, used@, used@.len() as int),
        forall|j: int|
            0 <= j < used@.len() && #[trigger] takes_new_page(old(pages)@, used@, j) ==> final(pages)@[used@[j]
                as int] == Some((textures_len + new_pages_before(old(pages)@, used@, j)) as usize),
{
    let ghost start = pages@;
    let len = pages.len();
    let n = used.len();
    let mut count: usize = 0;
    let mut i: usize = 0;
    while i < n
        invariant
            start == old(pages)@,
            len == start.len(),
            n == used@.len(),
            textures_len + n <= usize::MAX,
            0 <= i <= n,
            count <= i,
            pages@.len() == len,
            forall|f: int| 0 <= f < len && start[f] is Some ==> #[trigger] pages@[f] == start[f],
            forall|f: int|
                0 <= f < len && start[f] is None ==> (#[trigger] pages@[f] is Some <==> used_among(
                    used@,
                    i as int,
                    f,
                )),
            forall|f: int|
                0 <= f < len && start[f] is None && #[trigger] pages@[f] is Some ==> textures_len
                    <= pages@[f].unwrap() < textures_len + count,
            forall|f: int, g: int|
                0 <= f < len && 0 <= g < len && f != g && start[f] is None && start[g] is None
                    && #[trigger] pages@[f] is Some && #[trigger] pages@[g] is Some ==> pages@[f]
                    != pages@[g],
            forall|k: int| textures_len <= k < textures_len + count ==> #[trigger] page_taken(start, pages@, k),
            count == new_pages_before(start, used@, i as int),
            forall|j: int|
                0 <= j < i && #[trigger] takes_new_page(start, used@, j) ==> pages@[used@[j] as int] == Some(
                    (textures_len + new_pages_before(start, used@, j)) as usize,
                ),
        decreases n - i,
    {
        let f = used[i];
        let ghost before = pages@;
        if f < len && pages[f].is_none() {
            let page = textures_len + count;
            pages.set(f, Some(page));
            proof {
                assert(start[f as int] is None) by {
                    if start[f as int] is Some {
                        assert(before[f as int] == start[f as int]);
                    }
                }
                assert forall|k: int| textures_len <= k < textures_len + count + 1 implies #[trigger] page_taken(
                    start,
                    pages@,
                    k,
                ) by {
                    if k == textures_len + count {
                        assert(pages@[f as int] == Some(k as usize));
                    } else {
                        assert(page_taken(start, before, k));
                        let g = choose|g: int|
                            0 <= g < len && start[g] is None && #[trigger] before[g] == Some(k as usize);
                        assert(g != f);
                        assert(pages@[g] == Some(k as usize));
                    }
                }
                assert forall|g: int| 0 <= g < len && start[g] is None implies (#[trigger] pages@[g] is Some
                    <==> used_among(used@, i + 1, g)) by {
                    if g == f {
                        assert(used@[i as int] == f);
                    } else {
                        if used_among(used@, i + 1, g) {
                            let j = choose|j: int| 0 <= j < i + 1 && used@[j] == g;
                            assert(j < i);
                        }
                    }
                }
            }
            count = count + 1;
        } else {
            proof {
                assert forall|g: int| 0 <= g < len && start[g] is None implies (#[trigger] pages@[g] is Some
                    <==> used_among(used@, i + 1, g)) by {
                    if used_among(used@, i + 1, g) {
                        let j = choose|j: int| 0 <= j < i + 1 && used@[j] == g;
                        if j == i {
                            assert(g == f);
                            assert(pages@[g] is Some);
                        }
                    }
                }
            }
        }
        i = i + 1;
    }
    count
}

/// The initial bytes of a glyph texture of `width` by `height` pixels:
/// four zero bytes per pixel.
pub fn blank_glyph_texture(width: usize, height: usize) -> (bytes: Vec<u8>)
    requires
        width * height * 4 <= usize::MAX,
    ensures
        bytes@.len() == width * height * 4,
        forall|i: int| 0 <= i < bytes@.len() ==> #[trigger] bytes@[i] == 0,
{
    let len = width * height * 4;
    let mut bytes: Vec<u8> = Vec::with_capacity(len);
    let mut i: usize = 0;
    while i < len
        invariant
            0 <= i <= len,
            bytes@.len() == i,
            forall|j: int| 0 <= j < i ==> #[trigger] bytes@[j] == 0,
        decreases len - i,
    {
        bytes.push(0);
        i = i + 1;
    }
    bytes
}

/// The size of a rebuilt swapchain: as large as the window's client area,
/// but no larger than the surface allows (`max_extent`), in each direction.
pub fn swapchain_extent(max_extent: (u32, u32), window_size: (u32, u32)) -> (extent: (u32, u32))
    ensures
        extent.0 == if max_extent.0 < window_size.0 {
            max_extent.0
        } else {
            window_size.0
        },
        extent.1 == if max_extent.1 < window_size.1 {
            max_extent.1
        } else {
            window_size.1
        },
{
    let width = if max_extent.0 < window_size.0 {
        max_extent.0
    } else {
        window_size.0
    };
    let height = if max_extent.1 < window_size.1 {
        max_extent.1
    } else {
        window_size.1
    };
    (width, height)
}

/// What the glyph cache reported after laying out the queued text: new
/// glyph quads were made, the last ones still hold, or its texture page is
/// too small and should grow to the suggested size.
#[derive(Debug, Clone, Copy, PartialEq, Eq, Structural)]
pub enum GlyphCacheOutcome {
    Draw,
    ReDraw,
    TextureTooSmall(u32, u32),
}

/// The next step of building a text's glyphs.
#[derive(Debug, Clone, Copy, PartialEq, Eq, Structural)]
pub enum TextStep {
    /// Done: keep the new quads (`true`) or the cached ones (`false`).
    Done(bool),
    /// Replace the font's texture page by a blank one of this size, resize
    /// the glyph cache to it, and lay the text out again.
    GrowPage(usize, usize),
}

/// Decides from the glyph cache's report what building a text does next.
pub fn text_step(outcome: GlyphCacheOutcome) -> (step: TextStep)
    ensures
        step == match outcome {
            GlyphCacheOutcome::Draw => TextStep::Done(true),
            GlyphCacheOutcome::ReDraw => TextStep::Done(false),
            GlyphCacheOutcome::TextureTooSmall(w, h) => TextStep::GrowPage(w as usize, h as usize),
        },
{
    match outcome {
        GlyphCacheOutcome::Draw => TextStep::Done(true),
        GlyphCacheOutcome::ReDraw => TextStep::Done(false),
        GlyphCacheOutcome::TextureTooSmall(w, h) => TextStep::GrowPage(w as usize, h as usize),
    }
}

} // verus!
