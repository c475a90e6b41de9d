//! Tilemaps and the named tilesets they draw with: a tilemap that asked for
//! a new tileset receives a copy of the named one.
use vstd::prelude::*;

use crate::ecs::{has_entity, lookup, Component, ComponentList, Entity};
use crate::vec2_int::Vec2Int;

verus! {

/// The tilesets of the resources, each under a distinct name.
pub struct TileSets<TS> {
    entries: Vec<(String, TS)>,
}

/// The tileset stored under `name` in `entries`, if any.
pub open spec fn named<TS>(entries: Seq<(String, TS)>, name: Seq<char>) -> Option<TS> {
    if exists|i: int| 0 <= i < entries.len() && #[trigger] entries[i].0@ == name {
        Some(entries[choose|i: int| 0 <= i < entries.len() && #[trigger] entries[i].0@ == name].1)
    } else {
        None
    }
}

/// No two entries share a name.
pub open spec fn distinct_names<V>(entries: Seq<(String, V)>) -> bool {
    forall|i: int, j: int|
        0 <= i < entries.len() && 0 <= j < entries.len() && i != j ==> #[trigger] entries[i].0@
            != #[trigger] entries[j].0@
}

/// The entry a name finds after one more entry is appended to entries
/// without repeated names.
pub proof fn lemma_named_push<V>(entries: Seq<(String, V)>, entry: (String, V), name: Seq<char>)
    requires
        distinct_names(entries.push(entry)),
    ensures
        named(entries.push(entry), name) == if name == entry.0@ {
            Some(entry.1)
        } else {
            named(entries, name)
        },
{
    let after = entries.push(entry);
    let n = entries.len() as int;
    assert(after[n] == entry);
    assert forall|a: int, b: int|
        0 <= a < entries.len() && 0 <= b < entries.len() && a != b implies #[trigger] entries[a].0@
        != #[trigger] entries[b].0@ by {
        assert(after[a] == entries[a]);
        assert(after[b] == entries[b]);
    }
    if name == entry.0@ {
        assert(after[n].0@ == name);
        let k = choose|k: int| 0 <= k < after.len() && #[trigger] after[k].0@ == name;
        if k != n {
            assert(after[k].0@ != after[n].0@);
        }
        assert(k == n);
    } else {
        if exists|j: int| 0 <= j < after.len() && #[trigger] after[j].0@ == name {
            let j = choose|j: int| 0 <= j < after.len() && #[trigger] after[j].0@ == name;
            assert(j < n);
            assert(entries[j].0@ == name);
            assert(exists|i: int| 0 <= i < entries.len() && #[trigger] entries[i].0@ == name);
            let k = choose|k: int| 0 <= k < entries.len() && #[trigger] entries[k].0@ == name;
            assert(after[k].0@ == name);
            if j != k {
                assert(after[j].0@ != after[k].0@);
            }
            assert(j == k);
            assert(after[k] == entries[k]);
            assert(named(after, name) == Some(after[j].1));
            assert(named(entries, name) == Some(entries[k].1));
        } else {
            if exists|j: int| 0 <= j < entries.len() && #[trigger] entries[j].0@ == name {
                let j = choose|j: int| 0 <= j < entries.len() && #[trigger] entries[j].0@ == name;
                assert(after[j].0@ == name);
            }
        }
    }
}

/// Stores `value` under `name` in `entries`, replacing the entry of that
/// name if any, else appending it; the other entries keep their places.
pub fn insert_named<V>(entries: &mut Vec<(String, V)>, name: String, value: V)
    requires
        distinct_names(old(entries)@),
    ensures
        distinct_names(final(entries)@),
        named(final(entries)@, name@) == Some(value),
        forall|other: Seq<char>|
            other != name@ ==> #[trigger] named(final(entries)@, other) == named(old(entries)@, other),
{
    let ghost before = entries@;
    let ghost name_view = name@;
    let n = entries.len();
    let mut i: usize = 0;
    while i < n
        invariant
            n == before.len(),
            entries@ == before,
            before == old(entries)@,
            name_view == name@,
            0 <= i <= n,
            forall|j: int| 0 <= j < i ==> before[j].0@ != name@,
            forall|a: int, b: int|
                0 <= a < before.len() && 0 <= b < before.len() && a != b ==> #[trigger] before[a].0@
                    != #[trigger] before[b].0@,
        decreases n - i,
    {
        if entries[i].0 == name {
            entries.set(i, (name, value));
            proof {
                let after = entries@;
                assert forall|a: int, b: int|
                    0 <= a < after.len() && 0 <= b < after.len() && a != b implies #[trigger] after[a].0@
                    != #[trigger] after[b].0@ by {
                    assert(after[a].0@ == before[a].0@);
                    assert(after[b].0@ == before[b].0@);
                }
                assert(after[i as int].0@ == name_view);
                assert forall|other: Seq<char>| other != name_view implies #[trigger] named(after, other) == named(before, other) by {
                    if exists|j: int| 0 <= j < after.len() && #[trigger] after[j].0@ == other {
                        let j = choose|j: int| 0 <= j < after.len() && #[trigger] after[j].0@ == other;
                        assert(j != i);
                        assert(before[j].0@ == other);
                        let k = choose|k: int| 0 <= k < before.len() && #[trigger] before[k].0@ == other;
                        assert(after[k].0@ == other);
                        assert(j == k);
                        assert(after[j] == before[j]);
                    } else {
                        if exists|j: int| 0 <= j < before.len() && #[trigger] before[j].0@ == other {
                            let j = choose|j: int| 0 <= j < before.len() && #[trigger] before[j].0@ == other;
                            assert(after[j].0@ == other);
                        }
                    }
                }
            }
            return;
        }
        i = i + 1;
    }
    entries.push((name, value));
    proof {
        let after = entries@;
        assert(after[n as int].0@ == name_view);
        assert forall|a: int, b: int|
            0 <= a < after.len() && 0 <= b < after.len() && a != b implies #[trigger] after[a].0@
            != #[trigger] after[b].0@ by {
            if a < n && b < n {
                assert(after[a] == before[a]);
                assert(after[b] == before[b]);
            } else if a < n {
                assert(after[a] == before[a]);
            } else {
                assert(after[b] == before[b]);
            }
        }
        assert forall|other: Seq<char>| other != name_view implies #[trigger] named(after, other) == named(before, other) by {
            if exists|j: int| 0 <= j < after.len() && #[trigger] after[j].0@ == other {
                let j = choose|j: int| 0 <= j < after.len() && #[trigger] after[j].0@ == other;
                assert(j < n);
                assert(before[j].0@ == other);
                let k = choose|k: int| 0 <= k < before.len() && #[trigger] before[k].0@ == other;
                assert(after[k].0@ == other);
            } else {
                if exists|j: int| 0 <= j < before.len() && #[trigger] before[j].0@ == other {
                    let j = choose|j: int| 0 <= j < before.len() && #[trigger] before[j].0@ == other;
                    assert(after[j].0@ == other);
                }
            }
        }
    }
}


impl<TS> TileSets<TS> {
    /// The name and the tileset of each entry, in the order they were added.
    pub closed spec fn entries(&self) -> Seq<(String, TS)> {
        self.entries@
    }

    /// Names are unique.
    pub open spec fn wf(&self) -> bool {
        forall|i: int, j: int|
            0 <= i < self.entries().len() && 0 <= j < self.entries().len() && i != j
                ==> #[trigger] self.entries()[i].0@ != #[trigger] self.entries()[j].0@
    }

    /// The tileset named `name`, if any.
    pub open spec fn spec_get(&self, name: Seq<char>) -> Option<TS> {
        named(self.entries(), name)
    }

    pub fn new() -> (t: TileSets<TS>)
        ensures
            t.wf(),
            t.entries().len() == 0,
    {
        TileSets { entries: Vec::new() }
    }

    /// Stores `tileset` under `name`, replacing the one of that name if any.
    pub fn insert(&mut self, name: String, tileset: TS)
        requires
            old(self).wf(),
        ensures
            final(self).wf(),
            final(self).spec_get(name@) == Some(tileset),
            forall|other: Seq<char>|
                other != name@ ==> #[trigger] final(self).spec_get(other) == old(self).spec_get(other),
    {
        insert_named(&mut self.entries, name, tileset);
    }

    /// The number of tilesets.
    pub fn len(&self) -> (n: usize)
        ensures
            n == self.entries().len(),
    {
        self.entries.len()
    }

    /// The `i`-th name and tileset, in the order they were added.
    pub fn entry_at(&self, i: usize) -> (e: &(String, TS))
        requires
            i < self.entries().len(),
        ensures
            *e == self.entries()[i as int],
    {
        &self.entries[i]
    }

    /// The tileset named `name`, if any.
    pub fn get(&self, name: &String) -> (r: Option<&TS>)
        requires
            self.wf(),
        ensures
            r matches Some(t) ==> self.spec_get(name@) == Some(*t),
            r is None ==> self.spec_get(name@) is None,
    {
        let n = self.entries.len();
        let mut i: usize = 0;
        while i < n
            invariant
                n == self.entries@.len(),
                self.wf(),
                0 <= i <= n,
                forall|j: int| 0 <= j < i ==> self.entries@[j].0@ != name@,
            decreases n - i,
        {
            if self.entries[i].0 == *name {
                proof {
                    let k = choose|k: int|
                        0 <= k < self.entries@.len() && #[trigger] self.entries@[k].0@ == name@;
                    assert(self.entries()[i as int].0@ == name@);
                    assert(k == i);
                }
                return Some(&self.entries[i].1);
            }
            i = i + 1;
        }
        None
    }
}

/// One tile of a tilemap: which tile of the tileset it shows.
#[derive(Debug, Clone, Copy, PartialEq, Eq, Structural)]
pub struct Tile {
    pub index: usize,
}

/// Whether a tilemap is being painted in the editor: with which tile
/// (`None` erases), and the offsets already painted during the current
/// stroke of the mouse.
pub enum EditingMode {
    NotEditing,
    Editing(Option<Tile>, Vec<Vec2Int>),
}

/// A tilemap: the tileset it draws with, the change of tileset requested
/// in the editor (`Some(None)` drops the tileset, `Some(Some(name))` asks
/// for the tileset `name`), its size in tiles, its tiles row by row,
/// whether its collision boxes must be rebuilt, and its editing state.
pub struct Tilemap<TS> {
    pub tileset: Option<TS>,
    pub new_tileset: Option<Option<String>>,
    pub size: Vec2Int,
    pub tiles: Vec<Option<Tile>>,
    pub rebuild_collision_boxes: bool,
    pub edit_mode: EditingMode,
}

impl<TS> Tilemap<TS> {
    /// An empty tilemap of `size` tiles that is not being edited.
    pub fn new(tileset: Option<TS>, new_tileset: Option<Option<String>>, size: Vec2Int) -> (t: Tilemap<TS>)
        ensures
            t.tileset == tileset,
            t.new_tileset == new_tileset,
            t.size == size,
            t.tiles@.len() == 0,
            !t.rebuild_collision_boxes,
            t.edit_mode is NotEditing,
    {
        Tilemap {
            tileset,
            new_tileset,
            size,
            tiles: Vec::new(),
            rebuild_collision_boxes: false,
            edit_mode: EditingMode::NotEditing,
        }
    }
}

/// Whether every tileset some tilemap asks for exists.
pub open spec fn requests_resolvable<TS>(
    tilemaps: Seq<Component<Tilemap<TS>>>,
    tilesets: TileSets<TS>,
) -> bool {
    forall|i: int|
        0 <= i < tilemaps.len() ==> ((#[trigger] tilemaps[i]).inner.new_tileset matches Some(Some(name))
            ==> tilesets.spec_get(name@) is Some)
}

/// A tilemap after its requested tileset change: the request is consumed,
/// and the tileset becomes a copy of the named one, or none.
pub open spec fn given_new_tileset<TS: Clone>(
    before: Component<Tilemap<TS>>,
    after: Component<Tilemap<TS>>,
    tilesets: TileSets<TS>,
) -> bool {
    &&& after.entity_id == before.entity_id
    &&& after.is_active == before.is_active
    &&& after.inner.new_tileset is None
    &&& after.inner.size == before.inner.size
    &&& after.inner.tiles == before.inner.tiles
    &&& after.inner.rebuild_collision_boxes == before.inner.rebuild_collision_boxes
    &&& after.inner.edit_mode == before.inner.edit_mode
    &&& match before.inner.new_tileset {
        None => after.inner.tileset == before.inner.tileset,
        Some(None) => after.inner.tileset is None,
        Some(Some(name)) => after.inner.tileset matches Some(t) && cloned(
            tilesets.spec_get(name@).unwrap(),
            t,
        ),
    }
}

/// Every tilemap with a pending tileset request takes the requested tileset
/// (a copy of it), or drops its tileset when the request was for none.
/// Every requested name must be a known tileset.
pub fn give_dirty_tilemaps_new_tilesets<TS: Clone>(
    tilemaps: &mut ComponentList<Tilemap<TS>>,
    resource_tilesets: &TileSets<TS>,
)
    requires
        old(tilemaps).wf(),
        resource_tilesets.wf(),
        requests_resolvable(old(tilemaps)@, *resource_tilesets),
    ensures
        final(tilemaps).wf(),
        final(tilemaps)@.len() == old(tilemaps)@.len(),
        forall|i: int|
            0 <= i < old(tilemaps)@.len() ==> given_new_tileset(
                old(tilemaps)@[i],
                #[trigger] final(tilemaps)@[i],
                *resource_tilesets,
            ),
{
    let ghost start = tilemaps@;
    let n = tilemaps.len();
    let mut i: usize = 0;
    while i < n
        invariant
            n == start.len(),
            tilemaps.wf(),
            resource_tilesets.wf(),
            requests_resolvable(start, *resource_tilesets),
            0 <= i <= n,
            tilemaps@.len() == n,
            forall|j: int|
                0 <= j < i ==> given_new_tileset(start[j], #[trigger] tilemaps@[j], *resource_tilesets),
            forall|j: int| i <= j < n ==> #[trigger] tilemaps@[j] == start[j],
        decreases n - i,
    {
        let request = match &tilemaps.at(i).inner.new_tileset {
            Some(Some(name)) => Some(Some(name.clone())),
            Some(None) => Some(None),
            None => None,
        };
        if let Some(new_tset_name_maybe) = request {
            let tileset = match new_tset_name_maybe {
                Some(tset_name) => {
                    assert(start[i as int].inner.new_tileset matches Some(Some(name)));
                    Some(resource_tilesets.get(&tset_name).unwrap().clone())
                },
                None => None,
            };
            let previous = tilemaps.replace_inner_at(i, Tilemap::new(None, None, Vec2Int { x: 0, y: 0 }));
            let Tilemap { tileset: _, new_tileset: _, size, tiles, rebuild_collision_boxes, edit_mode } =
                previous;
            tilemaps.set_inner_at(
                i,
                Tilemap { tileset, new_tileset: None, size, tiles, rebuild_collision_boxes, edit_mode },
            );
        } else {
            proof {
                assert(given_new_tileset(start[i as int], tilemaps@[i as int], *resource_tilesets));
            }
        }
        i = i + 1;
    }
}

/// At start-up, every tilemap receives the tileset it asked for.
pub fn initialize_tilemaps<TS: Clone>(
    tilemaps: &mut ComponentList<Tilemap<TS>>,
    resource_tilesets: &TileSets<TS>,
)
    requires
        old(tilemaps).wf(),
        resource_tilesets.wf(),
        requests_resolvable(old(tilemaps)@, *resource_tilesets),
    ensures
        final(tilemaps).wf(),
        final(tilemaps)@.len() == old(tilemaps)@.len(),
        forall|i: int|
            0 <= i < old(tilemaps)@.len() ==> given_new_tileset(
                old(tilemaps)@[i],
                #[trigger] final(tilemaps)@[i],
                *resource_tilesets,
            ),
{
    give_dirty_tilemaps_new_tilesets(tilemaps, resource_tilesets);
}

/// The offset to paint in a stroke that has painted `memo` so far, given
/// the offset under the mouse (`None` when the button is not held over the
/// tilemap): an offset is painted once per stroke.
pub open spec fn stroke_paint(memo: Seq<Vec2Int>, paint_target: Option<Vec2Int>) -> Option<Vec2Int> {
    match paint_target {
        Some(p) => if memo.contains(p) {
            None
        } else {
            Some(p)
        },
        None => None,
    }
}

/// The memo of the stroke afterwards: releasing the button ends the stroke.
pub open spec fn stroke_memo(memo: Seq<Vec2Int>, paint_target: Option<Vec2Int>, released: bool) -> Seq<
    Vec2Int,
> {
    if released {
        Seq::empty()
    } else {
        match stroke_paint(memo, paint_target) {
            Some(p) => memo.push(p),
            None => memo,
        }
    }
}

/// One frame of a painting stroke: `paint_target` is the offset under the
/// mouse when the button is held over the tilemap. An offset already
/// painted during this stroke (it is in `memo`) is not painted again; a
/// newly painted one is remembered. Releasing the button ends the stroke
/// and forgets the memo. Returns the offset to paint.
pub fn paint_stroke(memo: &mut Vec<Vec2Int>, paint_target: Option<Vec2Int>, released: bool) -> (paint:
    Option<Vec2Int>)
    ensures
        paint == stroke_paint(old(memo)@, paint_target),
        final(memo)@ == stroke_memo(old(memo)@, paint_target, released),
{
    let mut paint: Option<Vec2Int> = None;
    if let Some(shifted_position) = paint_target {
        let n = memo.len();
        let mut seen = false;
        let mut i: usize = 0;
        while i < n
            invariant
                n == memo@.len(),
                0 <= i <= n,
                seen == exists|j: int| 0 <= j < i && memo@[j] == shifted_position,
            decreases n - i,
        {
            if memo[i] == shifted_position {
                seen = true;
            }
            i = i + 1;
        }
        if seen == false {
            paint = Some(shifted_position);
            memo.push(shifted_position);
        } else {
            proof {
                let j = choose|j: int| 0 <= j < memo@.len() && memo@[j] == shifted_position;
                assert(memo@.contains(shifted_position));
            }
        }
    }
    if released {
        memo.clear();
    }
    paint
}

/// Within one stroke an offset is painted once: an offset not yet painted
/// is painted, asking for it again before the button is released paints
/// nothing, and after a release it is painted anew.
pub proof fn lemma_offset_painted_once_per_stroke(memo: Seq<Vec2Int>, p: Vec2Int)
    ensures
        !memo.contains(p) ==> stroke_paint(memo, Some(p)) == Some(p),
        stroke_paint(stroke_memo(memo, Some(p), false), Some(p)) is None,
        stroke_paint(stroke_memo(memo, Some(p), true), Some(p)) == Some(p),
        stroke_paint(memo, None) is None,
{
    if !memo.contains(p) {
        assert(memo.push(p)[memo.len() as int] == p);
    }
}

/// A stroke paints each offset at most once: a memo without repeated
/// offsets stays without them.
pub proof fn lemma_stroke_memo_distinct(memo: Seq<Vec2Int>, paint_target: Option<Vec2Int>, released: bool)
    requires
        memo.no_duplicates(),
    ensures
        stroke_memo(memo, paint_target, released).no_duplicates(),
{
    if !released {
        if let Some(p) = stroke_paint(memo, paint_target) {
            let m = memo.push(p);
            assert forall|i: int, j: int| 0 <= i < m.len() && 0 <= j < m.len() && i != j implies m[i] != m[j] by {
                if i == memo.len() as int && j < memo.len() {
                    assert(memo[j] != p);
                }
                if j == memo.len() as int && i < memo.len() {
                    assert(memo[i] != p);
                }
            }
        }
    }
}

/// How many tiles a tilemap of `size` has.
pub open spec fn tile_count(size: Vec2Int) -> int {
    size.x * size.y
}

/// Whether the tile count of `size` is a size of the tile list.
pub open spec fn size_fits(size: Vec2Int) -> bool {
    0 <= size.x * size.y <= i32::MAX
}

/// Whether `offset` is a tile of a tilemap of `size`.
pub open spec fn on_tilemap(size: Vec2Int, offset: Vec2Int) -> bool {
    0 <= offset.x < size.x && 0 <= offset.y < size.y
}

/// Where the tile at `offset` stands in the tiles, stored row by row.
pub open spec fn tile_index(size: Vec2Int, offset: Vec2Int) -> int {
    offset.y * size.x + offset.x
}

/// `tiles` cut or extended with empty tiles to `n` tiles.
pub open spec fn resized_tiles(tiles: Seq<Option<Tile>>, n: int) -> Seq<Option<Tile>> {
    Seq::new(
        n as nat,
        |i: int|
            if i < tiles.len() {
                tiles[i]
            } else {
                None
            },
    )
}

/// A tilemap after one frame of editing: its tiles are brought to its tile
/// count; if it is being painted and has a tileset, the stroke paints the
/// offset under the mouse (once per stroke), which calls for new collision
/// boxes.
pub open spec fn tilemap_edited<TS>(
    before: Tilemap<TS>,
    after: Tilemap<TS>,
    paint_target: Option<Vec2Int>,
    released: bool,
) -> bool {
    let tiles = resized_tiles(before.tiles@, tile_count(before.size));
    &&& after.tileset == before.tileset
    &&& after.new_tileset == before.new_tileset
    &&& after.size == before.size
    &&& match before.edit_mode {
        EditingMode::Editing(brush, memo) => if before.tileset is Some {
            let paint = stroke_paint(memo@, paint_target);
            &&& after.tiles@ == match paint {
                Some(p) => tiles.update(tile_index(before.size, p), brush),
                None => tiles,
            }
            &&& after.rebuild_collision_boxes == (before.rebuild_collision_boxes || paint is Some)
            &&& after.edit_mode matches EditingMode::Editing(b, m) && b == brush && m@ == stroke_memo(
                memo@,
                paint_target,
                released,
            )
        } else {
            &&& after.tiles@ == tiles
            &&& after.rebuild_collision_boxes == before.rebuild_collision_boxes
            &&& after.edit_mode matches EditingMode::Editing(b, m) && b == brush && m@ == memo@
        },
        EditingMode::NotEditing => {
            &&& after.tiles@ == tiles
            &&& after.rebuild_collision_boxes == before.rebuild_collision_boxes
            &&& after.edit_mode is NotEditing
        },
    }
}

/// Brings `tiles` to `n` tiles, dropping the last ones or adding empty
/// ones.
fn resize_tiles(tiles: &mut Vec<Option<Tile>>, n: usize)
    ensures
        final(tiles)@ == resized_tiles(old(tiles)@, n as int),
{
    if tiles.len() > n {
        tiles.truncate(n);
    } else {
        while tiles.len() < n
            invariant
                tiles@.len() <= n,
                old(tiles)@.len() <= tiles@.len(),
                forall|i: int| 0 <= i < tiles@.len() ==> #[trigger] tiles@[i] == resized_tiles(old(tiles)@, n as int)[i],
            decreases n - tiles@.len(),
        {
            tiles.push(None);
        }
    }
    assert(tiles@ =~= resized_tiles(old(tiles)@, n as int));
}

/// One frame of editing one tilemap: see `tilemap_edited`.
fn edit_tilemap<TS>(tilemap: Tilemap<TS>, paint_target: Option<Vec2Int>, released: bool) -> (after:
    Tilemap<TS>)
    requires
        size_fits(tilemap.size),
        paint_target matches Some(p) ==> on_tilemap(tilemap.size, p),
    ensures
        tilemap_edited(tilemap, after, paint_target, released),
{
    let ghost before = tilemap;
    let Tilemap { tileset, new_tileset, size, mut tiles, mut rebuild_collision_boxes, edit_mode } =
        tilemap;
    let count: i32 = size.x * size.y;
    resize_tiles(&mut tiles, count as usize);
    let edit_mode = match edit_mode {
        EditingMode::Editing(brush, mut memo) => {
            if tileset.is_some() {
                let paint = paint_stroke(&mut memo, paint_target, released);
                if let Some(p) = paint {
                    assert(p.y * size.x + p.x < size.x * size.y) by (nonlinear_arith)
                        requires
                            0 <= p.x < size.x,
                            0 <= p.y < size.y,
                    ;
                    assert(0 <= p.y * size.x) by (nonlinear_arith)
                        requires
                            0 <= p.x < size.x,
                            0 <= p.y,
                    ;
                    let index: i32 = p.y * size.x + p.x;
                    tiles.set(index as usize, brush);
                    rebuild_collision_boxes = true;
                }
            }
            EditingMode::Editing(brush, memo)
        },
        EditingMode::NotEditing => EditingMode::NotEditing,
    };
    Tilemap { tileset, new_tileset, size, tiles, rebuild_collision_boxes, edit_mode }
}

/// After a frame of editing a tilemap holds exactly its tile count of
/// tiles, and a painted offset shows the brush.
pub proof fn lemma_edited_tilemap_fits<TS>(
    before: Tilemap<TS>,
    after: Tilemap<TS>,
    paint_target: Option<Vec2Int>,
    released: bool,
)
    requires
        size_fits(before.size),
        paint_target matches Some(p) ==> on_tilemap(before.size, p),
        tilemap_edited(before, after, paint_target, released),
    ensures
        after.tiles@.len() == tile_count(before.size),
        before.edit_mode matches EditingMode::Editing(brush, memo) ==> (before.tileset is Some
            ==> (stroke_paint(memo@, paint_target) matches Some(p) ==> after.tiles@[tile_index(
            before.size,
            p,
        )] == brush)),
{
    if let EditingMode::Editing(brush, memo) = before.edit_mode {
        if let Some(p) = stroke_paint(memo@, paint_target) {
            let size = before.size;
            assert(0 <= p.y * size.x + p.x < size.x * size.y) by (nonlinear_arith)
                requires
                    0 <= p.x < size.x,
                    0 <= p.y < size.y,
            ;
        }
    }
}

/// Across frames of editing, a stroke's memo never holds an offset twice,
/// so each offset is painted once per stroke.
pub proof fn lemma_edited_memo_distinct<TS>(
    before: Tilemap<TS>,
    after: Tilemap<TS>,
    paint_target: Option<Vec2Int>,
    released: bool,
)
    requires
        tilemap_edited(before, after, paint_target, released),
        before.edit_mode matches EditingMode::Editing(_, memo) ==> memo@.no_duplicates(),
    ensures
        after.edit_mode matches EditingMode::Editing(_, memo) ==> memo@.no_duplicates(),
{
    if let EditingMode::Editing(_, memo) = before.edit_mode {
        lemma_stroke_memo_distinct(memo@, paint_target, released);
    }
}

/// Whether one frame of editing can run on these tilemaps: every tile
/// count fits, and every offset under the mouse lies on its tilemap.
pub open spec fn editable<TS>(tilemaps: Seq<Component<Tilemap<TS>>>, paint_targets: Seq<Option<Vec2Int>>) -> bool {
    &&& paint_targets.len() == tilemaps.len()
    &&& forall|i: int|
        0 <= i < tilemaps.len() ==> size_fits((#[trigger] tilemaps[i]).inner.size) && (
        paint_targets[i] matches Some(p) ==> on_tilemap(tilemaps[i].inner.size, p))
}

/// One frame of tile painting in the editor: `paint_targets[i]` is the
/// offset under the mouse on the `i`-th tilemap when the left button is
/// held over it, and `released` tells whether the button was released.
/// Every tilemap is edited as `tilemap_edited` states.
pub fn tilemap_editing<TS>(
    tilemaps: &mut ComponentList<Tilemap<TS>>,
    paint_targets: &Vec<Option<Vec2Int>>,
    released: bool,
)
    requires
        old(tilemaps).wf(),
        editable(old(tilemaps)@, paint_targets@),
    ensures
        final(tilemaps).wf(),
        final(tilemaps)@.len() == old(tilemaps)@.len(),
        forall|i: int|
            0 <= i < old(tilemaps)@.len() ==> {
                &&& (#[trigger] final(tilemaps)@[i]).entity_id == old(tilemaps)@[i].entity_id
                &&& final(tilemaps)@[i].is_active == old(tilemaps)@[i].is_active
                &&& tilemap_edited(old(tilemaps)@[i].inner, final(tilemaps)@[i].inner, paint_targets@[i], released)
            },
{
    let ghost start = tilemaps@;
    let n = tilemaps.len();
    let mut i: usize = 0;
    while i < n
        invariant
            n == start.len(),
            start == old(tilemaps)@,
            editable(start, paint_targets@),
            tilemaps.wf(),
            tilemaps@.len() == n,
            0 <= i <= n,
            forall|j: int|
                0 <= j < i ==> {
                    &&& (#[trigger] tilemaps@[j]).entity_id == start[j].entity_id
                    &&& tilemaps@[j].is_active == start[j].is_active
                    &&& tilemap_edited(start[j].inner, tilemaps@[j].inner, paint_targets@[j], released)
                },
            forall|j: int| i <= j < n ==> #[trigger] tilemaps@[j] == start[j],
        decreases n - i,
    {
        assert(tilemaps@[i as int] == start[i as int]);
        let previous = tilemaps.replace_inner_at(i, Tilemap::new(None, None, Vec2Int { x: 0, y: 0 }));
        let edited = edit_tilemap(previous, paint_targets[i], released);
        tilemaps.set_inner_at(i, edited);
        i = i + 1;
    }
}

/// The tiles a tilemap's collision boxes are built from, in order: the
/// position of every non-empty tile, with the tile it shows.
pub open spec fn collision_tiles_of(tiles: Seq<Option<Tile>>) -> Seq<(usize, usize)>
    decreases tiles.len(),
{
    if tiles.len() == 0 {
        Seq::empty()
    } else {
        let rest = collision_tiles_of(tiles.drop_last());
        match tiles.last() {
            Some(t) => rest.push(((tiles.len() - 1) as usize, t.index)),
            None => rest,
        }
    }
}

/// The collision tiles are exactly the filled tiles, in increasing order of
/// position: each entry names a position holding a tile with that index,
/// and every filled position is named.
pub proof fn lemma_collision_tiles_are_the_filled_tiles(tiles: Seq<Option<Tile>>)
    requires
        tiles.len() <= usize::MAX,
    ensures
        forall|k: int|
            0 <= k < collision_tiles_of(tiles).len() ==> {
                let e = #[trigger] collision_tiles_of(tiles)[k];
                &&& e.0 < tiles.len()
                &&& tiles[e.0 as int] == Some(Tile { index: e.1 })
            },
        forall|k: int, l: int|
            0 <= k < l < collision_tiles_of(tiles).len() ==> (#[trigger] collision_tiles_of(tiles)[k]).0
                < (#[trigger] collision_tiles_of(tiles)[l]).0,
        forall|i: int|
            0 <= i < tiles.len() && (#[trigger] tiles[i]) is Some ==> exists|k: int|
                0 <= k < collision_tiles_of(tiles).len() && (#[trigger] collision_tiles_of(tiles)[k]).0 == i,
    decreases tiles.len(),
{
    if tiles.len() > 0 {
        let front = tiles.drop_last();
        lemma_collision_tiles_are_the_filled_tiles(front);
        let rest = collision_tiles_of(front);
        let list = collision_tiles_of(tiles);
        let last = tiles.len() - 1;
        assert forall|k: int| 0 <= k < rest.len() implies rest[k].0 < last && tiles[rest[k].0 as int] == Some(
            Tile { index: rest[k].1 },
        ) by {
            assert(front[rest[k].0 as int] == tiles[rest[k].0 as int]);
        }
        match tiles.last() {
            Some(t) => {
                assert(list == rest.push((last as usize, t.index)));
                assert forall|i: int| 0 <= i < tiles.len() && (#[trigger] tiles[i]) is Some implies exists|k: int|
                    0 <= k < list.len() && (#[trigger] list[k]).0 == i by {
                    if i == last {
                        assert(list[rest.len() as int].0 == i);
                    } else {
                        assert(front[i] == tiles[i]);
                        let k = choose|k: int| 0 <= k < rest.len() && (#[trigger] rest[k]).0 == i;
                        assert(list[k] == rest[k]);
                    }
                }
            },
            None => {
                assert forall|i: int| 0 <= i < tiles.len() && (#[trigger] tiles[i]) is Some implies exists|k: int|
                    0 <= k < list.len() && (#[trigger] list[k]).0 == i by {
                    assert(front[i] == tiles[i]);
                }
            },
        }
    }
}

/// Rebuilds the collision boxes of a tilemap that asked for it: returns
/// `None` when it did not ask, else the tiles to build its boxes from
/// (see `collision_tiles_of`), none when it has no tileset or its tileset
/// has no picture or no boxes. `tileset_boxes` is the number of boxes of
/// its tileset when the tileset has a picture and boxes. The request is
/// then served.
pub fn collision_tiles<TS>(tilemap: &mut Tilemap<TS>, tileset_boxes: Option<usize>) -> (r: Option<
    Vec<(usize, usize)>,
>)
    requires
        old(tilemap).rebuild_collision_boxes && old(tilemap).tileset is Some ==> (tileset_boxes matches Some(
            count,
        ) ==> forall|i: int|
            0 <= i < old(tilemap).tiles@.len() ==> (#[trigger] old(tilemap).tiles@[i] matches Some(t)
                ==> t.index < count)),
    ensures
        final(tilemap).tileset == old(tilemap).tileset,
        final(tilemap).new_tileset == old(tilemap).new_tileset,
        final(tilemap).size == old(tilemap).size,
        final(tilemap).tiles == old(tilemap).tiles,
        final(tilemap).edit_mode == old(tilemap).edit_mode,
        !final(tilemap).rebuild_collision_boxes,
        r is Some == old(tilemap).rebuild_collision_boxes,
        r matches Some(list) ==> list@ == if old(tilemap).tileset is Some && tileset_boxes is Some {
            collision_tiles_of(old(tilemap).tiles@)
        } else {
            Seq::empty()
        },
{
    if !tilemap.rebuild_collision_boxes {
        return None;
    }
    let mut list: Vec<(usize, usize)> = Vec::new();
    if tilemap.tileset.is_some() && tileset_boxes.is_some() {
        let n = tilemap.tiles.len();
        let mut i: usize = 0;
        while i < n
            invariant
                n == tilemap.tiles@.len(),
                0 <= i <= n,
                list@ == collision_tiles_of(tilemap.tiles@.subrange(0, i as int)),
            decreases n - i,
        {
            let ghost prefix = tilemap.tiles@.subrange(0, i as int + 1);
            assert(prefix.drop_last() =~= tilemap.tiles@.subrange(0, i as int));
            if let Some(t) = tilemap.tiles[i] {
                list.push((i, t.index));
            }
            i = i + 1;
        }
        assert(tilemap.tiles@.subrange(0, n as int) =~= tilemap.tiles@);
    }
    tilemap.rebuild_collision_boxes = false;
    Some(list)
}



/// A served request is gone: serving the tilemaps a second time keeps the
/// tileset each one received.
pub proof fn lemma_requests_served_once<TS: Clone>(
    first: Component<Tilemap<TS>>,
    second: Component<Tilemap<TS>>,
    third: Component<Tilemap<TS>>,
    tilesets: TileSets<TS>,
)
    requires
        given_new_tileset(first, second, tilesets),
        given_new_tileset(second, third, tilesets),
    ensures
        third.inner.tileset == second.inner.tileset,
        third.inner.new_tileset is None,
{
}

/// The number of tiles of a tileset as the viewer counts them: the count
/// taken as an `i32` (as `as` does), and 0 when that is negative.
pub open spec fn viewer_tile_count(tile_count: usize) -> int {
    if (tile_count as i32) < 0 {
        0
    } else {
        (tile_count as i32) as int
    }
}

/// The tile the tileset viewer edits after the user typed `typed` (if
/// anything) while editing `current`: a typed tile is brought into
/// `0 ..= count - 1` for the viewer's tile count (to 0 when there is no
/// tile).
pub fn tile_to_edit(current: i32, typed: Option<i32>, tile_count: usize) -> (tile: i32)
    ensures
        tile == match typed {
            Some(v) => if v > viewer_tile_count(tile_count) - 1 {
                if viewer_tile_count(tile_count) - 1 < 0 {
                    0
                } else {
                    viewer_tile_count(tile_count) - 1
                }
            } else if v < 0 {
                0
            } else {
                v as int
            },
            None => current as int,
        },
{
    match typed {
        Some(v) => {
            let cast = tile_count as i32;
            let size = if cast < 0 {
                0
            } else {
                cast
            };
            let mut tile = if v < size - 1 {
                v
            } else {
                size - 1
            };
            if tile < 0 {
                tile = 0;
            }
            tile
        },
        None => current,
    }
}

/// Makes a tileset collidable: a tileset without collision boxes gets one
/// `default` box per tile; one that has boxes keeps them.
pub fn fill_collision_boxes<B: Copy>(boxes: &mut Vec<B>, tile_count: usize, default: B)
    ensures
        old(boxes)@.len() == 0 ==> final(boxes)@ == Seq::new(tile_count as nat, |i: int| default),
        old(boxes)@.len() != 0 ==> final(boxes)@ == old(boxes)@,
{
    if boxes.len() == 0 {
        let mut i: usize = 0;
        while i < tile_count
            invariant
                0 <= i <= tile_count,
                boxes@ == Seq::new(i as nat, |j: int| default),
            decreases tile_count - i,
        {
            boxes.push(default);
            i = i + 1;
            assert(boxes@ =~= Seq::new(i as nat, |j: int| default));
        }
    }
}

/// A tileset of the resources, as far as the tilemap work reads it: its
/// name, its picture (`sprite`) and the change of picture asked for in the
/// editor (`next_sprite`, by sprite name; `Some(None)` drops the picture),
/// whether its picture or its collision boxes were edited or a revert was
/// asked for, and its collision boxes, one per tile.
pub struct TileSet<S, B> {
    pub name: String,
    pub sprite: Option<S>,
    pub next_sprite: Option<Option<String>>,
    pub visual_dirty: bool,
    pub physics_dirty: bool,
    pub revert: bool,
    pub bounding_boxes: Option<Vec<B>>,
}

/// Whether two requests of a change of picture ask for the same.
pub open spec fn same_request(a: Option<Option<String>>, b: Option<Option<String>>) -> bool {
    match (a, b) {
        (Some(Some(x)), Some(Some(y))) => x@ == y@,
        (Some(None), Some(None)) => true,
        (None, None) => true,
        _ => false,
    }
}

/// Whether `b` is a copy of the tileset `a`.
pub open spec fn tileset_copy<S: Clone, B: Clone>(a: TileSet<S, B>, b: TileSet<S, B>) -> bool {
    &&& b.name@ == a.name@
    &&& same_request(a.next_sprite, b.next_sprite)
    &&& b.visual_dirty == a.visual_dirty
    &&& b.physics_dirty == a.physics_dirty
    &&& b.revert == a.revert
    &&& match (a.sprite, b.sprite) {
        (Some(x), Some(y)) => cloned(x, y),
        (None, None) => true,
        _ => false,
    }
    &&& match (a.bounding_boxes, b.bounding_boxes) {
        (Some(x), Some(y)) => y@.len() == x@.len() && forall|i: int|
            0 <= i < x@.len() ==> cloned(#[trigger] x@[i], y@[i]),
        (None, None) => true,
        _ => false,
    }
}

impl<S: Clone, B: Clone> Clone for TileSet<S, B> {
    fn clone(&self) -> (c: Self)
        ensures
            tileset_copy(*self, c),
    {
        let next_sprite = match &self.next_sprite {
            Some(Some(n)) => Some(Some(n.clone())),
            Some(None) => Some(None),
            None => None,
        };
        let sprite = match &self.sprite {
            Some(x) => Some(x.clone()),
            None => None,
        };
        let bounding_boxes = match &self.bounding_boxes {
            Some(v) => Some(v.clone()),
            None => None,
        };
        TileSet {
            name: self.name.clone(),
            sprite,
            next_sprite,
            visual_dirty: self.visual_dirty,
            physics_dirty: self.physics_dirty,
            revert: self.revert,
            bounding_boxes,
        }
    }
}

/// Whether the tilemaps that draw with this tileset must take it up again.
pub open spec fn tileset_propagates<S, B>(t: TileSet<S, B>) -> bool {
    t.visual_dirty || t.physics_dirty || t.revert
}

/// A tileset after its change of picture: a changed picture or a revert
/// takes the picture asked for (a copy of the sprite of that name, or
/// none) and consumes the request; otherwise nothing changes.
pub open spec fn sprite_updated<S: Clone, B>(before: TileSet<S, B>, after: TileSet<S, B>, sprites: TileSets<S>) -> bool {
    &&& after.name == before.name
    &&& after.visual_dirty == before.visual_dirty
    &&& after.physics_dirty == before.physics_dirty
    &&& after.revert == before.revert
    &&& after.bounding_boxes == before.bounding_boxes
    &&& if before.visual_dirty || before.revert {
        &&& after.next_sprite is None
        &&& match before.next_sprite {
            Some(Some(n)) => after.sprite matches Some(x) && cloned(sprites.spec_get(n@).unwrap(), x),
            Some(None) => after.sprite is None,
            None => after.sprite == before.sprite,
        }
    } else {
        after.next_sprite == before.next_sprite && after.sprite == before.sprite
    }
}

/// A tileset after its edits were carried over: it is marked clean.
pub open spec fn flags_cleared<S, B>(before: TileSet<S, B>, after: TileSet<S, B>) -> bool {
    &&& after.name == before.name
    &&& after.sprite == before.sprite
    &&& after.next_sprite == before.next_sprite
    &&& after.bounding_boxes == before.bounding_boxes
    &&& !after.visual_dirty
    &&& !after.physics_dirty
    &&& !after.revert
}

/// In entries without repeated names, an entry's own name finds it.
pub proof fn lemma_named_at<V>(entries: Seq<(String, V)>, i: int)
    requires
        distinct_names(entries),
        0 <= i < entries.len(),
    ensures
        named(entries, entries[i].0@) == Some(entries[i].1),
{
    let name = entries[i].0@;
    assert(exists|j: int| 0 <= j < entries.len() && #[trigger] entries[j].0@ == name);
    let c = choose|j: int| 0 <= j < entries.len() && #[trigger] entries[j].0@ == name;
    if c != i {
        assert(entries[c].0@ != entries[i].0@);
    }
}

/// Two lists with the same names at the same places find entries at the
/// same place.
pub proof fn lemma_named_same_names<V, W>(a: Seq<(String, V)>, b: Seq<(String, W)>, name: Seq<char>) -> (i: int)
    requires
        distinct_names(a),
        a.len() == b.len(),
        forall|j: int| 0 <= j < a.len() ==> (#[trigger] a[j]).0@ == b[j].0@,
    ensures
        named(a, name) is Some <==> named(b, name) is Some,
        named(a, name) is Some ==> 0 <= i < a.len() && a[i].0@ == name && named(a, name) == Some(a[i].1)
            && named(b, name) == Some(b[i].1),
{
    assert(distinct_names(b)) by {
        assert forall|x: int, y: int|
            0 <= x < b.len() && 0 <= y < b.len() && x != y implies #[trigger] b[x].0@ != #[trigger] b[y].0@ by {
            assert(a[x].0@ == b[x].0@);
            assert(a[y].0@ == b[y].0@);
        }
    }
    if exists|j: int| 0 <= j < a.len() && #[trigger] a[j].0@ == name {
        let j = choose|j: int| 0 <= j < a.len() && #[trigger] a[j].0@ == name;
        lemma_named_at(a, j);
        assert(b[j].0@ == name);
        lemma_named_at(b, j);
        j
    } else {
        if exists|j: int| 0 <= j < b.len() && #[trigger] b[j].0@ == name {
            let j = choose|j: int| 0 <= j < b.len() && #[trigger] b[j].0@ == name;
            assert(a[j].0@ == name);
        }
        0
    }
}

/// Whether every change of picture some tileset will take names a sprite.
pub open spec fn sprite_requests_resolvable<S, B>(
    tilesets: Seq<(String, TileSet<S, B>)>,
    sprites: TileSets<S>,
) -> bool {
    forall|i: int|
        0 <= i < tilesets.len() ==> ((#[trigger] tilesets[i]).1.visual_dirty || tilesets[i].1.revert ==> (
        tilesets[i].1.next_sprite matches Some(Some(n)) ==> sprites.spec_get(n@) is Some))
}

/// Every tileset of the resources takes its change of picture.
fn update_tileset_sprites<S: Clone, B>(resources: &mut TileSets<TileSet<S, B>>, sprites: &TileSets<S>)
    requires
        old(resources).wf(),
        sprites.wf(),
        sprite_requests_resolvable(old(resources).entries(), *sprites),
    ensures
        final(resources).wf(),
        final(resources).entries().len() == old(resources).entries().len(),
        forall|i: int|
            0 <= i < old(resources).entries().len() ==> (#[trigger] final(resources).entries()[i]).0
                == old(resources).entries()[i].0 && sprite_updated(
                old(resources).entries()[i].1,
                final(resources).entries()[i].1,
                *sprites,
            ),
{
    let ghost start = resources.entries@;
    let n = resources.entries.len();
    let mut i: usize = 0;
    while i < n
        invariant
            n == start.len(),
            start == old(resources).entries(),
            sprites.wf(),
            sprite_requests_resolvable(start, *sprites),
            resources.entries@.len() == n,
            0 <= i <= n,
            forall|j: int| 0 <= j < n ==> (#[trigger] resources.entries@[j]).0 == start[j].0,
            forall|j: int| i <= j < n ==> #[trigger] resources.entries@[j] == start[j],
            forall|j: int|
                0 <= j < i ==> sprite_updated(start[j].1, (#[trigger] resources.entries@[j]).1, *sprites),
        decreases n - i,
    {
        let ghost before = resources.entries@;
        let (key, t) = resources.entries.remove(i);
        assert((key, t) == start[i as int]);
        let TileSet { name, sprite, next_sprite, visual_dirty, physics_dirty, revert, bounding_boxes } =
            t;
        let (sprite, next_sprite) = if visual_dirty || revert {
            match next_sprite {
                Some(Some(sprite_name)) => {
                    let found = sprites.get(&sprite_name).unwrap().clone();
                    (Some(found), None)
                },
                Some(None) => (None, None),
                None => (sprite, None),
            }
        } else {
            (sprite, next_sprite)
        };
        let updated = TileSet {
            name,
            sprite,
            next_sprite,
            visual_dirty,
            physics_dirty,
            revert,
            bounding_boxes,
        };
        resources.entries.insert(i, (key, updated));
        proof {
            assert forall|j: int| 0 <= j < n implies (#[trigger] resources.entries@[j]).0 == start[j].0 by {
                if j != i {
                    assert(resources.entries@[j] == before[j]);
                }
            }
            assert forall|j: int| i + 1 <= j < n implies #[trigger] resources.entries@[j] == start[j] by {
                assert(resources.entries@[j] == before[j]);
            }
            assert forall|j: int|
                0 <= j < i + 1 implies sprite_updated(start[j].1, (#[trigger] resources.entries@[j]).1, *sprites) by {
                if j != i {
                    assert(resources.entries@[j] == before[j]);
                }
            }
        }
        i = i + 1;
    }
    proof {
        assert forall|a: int, b: int|
            0 <= a < n && 0 <= b < n && a != b implies #[trigger] resources.entries@[a].0@
            != #[trigger] resources.entries@[b].0@ by {
            assert(start[a].0@ != start[b].0@);
        }
    }
}

/// Every tileset of the resources is marked clean.
fn clear_tileset_flags<S, B>(resources: &mut TileSets<TileSet<S, B>>)
    requires
        old(resources).wf(),
    ensures
        final(resources).wf(),
        final(resources).entries().len() == old(resources).entries().len(),
        forall|i: int|
            0 <= i < old(resources).entries().len() ==> (#[trigger] final(resources).entries()[i]).0
                == old(resources).entries()[i].0 && flags_cleared(
                old(resources).entries()[i].1,
                final(resources).entries()[i].1,
            ),
{
    let ghost start = resources.entries@;
    let n = resources.entries.len();
    let mut i: usize = 0;
    while i < n
        invariant
            n == start.len(),
            start == old(resources).entries(),
            resources.entries@.len() == n,
            0 <= i <= n,
            forall|j: int| 0 <= j < n ==> (#[trigger] resources.entries@[j]).0 == start[j].0,
            forall|j: int| i <= j < n ==> #[trigger] resources.entries@[j] == start[j],
            forall|j: int| 0 <= j < i ==> flags_cleared(start[j].1, (#[trigger] resources.entries@[j]).1),
        decreases n - i,
    {
        let ghost before = resources.entries@;
        let (key, t) = resources.entries.remove(i);
        assert((key, t) == start[i as int]);
        let TileSet { name, sprite, next_sprite, visual_dirty: _, physics_dirty: _, revert: _, bounding_boxes } =
            t;
        let cleared = TileSet {
            name,
            sprite,
            next_sprite,
            visual_dirty: false,
            physics_dirty: false,
            revert: false,
            bounding_boxes,
        };
        resources.entries.insert(i, (key, cleared));
        proof {
            assert forall|j: int| 0 <= j < n implies (#[trigger] resources.entries@[j]).0 == start[j].0 by {
                if j != i {
                    assert(resources.entries@[j] == before[j]);
                }
            }
            assert forall|j: int| i + 1 <= j < n implies #[trigger] resources.entries@[j] == start[j] by {
                assert(resources.entries@[j] == before[j]);
            }
            assert forall|j: int|
                0 <= j < i + 1 implies flags_cleared(start[j].1, (#[trigger] resources.entries@[j]).1) by {
                if j != i {
                    assert(resources.entries@[j] == before[j]);
                }
            }
        }
        i = i + 1;
    }
    proof {
        assert forall|a: int, b: int|
            0 <= a < n && 0 <= b < n && a != b implies #[trigger] resources.entries@[a].0@
            != #[trigger] resources.entries@[b].0@ by {
            assert(start[a].0@ != start[b].0@);
        }
    }
}

/// The tileset of the resources that a tilemap takes up again this frame:
/// the one of the name of its tileset, when that one was edited.
pub open spec fn reset_source<S, B>(tilemap: Tilemap<TileSet<S, B>>, tilesets: Seq<(String, TileSet<S, B>)>) -> Option<
    TileSet<S, B>,
> {
    match tilemap.tileset {
        Some(ts) => match named(tilesets, ts.name@) {
            Some(r) => if tileset_propagates(r) {
                Some(r)
            } else {
                None
            },
            None => None,
        },
        None => None,
    }
}

/// A tilemap after taking up its edited tileset again: it draws with a
/// copy of it and asks for new collision boxes; otherwise it is unchanged.
pub open spec fn tilemap_reset<S: Clone, B: Clone>(
    before: Component<Tilemap<TileSet<S, B>>>,
    after: Component<Tilemap<TileSet<S, B>>>,
    tilesets: Seq<(String, TileSet<S, B>)>,
) -> bool {
    &&& after.entity_id == before.entity_id
    &&& after.is_active == before.is_active
    &&& after.inner.new_tileset == before.inner.new_tileset
    &&& after.inner.size == before.inner.size
    &&& after.inner.tiles == before.inner.tiles
    &&& after.inner.edit_mode == before.inner.edit_mode
    &&& match reset_source(before.inner, tilesets) {
        Some(r) => after.inner.tileset matches Some(c) && tileset_copy(r, c)
            && after.inner.rebuild_collision_boxes,
        None => after.inner.tileset == before.inner.tileset && after.inner.rebuild_collision_boxes
            == before.inner.rebuild_collision_boxes,
    }
}

/// Every tilemap whose tileset was edited takes it up again.
fn reset_tilemaps<S: Clone, B: Clone>(
    tilemaps: &mut ComponentList<Tilemap<TileSet<S, B>>>,
    resources: &TileSets<TileSet<S, B>>,
)
    requires
        old(tilemaps).wf(),
        resources.wf(),
    ensures
        final(tilemaps).wf(),
        final(tilemaps)@.len() == old(tilemaps)@.len(),
        forall|i: int|
            0 <= i < old(tilemaps)@.len() ==> tilemap_reset(
                old(tilemaps)@[i],
                #[trigger] final(tilemaps)@[i],
                resources.entries(),
            ),
{
    let ghost start = tilemaps@;
    let n = tilemaps.len();
    let mut i: usize = 0;
    while i < n
        invariant
            n == start.len(),
            start == old(tilemaps)@,
            resources.wf(),
            tilemaps.wf(),
            tilemaps@.len() == n,
            0 <= i <= n,
            forall|j: int| 0 <= j < i ==> tilemap_reset(start[j], #[trigger] tilemaps@[j], resources.entries()),
            forall|j: int| i <= j < n ==> #[trigger] tilemaps@[j] == start[j],
        decreases n - i,
    {
        assert(tilemaps@[i as int] == start[i as int]);
        let previous = tilemaps.replace_inner_at(i, Tilemap::new(None, None, Vec2Int { x: 0, y: 0 }));
        let Tilemap { tileset, new_tileset, size, tiles, rebuild_collision_boxes, edit_mode } = previous;
        let reset = match &tileset {
            Some(ts) => match resources.get(&ts.name) {
                Some(r) => if r.visual_dirty || r.physics_dirty || r.revert {
                    Some(r.clone())
                } else {
                    None
                },
                None => None,
            },
            None => None,
        };
        let (tileset, rebuild_collision_boxes) = match reset {
            Some(copy) => (Some(copy), true),
            None => (tileset, rebuild_collision_boxes),
        };
        tilemaps.set_inner_at(
            i,
            Tilemap { tileset, new_tileset, size, tiles, rebuild_collision_boxes, edit_mode },
        );
        i = i + 1;
    }
}

/// Whether a tilemap's collision boxes come from its tileset: it has one,
/// with a picture and with collision boxes.
pub open spec fn has_collision_boxes<S, B>(tilemap: Tilemap<TileSet<S, B>>) -> bool {
    tilemap.tileset matches Some(ts) && ts.sprite is Some && ts.bounding_boxes is Some
}

/// Whether the collision boxes of a tilemap can be built: every tile shows
/// a tile that has a box in its tileset.
pub open spec fn collision_ready<S, B>(tilemap: Tilemap<TileSet<S, B>>) -> bool {
    tilemap.tileset matches Some(ts) ==> (ts.bounding_boxes matches Some(v) ==> forall|i: int|
        0 <= i < tilemap.tiles@.len() ==> (#[trigger] tilemap.tiles@[i] matches Some(t) ==> t.index
            < v@.len()))
}

/// A tilemap after its collision boxes were rebuilt (when it asked for
/// it): `list` gives the tiles its boxes are built from (see
/// `collision_tiles_of`), none when its tileset has no picture or no
/// boxes; the request is served.
pub open spec fn collision_rebuilt<S, B>(
    before: Component<Tilemap<TileSet<S, B>>>,
    after: Component<Tilemap<TileSet<S, B>>>,
    list: Option<Vec<(usize, usize)>>,
) -> bool {
    &&& after.entity_id == before.entity_id
    &&& after.is_active == before.is_active
    &&& after.inner.tileset == before.inner.tileset
    &&& after.inner.new_tileset == before.inner.new_tileset
    &&& after.inner.size == before.inner.size
    &&& after.inner.tiles == before.inner.tiles
    &&& after.inner.edit_mode == before.inner.edit_mode
    &&& !after.inner.rebuild_collision_boxes
    &&& list is Some == before.inner.rebuild_collision_boxes
    &&& list matches Some(l) ==> l@ == if has_collision_boxes(before.inner) {
        collision_tiles_of(before.inner.tiles@)
    } else {
        Seq::empty()
    }
}

/// Whether one of the first `k` tilemaps, asking for new collision boxes,
/// belongs to `e`.
pub open spec fn flagged_entity<TS>(tilemaps: Seq<Component<Tilemap<TS>>>, k: int, e: Entity) -> bool {
    exists|j: int|
        0 <= j < k && #[trigger] tilemaps[j].entity_id == e && tilemaps[j].inner.rebuild_collision_boxes
}

/// Rebuilds the collision boxes of every tilemap that asks for it (see
/// `collision_rebuilt`); such a tilemap without a transform first gets
/// `default_transform`. Returns each tilemap's list.
fn rebuild_all_collision_boxes<S, B, T: Copy>(
    tilemaps: &mut ComponentList<Tilemap<TileSet<S, B>>>,
    transforms: &mut ComponentList<T>,
    default_transform: T,
) -> (lists: Vec<Option<Vec<(usize, usize)>>>)
    requires
        old(tilemaps).wf(),
        old(transforms).wf(),
        forall|i: int|
            0 <= i < old(tilemaps)@.len() ==> collision_ready((#[trigger] old(tilemaps)@[i]).inner),
    ensures
        final(tilemaps).wf(),
        final(transforms).wf(),
        final(tilemaps)@.len() == old(tilemaps)@.len(),
        lists@.len() == old(tilemaps)@.len(),
        forall|i: int|
            0 <= i < old(tilemaps)@.len() ==> collision_rebuilt(
                old(tilemaps)@[i],
                #[trigger] final(tilemaps)@[i],
                lists@[i],
            ),
        forall|e: Entity|
            #[trigger] has_entity(final(transforms)@, e) == (has_entity(old(transforms)@, e) || flagged_entity(
                old(tilemaps)@,
                old(tilemaps)@.len() as int,
                e,
            )),
        forall|e: Entity|
            has_entity(final(transforms)@, e) ==> #[trigger] lookup(final(transforms)@, e) == if has_entity(
                old(transforms)@,
                e,
            ) {
                lookup(old(transforms)@, e)
            } else {
                Some(default_transform)
            },
{
    let ghost start = tilemaps@;
    let ghost t0 = transforms@;
    let n = tilemaps.len();
    let mut lists: Vec<Option<Vec<(usize, usize)>>> = Vec::new();
    let mut i: usize = 0;
    while i < n
        invariant
            n == start.len(),
            start == old(tilemaps)@,
            t0 == old(transforms)@,
            forall|j: int| 0 <= j < n ==> collision_ready((#[trigger] start[j]).inner),
            tilemaps.wf(),
            transforms.wf(),
            tilemaps@.len() == n,
            lists@.len() == i,
            0 <= i <= n,
            forall|j: int| 0 <= j < i ==> collision_rebuilt(start[j], #[trigger] tilemaps@[j], lists@[j]),
            forall|j: int| i <= j < n ==> #[trigger] tilemaps@[j] == start[j],
            forall|e: Entity|
                #[trigger] has_entity(transforms@, e) == (has_entity(t0, e) || flagged_entity(start, i as int, e)),
            forall|e: Entity|
                has_entity(transforms@, e) ==> #[trigger] lookup(transforms@, e) == if has_entity(t0, e) {
                    lookup(t0, e)
                } else {
                    Some(default_transform)
                },
        decreases n - i,
    {
        assert(tilemaps@[i as int] == start[i as int]);
        let entity = tilemaps.at(i).entity_id;
        let flagged = tilemaps.at(i).inner.rebuild_collision_boxes;
        let ghost tb = transforms@;
        if flagged {
            if transforms.index_of(&entity).is_none() {
                transforms.set(&entity, default_transform);
            }
        }
        proof {
            assert forall|e: Entity|
                #[trigger] has_entity(transforms@, e) == (has_entity(t0, e) || flagged_entity(start, i + 1, e)) by {
                if flagged_entity(start, i + 1, e) && !flagged_entity(start, i as int, e) {
                    let j = choose|j: int|
                        0 <= j < i + 1 && #[trigger] start[j].entity_id == e && start[j].inner.rebuild_collision_boxes;
                    assert(j == i);
                }
                if flagged_entity(start, i as int, e) {
                    let j = choose|j: int|
                        0 <= j < i && #[trigger] start[j].entity_id == e && start[j].inner.rebuild_collision_boxes;
                    assert(flagged_entity(start, i + 1, e));
                }
                if flagged && e == entity {
                    assert(start[i as int].entity_id == e);
                    assert(flagged_entity(start, i + 1, e));
                }
            }
        }
        let mut tm = tilemaps.replace_inner_at(i, Tilemap::new(None, None, Vec2Int { x: 0, y: 0 }));
        let boxes = match &tm.tileset {
            Some(ts) => if ts.sprite.is_some() {
                match &ts.bounding_boxes {
                    Some(v) => Some(v.len()),
                    None => None,
                }
            } else {
                None
            },
            None => None,
        };
        let list = collision_tiles(&mut tm, boxes);
        tilemaps.set_inner_at(i, tm);
        lists.push(list);
        i = i + 1;
    }
    lists
}

/// Whether every tile of `tilemap`, and the tile it paints with, has a box
/// among `count` collision boxes.
pub open spec fn fits_boxes<TS>(tilemap: Tilemap<TS>, count: nat) -> bool {
    &&& forall|i: int|
        0 <= i < tilemap.tiles@.len() ==> (#[trigger] tilemap.tiles@[i] matches Some(t) ==> t.index < count)
    &&& match tilemap.edit_mode {
        EditingMode::Editing(Some(brush), _) => brush.index < count,
        _ => true,
    }
}

/// Whether the tiles of `tilemap` fit the collision boxes of `tileset`.
pub open spec fn fits_tileset<TS, S, B>(tilemap: Tilemap<TS>, tileset: Option<TileSet<S, B>>) -> bool {
    match tileset {
        Some(t) => match t.bounding_boxes {
            Some(v) => fits_boxes(tilemap, v@.len()),
            None => true,
        },
        None => true,
    }
}

/// Whether the tiles of a tilemap fit the collision boxes of every tileset
/// it may draw with after this frame: its own, the one of that name among
/// `tilesets`, and the one it asks for.
pub open spec fn frame_ready<S, B>(
    tilemap: Tilemap<TileSet<S, B>>,
    tilesets: Seq<(String, TileSet<S, B>)>,
) -> bool {
    &&& fits_tileset(tilemap, tilemap.tileset)
    &&& match tilemap.tileset {
        Some(ts) => fits_tileset(tilemap, named(tilesets, ts.name@)),
        None => true,
    }
    &&& match tilemap.new_tileset {
        Some(Some(n)) => fits_tileset(tilemap, named(tilesets, n@)),
        _ => true,
    }
}

/// A tilemap after the tilemap work of a frame: it took up its edited
/// tileset again (a copy of the tileset after its change of picture, in
/// `updated`), then the tileset it asked for (from `tilesets`, marked
/// clean), was painted, and had its collision boxes rebuilt into `list`.
pub open spec fn tilemap_frame<S: Clone, B: Clone>(
    before: Component<Tilemap<TileSet<S, B>>>,
    after: Component<Tilemap<TileSet<S, B>>>,
    list: Option<Vec<(usize, usize)>>,
    updated: Seq<(String, TileSet<S, B>)>,
    tilesets: TileSets<TileSet<S, B>>,
    paint_target: Option<Vec2Int>,
    released: bool,
) -> bool {
    exists|a: Component<Tilemap<TileSet<S, B>>>, b: Component<Tilemap<TileSet<S, B>>>, c: Component<Tilemap<TileSet<S, B>>>|
        {
            &&& #[trigger] tilemap_reset(before, a, updated)
            &&& #[trigger] given_new_tileset(a, b, tilesets)
            &&& c.entity_id == b.entity_id
            &&& c.is_active == b.is_active
            &&& #[trigger] tilemap_edited(b.inner, c.inner, paint_target, released)
            &&& collision_rebuilt(c, after, list)
        }
}

/// Whether one of `tilemaps`, whose collision boxes were rebuilt this
/// frame (a list in `lists`), belongs to `e`.
pub open spec fn listed_entity<TS>(
    tilemaps: Seq<Component<Tilemap<TS>>>,
    lists: Seq<Option<Vec<(usize, usize)>>>,
    e: Entity,
) -> bool {
    exists|j: int| 0 <= j < tilemaps.len() && #[trigger] tilemaps[j].entity_id == e && lists[j] is Some
}

/// The outcome of the tilemap work of a frame, given the tilesets after
/// their change of picture (`updated`): the resource tilesets went from
/// `res_before` through `updated` to `res_after` (marked clean), and every
/// tilemap went through the frame (see `tilemap_frame`).
pub open spec fn frame_outcome<S: Clone, B: Clone>(
    updated: Seq<(String, TileSet<S, B>)>,
    res_before: Seq<(String, TileSet<S, B>)>,
    res_after: TileSets<TileSet<S, B>>,
    sprites: TileSets<S>,
    tilemaps_before: Seq<Component<Tilemap<TileSet<S, B>>>>,
    tilemaps_after: Seq<Component<Tilemap<TileSet<S, B>>>>,
    lists: Seq<Option<Vec<(usize, usize)>>>,
    paint_targets: Seq<Option<Vec2Int>>,
    released: bool,
) -> bool {
    &&& updated.len() == res_before.len()
    &&& forall|i: int|
        0 <= i < updated.len() ==> {
            &&& (#[trigger] updated[i]).0 == res_before[i].0
            &&& sprite_updated(res_before[i].1, updated[i].1, sprites)
            &&& res_after.entries()[i].0 == updated[i].0
            &&& flags_cleared(updated[i].1, res_after.entries()[i].1)
        }
    &&& forall|i: int|
        0 <= i < tilemaps_before.len() ==> tilemap_frame(
            tilemaps_before[i],
            #[trigger] tilemaps_after[i],
            lists[i],
            updated,
            res_after,
            paint_targets[i],
            released,
        )
}

/// The tilemap work of a frame. First every tileset of the resources takes
/// its change of picture (a sprite of `sprites`), every tilemap whose
/// tileset was edited takes it up again, and the tilesets are marked
/// clean. Then every tilemap takes up the tileset it asked for, the
/// tilemaps are painted (see `tilemap_editing`), and every tilemap that
/// asks for new collision boxes has them rebuilt, getting
/// `default_transform` when it has no transform. Returns each tilemap's
/// collision list (see `tilemap_frame`).
pub fn update_tilemaps_and_tilesets<S: Clone, B: Clone, T: Copy>(
    tilemaps: &mut ComponentList<Tilemap<TileSet<S, B>>>,
    resource_tilesets: &mut TileSets<TileSet<S, B>>,
    sprites: &TileSets<S>,
    paint_targets: &Vec<Option<Vec2Int>>,
    released: bool,
    transforms: &mut ComponentList<T>,
    default_transform: T,
) -> (lists: Vec<Option<Vec<(usize, usize)>>>)
    requires
        old(tilemaps).wf(),
        old(resource_tilesets).wf(),
        sprites.wf(),
        old(transforms).wf(),
        sprite_requests_resolvable(old(resource_tilesets).entries(), *sprites),
        requests_resolvable(old(tilemaps)@, *old(resource_tilesets)),
        editable(old(tilemaps)@, paint_targets@),
        forall|i: int|
            0 <= i < old(tilemaps)@.len() ==> frame_ready(
                (#[trigger] old(tilemaps)@[i]).inner,
                old(resource_tilesets).entries(),
            ),
    ensures
        final(tilemaps).wf(),
        final(resource_tilesets).wf(),
        final(transforms).wf(),
        final(tilemaps)@.len() == old(tilemaps)@.len(),
        lists@.len() == old(tilemaps)@.len(),
        final(resource_tilesets).entries().len() == old(resource_tilesets).entries().len(),
        exists|updated: Seq<(String, TileSet<S, B>)>|
            #[trigger] frame_outcome(
                updated,
                old(resource_tilesets).entries(),
                *final(resource_tilesets),
                *sprites,
                old(tilemaps)@,
                final(tilemaps)@,
                lists@,
                paint_targets@,
                released,
            ),
        forall|e: Entity|
            #[trigger] has_entity(final(transforms)@, e) == (has_entity(old(transforms)@, e) || listed_entity(
                final(tilemaps)@,
                lists@,
                e,
            )),
        forall|e: Entity|
            has_entity(final(transforms)@, e) ==> #[trigger] lookup(final(transforms)@, e) == if has_entity(
                old(transforms)@,
                e,
            ) {
                lookup(old(transforms)@, e)
            } else {
                Some(default_transform)
            },
{
    let ghost tm0 = tilemaps@;
    let ghost res0 = resource_tilesets.entries();
    propogate_dirty_tilesets_to_tilemaps(tilemaps, resource_tilesets, sprites);
    let ghost tm1 = tilemaps@;
    let ghost res2 = resource_tilesets.entries();
    let ghost res1 = choose|u: Seq<(String, TileSet<S, B>)>|
        #[trigger] propagated(u, res0, res2, *sprites, tm0, tm1);
    proof {
        assert forall|j: int| 0 <= j < res0.len() implies (#[trigger] res0[j]).0@ == res2[j].0@ by {
            assert(res1[j].0 == res0[j].0);
            assert(res2[j].0 == res1[j].0);
        }
        assert forall|i: int| 0 <= i < tm1.len() implies ((#[trigger] tm1[i]).inner.new_tileset matches Some(Some(name))
            ==> resource_tilesets.spec_get(name@) is Some) by {
            assert(tilemap_reset(tm0[i], tm1[i], res1));
            if let Some(Some(name)) = tm1[i].inner.new_tileset {
                assert(tm0[i].inner.new_tileset == Some(Some(name)));
                lemma_named_same_names(res0, res2, name@);
            }
        }
    }
    give_dirty_tilemaps_new_tilesets(tilemaps, resource_tilesets);
    let ghost tm2 = tilemaps@;
    proof {
        assert forall|i: int| 0 <= i < tm2.len() implies size_fits((#[trigger] tm2[i]).inner.size) && (
        paint_targets@[i] matches Some(p) ==> on_tilemap(tm2[i].inner.size, p)) by {
            assert(tilemap_reset(tm0[i], tm1[i], res1));
            assert(given_new_tileset(tm1[i], tm2[i], *resource_tilesets));
            assert(size_fits(tm0[i].inner.size));
        }
    }
    tilemap_editing(tilemaps, paint_targets, released);
    let ghost tm3 = tilemaps@;
    proof {
        assert forall|i: int| 0 <= i < tm3.len() implies collision_ready((#[trigger] tm3[i]).inner) by {
            assert(tilemap_reset(tm0[i], tm1[i], res1));
            assert(given_new_tileset(tm1[i], tm2[i], *resource_tilesets));
            assert(tilemap_edited(tm2[i].inner, tm3[i].inner, paint_targets@[i], released));
            assert(frame_ready(tm0[i].inner, res0));
            assert(tm1[i].inner.new_tileset matches Some(Some(name)) ==> resource_tilesets.spec_get(name@) is Some);
            lemma_frame_collision_ready(tm0[i], tm1[i], tm2[i], tm3[i], paint_targets@[i], released, res0, res1, *resource_tilesets, *sprites);
        }
    }
    let lists = rebuild_all_collision_boxes(tilemaps, transforms, default_transform);
    proof {
        let tm4 = tilemaps@;
        assert forall|i: int| 0 <= i < tm0.len() implies tilemap_frame(
            tm0[i],
            #[trigger] tm4[i],
            lists@[i],
            res1,
            *resource_tilesets,
            paint_targets@[i],
            released,
        ) by {
            assert(tilemap_reset(tm0[i], tm1[i], res1));
            assert(given_new_tileset(tm1[i], tm2[i], *resource_tilesets));
            assert(tilemap_edited(tm2[i].inner, tm3[i].inner, paint_targets@[i], released));
            assert(collision_rebuilt(tm3[i], tm4[i], lists@[i]));
        }
        assert forall|e: Entity| flagged_entity(tm3, tm3.len() as int, e) == listed_entity(tm4, lists@, e) by {
            if flagged_entity(tm3, tm3.len() as int, e) {
                let j = choose|j: int|
                    0 <= j < tm3.len() && #[trigger] tm3[j].entity_id == e && tm3[j].inner.rebuild_collision_boxes;
                assert(collision_rebuilt(tm3[j], tm4[j], lists@[j]));
                assert(tm4[j].entity_id == e);
            }
            if listed_entity(tm4, lists@, e) {
                let j = choose|j: int| 0 <= j < tm4.len() && #[trigger] tm4[j].entity_id == e && lists@[j] is Some;
                assert(collision_rebuilt(tm3[j], tm4[j], lists@[j]));
                assert(tm3[j].entity_id == e);
            }
        }
        assert(frame_outcome(
            res1,
            res0,
            *resource_tilesets,
            *sprites,
            tm0,
            tm4,
            lists@,
            paint_targets@,
            released,
        ));
    }
    lists
}

/// Painting keeps the tiles of a tilemap within its boxes when its tiles
/// and its brush are.
proof fn lemma_edit_fits<TS>(
    before: Tilemap<TS>,
    after: Tilemap<TS>,
    paint_target: Option<Vec2Int>,
    released: bool,
    count: nat,
)
    requires
        fits_boxes(before, count),
        size_fits(before.size),
        paint_target matches Some(p) ==> on_tilemap(before.size, p),
        tilemap_edited(before, after, paint_target, released),
    ensures
        forall|i: int|
            0 <= i < after.tiles@.len() ==> (#[trigger] after.tiles@[i] matches Some(t) ==> t.index < count),
{
    let tiles = resized_tiles(before.tiles@, tile_count(before.size));
    assert forall|i: int| 0 <= i < tiles.len() implies (#[trigger] tiles[i] matches Some(t) ==> t.index < count) by {
        if i < before.tiles@.len() {
            assert(tiles[i] == before.tiles@[i]);
        }
    }
    if let EditingMode::Editing(brush, memo) = before.edit_mode {
        if before.tileset is Some {
            if let Some(p) = stroke_paint(memo@, paint_target) {
                let size = before.size;
                assert(0 <= p.y * size.x + p.x < size.x * size.y) by (nonlinear_arith)
                    requires
                        0 <= p.x < size.x,
                        0 <= p.y < size.y,
                ;
                let k = tile_index(before.size, p);
                assert forall|i: int|
                    0 <= i < after.tiles@.len() implies (#[trigger] after.tiles@[i] matches Some(t) ==> t.index
                    < count) by {
                    if i != k {
                        assert(after.tiles@[i] == tiles[i]);
                    }
                }
            }
        }
    }
}

/// After the first stages of a frame, a tilemap whose tiles fit every
/// tileset it may draw with can have its collision boxes built.
proof fn lemma_frame_collision_ready<S: Clone, B: Clone>(
    before: Component<Tilemap<TileSet<S, B>>>,
    a: Component<Tilemap<TileSet<S, B>>>,
    b: Component<Tilemap<TileSet<S, B>>>,
    c: Component<Tilemap<TileSet<S, B>>>,
    paint_target: Option<Vec2Int>,
    released: bool,
    res0: Seq<(String, TileSet<S, B>)>,
    res1: Seq<(String, TileSet<S, B>)>,
    res2: TileSets<TileSet<S, B>>,
    sprites: TileSets<S>,
)
    requires
        frame_ready(before.inner, res0),
        distinct_names(res0),
        size_fits(before.inner.size),
        paint_target matches Some(p) ==> on_tilemap(before.inner.size, p),
        res1.len() == res0.len(),
        forall|j: int|
            0 <= j < res0.len() ==> (#[trigger] res1[j]).0 == res0[j].0 && sprite_updated(res0[j].1, res1[j].1, sprites),
        res2.entries().len() == res1.len(),
        forall|j: int|
            0 <= j < res1.len() ==> (#[trigger] res2.entries()[j]).0 == res1[j].0 && flags_cleared(res1[j].1, res2.entries()[j].1),
        tilemap_reset(before, a, res1),
        given_new_tileset(a, b, res2),
        tilemap_edited(b.inner, c.inner, paint_target, released),
        (before.inner.new_tileset matches Some(Some(n)) ==> res2.spec_get(n@) is Some),
    ensures
        collision_ready(c.inner),
{
    let r2 = res2.entries();
    assert forall|j: int| 0 <= j < res0.len() implies (#[trigger] res0[j]).0@ == res1[j].0@ by {}
    assert forall|j: int| 0 <= j < res0.len() implies (#[trigger] res0[j]).0@ == r2[j].0@ by {
        assert(res1[j].0 == res0[j].0);
    }
    // The tileset `c` draws with, and the count of boxes its tiles fit.
    match c.inner.tileset {
        None => {},
        Some(t) => {
            match t.bounding_boxes {
                None => {},
                Some(v) => {
                    let count = v@.len();
                    match before.inner.new_tileset {
                        Some(Some(n)) => {
                            let k = lemma_named_same_names(res0, r2, n@);
                            assert(named(r2, n@) is Some);
                            let src = named(r2, n@).unwrap();
                            assert(cloned(src, t));
                            assert(tileset_copy(src, t));
                            assert(src == r2[k].1);
                            assert(res1[k].1.bounding_boxes == res0[k].1.bounding_boxes);
                            assert(fits_tileset(before.inner, named(res0, n@)));
                            assert(fits_boxes(before.inner, count));
                        },
                        Some(None) => {},
                        None => {
                            match reset_source(before.inner, res1) {
                                Some(r) => {
                                    let ts = before.inner.tileset.unwrap();
                                    let k = lemma_named_same_names(res0, res1, ts.name@);
                                    assert(r == res1[k].1);
                                    assert(fits_tileset(before.inner, named(res0, ts.name@)));
                                    assert(fits_boxes(before.inner, count));
                                },
                                None => {
                                    assert(fits_boxes(before.inner, count));
                                },
                            }
                        },
                    }
                    lemma_edit_fits(b.inner, c.inner, paint_target, released, count);
                },
            }
        },
    }
}

/// The resource tilesets and the tilemaps after the edits of the tilesets
/// were carried over, given the tilesets after their change of picture
/// (`updated`): every tileset took its change of picture and is marked
/// clean, and every tilemap whose tileset was edited took it up again (see
/// `tilemap_reset`).
pub open spec fn propagated<S: Clone, B: Clone>(
    updated: Seq<(String, TileSet<S, B>)>,
    res_before: Seq<(String, TileSet<S, B>)>,
    res_after: Seq<(String, TileSet<S, B>)>,
    sprites: TileSets<S>,
    tilemaps_before: Seq<Component<Tilemap<TileSet<S, B>>>>,
    tilemaps_after: Seq<Component<Tilemap<TileSet<S, B>>>>,
) -> bool {
    &&& updated.len() == res_before.len()
    &&& res_after.len() == res_before.len()
    &&& forall|i: int|
        0 <= i < updated.len() ==> {
            &&& (#[trigger] updated[i]).0 == res_before[i].0
            &&& sprite_updated(res_before[i].1, updated[i].1, sprites)
            &&& res_after[i].0 == updated[i].0
            &&& flags_cleared(updated[i].1, res_after[i].1)
        }
    &&& tilemaps_after.len() == tilemaps_before.len()
    &&& forall|i: int|
        0 <= i < tilemaps_before.len() ==> tilemap_reset(tilemaps_before[i], #[trigger] tilemaps_after[i], updated)
}

/// Carries the edits of the resource tilesets over to the tilemaps: every
/// tileset takes its change of picture (a copy of a sprite of `sprites`),
/// every tilemap that draws with an edited tileset takes it up again, and
/// the tilesets are marked clean (see `propagated`).
pub fn propogate_dirty_tilesets_to_tilemaps<S: Clone, B: Clone>(
    tilemaps: &mut ComponentList<Tilemap<TileSet<S, B>>>,
    resource_tilesets: &mut TileSets<TileSet<S, B>>,
    sprites: &TileSets<S>,
)
    requires
        old(tilemaps).wf(),
        old(resource_tilesets).wf(),
        sprites.wf(),
        sprite_requests_resolvable(old(resource_tilesets).entries(), *sprites),
    ensures
        final(tilemaps).wf(),
        final(resource_tilesets).wf(),
        exists|updated: Seq<(String, TileSet<S, B>)>|
            #[trigger] propagated(
                updated,
                old(resource_tilesets).entries(),
                final(resource_tilesets).entries(),
                *sprites,
                old(tilemaps)@,
                final(tilemaps)@,
            ),
{
    let ghost res0 = resource_tilesets.entries();
    update_tileset_sprites(resource_tilesets, sprites);
    let ghost res1 = resource_tilesets.entries();
    reset_tilemaps(tilemaps, resource_tilesets);
    clear_tileset_flags(resource_tilesets);
    assert(propagated(res1, res0, resource_tilesets.entries(), *sprites, old(tilemaps)@, tilemaps@));
}

/// Once carried over, edits are done with: a tileset marked clean asks no
/// tilemap to take it up again and hands on no further change of picture.
pub proof fn lemma_tileset_edits_settle<S, B>(before: TileSet<S, B>, after: TileSet<S, B>)
    requires
        flags_cleared(before, after),
    ensures
        !tileset_propagates(after),
        !(after.visual_dirty || after.revert),
{
}

/// A stroke that reaches an offset it has not painted yet writes the brush
/// there (an eraser writes no tile) and asks for new collision boxes,
/// whatever the brush is.
pub proof fn lemma_stroke_writes_and_asks_for_boxes<TS>(
    before: Tilemap<TS>,
    after: Tilemap<TS>,
    p: Vec2Int,
    released: bool,
)
    requires
        tilemap_edited(before, after, Some(p), released),
        size_fits(before.size),
        on_tilemap(before.size, p),
        before.tileset is Some,
        before.edit_mode matches EditingMode::Editing(_, memo) && !memo@.contains(p),
    ensures
        after.rebuild_collision_boxes,
        after.tiles@.len() == before.size.x * before.size.y,
        match before.edit_mode {
            EditingMode::Editing(brush, _) => after.tiles@[p.y * before.size.x + p.x] == brush,
            EditingMode::NotEditing => true,
        },
{
    let size = before.size;
    assert(0 <= p.y * size.x + p.x < size.x * size.y) by (nonlinear_arith)
        requires
            0 <= p.x < size.x,
            0 <= p.y < size.y,
    ;
}

/// A tilemap that is not painted (no stroke reaches an unpainted offset)
/// keeps its request for collision boxes as it was.
pub proof fn lemma_no_stroke_keeps_box_request<TS>(
    before: Tilemap<TS>,
    after: Tilemap<TS>,
    paint_target: Option<Vec2Int>,
    released: bool,
)
    requires
        tilemap_edited(before, after, paint_target, released),
        paint_target is None,
    ensures
        after.rebuild_collision_boxes == before.rebuild_collision_boxes,
{
}

/// A tileset that was reverted or whose picture changed takes the picture it
/// asked for (a copy of the named sprite, or none) and forgets the request;
/// a tileset with neither keeps its picture and its request. Its flags, name
/// and collision boxes are left as they were.
pub proof fn lemma_picture_follows_request<S: Clone, B>(
    before: TileSet<S, B>,
    after: TileSet<S, B>,
    sprites: TileSets<S>,
)
    requires
        sprite_updated(before, after, sprites),
    ensures
        after.name == before.name,
        after.revert == before.revert,
        after.visual_dirty == before.visual_dirty,
        after.physics_dirty == before.physics_dirty,
        after.bounding_boxes == before.bounding_boxes,
        (before.revert || before.visual_dirty) ==> after.next_sprite is None,
        (before.revert || before.visual_dirty) ==> (before.next_sprite matches Some(Some(n)) ==> (after.sprite
            matches Some(x) && cloned(sprites.spec_get(n@).unwrap(), x))),
        (before.revert || before.visual_dirty) ==> (before.next_sprite == Some(None::<String>)
            ==> after.sprite is None),
        (before.revert || before.visual_dirty) ==> (before.next_sprite is None ==> after.sprite
            == before.sprite),
        !(before.revert || before.visual_dirty) ==> (after.sprite == before.sprite && after.next_sprite
            == before.next_sprite),
{
}

/// A tilemap drawing with a tileset whose revert flag is set (whatever its
/// other flags) takes up a copy of that tileset and asks for new collision
/// boxes.
pub proof fn lemma_reverted_tileset_is_taken_up<S: Clone, B: Clone>(
    before: Component<Tilemap<TileSet<S, B>>>,
    after: Component<Tilemap<TileSet<S, B>>>,
    updated: Seq<(String, TileSet<S, B>)>,
    name: Seq<char>,
)
    requires
        tilemap_reset(before, after, updated),
        before.inner.tileset matches Some(ts) && ts.name@ == name,
        named(updated, name) matches Some(r) && r.revert,
    ensures
        after.inner.tileset matches Some(c) && tileset_copy(named(updated, name).unwrap(), c),
        after.inner.rebuild_collision_boxes,
{
}

/// A tilemap drawing with a tileset that was edited in any way (its
/// picture, its collision boxes, or a revert) takes up a copy of it and asks
/// for new collision boxes; one drawing with an unedited tileset keeps its
/// tileset and its request.
pub proof fn lemma_edited_tileset_is_taken_up<S: Clone, B: Clone>(
    before: Component<Tilemap<TileSet<S, B>>>,
    after: Component<Tilemap<TileSet<S, B>>>,
    updated: Seq<(String, TileSet<S, B>)>,
    name: Seq<char>,
)
    requires
        tilemap_reset(before, after, updated),
        before.inner.tileset matches Some(ts) && ts.name@ == name,
        named(updated, name) is Some,
    ensures
        ({
            let r = named(updated, name).unwrap();
            &&& (r.visual_dirty || r.physics_dirty || r.revert) ==> (after.inner.tileset matches Some(c)
                && tileset_copy(r, c) && after.inner.rebuild_collision_boxes)
            &&& !(r.visual_dirty || r.physics_dirty || r.revert) ==> (after.inner.tileset
                == before.inner.tileset && after.inner.rebuild_collision_boxes
                == before.inner.rebuild_collision_boxes)
        }),
{
}

/// Carried over the whole frame: after `propogate_dirty_tilesets_to_tilemaps`,
/// every tilemap drawing with a resource tileset whose revert flag was set
/// draws with a copy of that tileset (after its change of picture) and asks
/// for new collision boxes.
pub proof fn lemma_revert_reaches_tilemaps<S: Clone, B: Clone>(
    updated: Seq<(String, TileSet<S, B>)>,
    res_before: Seq<(String, TileSet<S, B>)>,
    res_after: Seq<(String, TileSet<S, B>)>,
    sprites: TileSets<S>,
    tilemaps_before: Seq<Component<Tilemap<TileSet<S, B>>>>,
    tilemaps_after: Seq<Component<Tilemap<TileSet<S, B>>>>,
    i: int,
    name: Seq<char>,
)
    requires
        propagated(updated, res_before, res_after, sprites, tilemaps_before, tilemaps_after),
        distinct_names(res_before),
        0 <= i < tilemaps_before.len(),
        tilemaps_before[i].inner.tileset matches Some(ts) && ts.name@ == name,
        named(res_before, name) matches Some(r) && r.revert,
    ensures
        named(updated, name) is Some,
        tilemaps_after[i].inner.tileset matches Some(c) && tileset_copy(named(updated, name).unwrap(), c),
        tilemaps_after[i].inner.rebuild_collision_boxes,
{
    assert forall|j: int| 0 <= j < res_before.len() implies (#[trigger] res_before[j]).0@ == updated[j].0@ by {
        assert(updated[j].0 == res_before[j].0);
    }
    let k = lemma_named_same_names(res_before, updated, name);
    assert(sprite_updated(res_before[k].1, updated[k].1, sprites));
    assert(tilemap_reset(tilemaps_before[i], tilemaps_after[i], updated));
}

} // verus!
