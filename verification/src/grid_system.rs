//! Movement on the fixed-size puzzle grid: each cell holds at most one
//! entity, and a move into an occupied cell is decided by the occupant's
//! grid type (pushables are pushed along, blockers stop the move).
use vstd::prelude::*;

use array2d::Array2D;

use crate::cardinals::CardinalPrime;
use crate::ecs::{
    has_entity, lemma_position_of_unique, lemma_update_is_replace, lookup, replace_inner,
    Component, ComponentList, Entity,
};
use crate::player_system::{Player, Velocity};

verus! {

#[verifier::external_type_specification]
#[verifier::external_body]
#[verifier::reject_recursive_types(T)]
pub struct ExArray2D<T: Clone>(Array2D<T>);

/// The grid: `grid[(column, row)]` holds the entity standing on that cell.
pub type Grid = Array2D<Option<Entity>>;

/// Number of cells along the first and the second grid coordinate.
pub const GRID_DIMENSIONS: (usize, usize) = (5, 10);

/// What a grid holds: the occupant of each cell, keyed by `(first, second)`
/// coordinate.
pub uninterp spec fn grid_cells(grid: Array2D<Option<Entity>>) -> Map<(int, int), Option<Entity>>;

/// The size a grid was made with: `(number of rows, number of columns)`.
pub uninterp spec fn grid_dimensions(grid: Array2D<Option<Entity>>) -> (nat, nat);

/// Whether `pos` is a cell of a grid of size `dims`.
pub open spec fn cell_in(dims: (nat, nat), pos: (int, int)) -> bool {
    0 <= pos.0 < dims.0 && 0 <= pos.1 < dims.1
}

/// The size of every grid of the game.
pub open spec fn game_dims() -> (nat, nat) {
    (GRID_DIMENSIONS.0 as nat, GRID_DIMENSIONS.1 as nat)
}

/// Calls `Array2D::filled_with(None, num_rows, num_columns)`, which builds a
/// grid of that size with every cell empty.
#[verifier::external_body]
fn empty_grid(num_rows: usize, num_columns: usize) -> (g: Grid)
    requires
        num_rows * num_columns <= usize::MAX,
    ensures
        grid_dimensions(g) == (num_rows as nat, num_columns as nat),
        forall|r: int, c: int|
            0 <= r < num_rows && 0 <= c < num_columns ==> #[trigger] grid_cells(g)[(r, c)] is None,
{
    Array2D::filled_with(None, num_rows, num_columns)
}

/// Reads `grid[(row, column)]` through the `Index` impl of `Array2D`, which
/// panics out of bounds and otherwise returns the stored cell.
#[verifier::external_body]
fn grid_get(grid: &Grid, row: usize, column: usize) -> (v: Option<Entity>)
    requires
        cell_in(grid_dimensions(*grid), (row as int, column as int)),
    ensures
        v == grid_cells(*grid)[(row as int, column as int)],
{
    grid[(row, column)]
}

/// Writes `grid[(row, column)] = value` through the `IndexMut` impl of
/// `Array2D`, which panics out of bounds and otherwise overwrites that one
/// cell; the size is unchanged.
#[verifier::external_body]
fn grid_set(grid: &mut Grid, row: usize, column: usize, value: Option<Entity>)
    requires
        cell_in(grid_dimensions(*old(grid)), (row as int, column as int)),
    ensures
        grid_dimensions(*final(grid)) == grid_dimensions(*old(grid)),
        grid_cells(*final(grid)) == grid_cells(*old(grid)).insert(
            (row as int, column as int),
            value,
        ),
{
    grid[(row, column)] = value;
}

/// An empty grid of the game's size.
pub fn new_grid() -> (g: Grid)
    ensures
        grid_dimensions(g) == game_dims(),
        forall|r: int, c: int| cell_in(game_dims(), (r, c)) ==> #[trigger] grid_cells(g)[(r, c)] is None,
{
    empty_grid(GRID_DIMENSIONS.0, GRID_DIMENSIONS.1)
}

/// How an entity on the grid reacts when something moves into its cell.
#[derive(Debug, PartialEq, Eq, Structural, Copy, Clone, Hash)]
pub enum GridType {
    Flag,
    Pushable,
    Blockable,
    Player,
    NonInteractable,
}

/// The grid object component: the entity's grid type, and the editor's
/// requests to teleport it to a cell or to register it on the grid.
#[derive(Debug, Clone, Copy, PartialEq, Eq, Hash)]
pub struct GridObject {
    pub grid_type: GridType,
    pub move_to_point: bool,
    pub move_to_point_pos: (usize, usize),
    pub register: bool,
}

impl GridObject {
    pub fn grid_type(&self) -> (t: GridType)
        ensures
            t == self.grid_type,
    {
        self.grid_type
    }
}

/// An entity's transform as the grid sees it: the grid cell its world
/// position falls in, and whether that position lies within the grid's
/// world area.
#[derive(Debug, Clone, Copy, PartialEq, Eq, Hash)]
pub struct GridTransform {
    pub cell: (usize, usize),
    pub on_grid: bool,
}

/// The neighbouring cell in `direction`, if it is still on the grid.
pub open spec fn spec_move_position(pos: (usize, usize), direction: CardinalPrime) -> Option<
    (usize, usize),
> {
    match direction {
        CardinalPrime::Right => if pos.0 + 1 < GRID_DIMENSIONS.0 {
            Some(((pos.0 + 1) as usize, pos.1))
        } else {
            None
        },
        CardinalPrime::Up => if pos.1 + 1 < GRID_DIMENSIONS.1 {
            Some((pos.0, (pos.1 + 1) as usize))
        } else {
            None
        },
        CardinalPrime::Left => if pos.0 != 0 {
            Some(((pos.0 - 1) as usize, pos.1))
        } else {
            None
        },
        CardinalPrime::Down => if pos.1 != 0 {
            Some((pos.0, (pos.1 - 1) as usize))
        } else {
            None
        },
    }
}

/// The neighbouring cell of `pos` in `direction`, or `None` at the edge of
/// the grid.
pub fn move_position(pos: (usize, usize), direction: CardinalPrime) -> (r: Option<(usize, usize)>)
    requires
        direction == CardinalPrime::Right ==> pos.0 < usize::MAX,
        direction == CardinalPrime::Up ==> pos.1 < usize::MAX,
    ensures
        r == spec_move_position(pos, direction),
{
    match direction {
        CardinalPrime::Right => {
            if pos.0 + 1 < GRID_DIMENSIONS.0 {
                Some((pos.0 + 1, pos.1))
            } else {
                None
            }
        },
        CardinalPrime::Up => {
            if pos.1 + 1 < GRID_DIMENSIONS.1 {
                Some((pos.0, pos.1 + 1))
            } else {
                None
            }
        },
        CardinalPrime::Left => {
            if pos.0 != 0 {
                Some((pos.0 - 1, pos.1))
            } else {
                None
            }
        },
        CardinalPrime::Down => {
            if pos.1 != 0 {
                Some((pos.0, pos.1 - 1))
            } else {
                None
            }
        },
    }
}

/// The state a move works on: the grid's cells, and the transforms of the
/// entities given as the grid cell each one is placed at.
pub type GridState = (Map<(int, int), Option<Entity>>, Seq<Component<GridTransform>>);

/// `entity` steps from `current_position` to `next_position`.
pub open spec fn spec_move_entity(
    s: GridState,
    entity: Entity,
    next_position: (usize, usize),
    current_position: (usize, usize),
) -> GridState {
    (
        s.0.insert((next_position.0 as int, next_position.1 as int), Some(entity)).insert(
            (current_position.0 as int, current_position.1 as int),
            None,
        ),
        replace_inner(s.1, entity, GridTransform { cell: next_position, on_grid: true }),
    )
}

/// How many more steps fit on the grid from `pos` in `direction`.
pub open spec fn room_ahead(pos: (usize, usize), direction: CardinalPrime) -> int {
    match direction {
        CardinalPrime::Right => GRID_DIMENSIONS.0 - pos.0,
        CardinalPrime::Up => GRID_DIMENSIONS.1 - pos.1,
        CardinalPrime::Left => pos.0 as int,
        CardinalPrime::Down => pos.1 as int,
    }
}

/// The outcome of `entity` trying to move from `current_position` to
/// `next_position`: whether it moved, and the state afterwards. `None` when
/// the attempt would fail on a missing cell, grid object or transform.
pub open spec fn spec_attempt_to_move(
    grid_objects: Seq<Component<GridObject>>,
    entity: Entity,
    current_position: (usize, usize),
    next_position: (usize, usize),
    movement: CardinalPrime,
    s: GridState,
) -> Option<(bool, GridState)>
    decreases room_ahead(next_position, movement),
{
    if !cell_in(game_dims(), (next_position.0 as int, next_position.1 as int)) {
        None
    } else {
        let before: Option<(bool, GridState)> = match s.0[(
            next_position.0 as int,
            next_position.1 as int,
        )] {
            None => Some((true, s)),
            Some(occupant) => match lookup(grid_objects, occupant) {
                None => None,
                Some(object) => match object.grid_type {
                    GridType::Pushable => match spec_move_position(next_position, movement) {
                        Some(next_next) => spec_attempt_to_move(
                            grid_objects,
                            occupant,
                            next_position,
                            next_next,
                            movement,
                            s,
                        ),
                        None => Some((true, s)),
                    },
                    GridType::Blockable | GridType::Player => Some((false, s)),
                    GridType::Flag | GridType::NonInteractable => Some((true, s)),
                },
            },
        };
        match before {
            None => None,
            Some((move_to_spot, s1)) => if move_to_spot {
                if has_entity(s1.1, entity) && cell_in(
                    game_dims(),
                    (current_position.0 as int, current_position.1 as int),
                ) {
                    Some((true, spec_move_entity(s1, entity, next_position, current_position)))
                } else {
                    None
                }
            } else {
                Some((false, s1))
            },
        }
    }
}

/// Puts `entity` on `next_position`, empties `current_position` and places
/// the entity's transform on the new cell.
fn move_entity(
    transforms: &mut ComponentList<GridTransform>,
    entity: &Entity,
    grid: &mut Grid,
    valid_next_position: (usize, usize),
    current_position: (usize, usize),
)
    requires
        old(transforms).wf(),
        has_entity(old(transforms)@, *entity),
        cell_in(grid_dimensions(*old(grid)), (valid_next_position.0 as int, valid_next_position.1 as int)),
        cell_in(grid_dimensions(*old(grid)), (current_position.0 as int, current_position.1 as int)),
    ensures
        final(transforms).wf(),
        grid_dimensions(*final(grid)) == grid_dimensions(*old(grid)),
        (grid_cells(*final(grid)), final(transforms)@) == spec_move_entity(
            (grid_cells(*old(grid)), old(transforms)@),
            *entity,
            valid_next_position,
            current_position,
        ),
{
    grid_set(grid, valid_next_position.0, valid_next_position.1, Some(*entity));
    grid_set(grid, current_position.0, current_position.1, None);
    let i = transforms.index_of(entity).unwrap();
    let ghost before = transforms@;
    let placed = GridTransform { cell: valid_next_position, on_grid: true };
    transforms.set_inner_at(i, placed);
    proof {
        let expected = replace_inner(before, *entity, placed);
        assert forall|j: int| 0 <= j < before.len() implies transforms@[j] == expected[j] by {
            if j != i {
                assert(before[j].entity_id != *entity);
            }
        }
        assert(transforms@ =~= expected);
    }
}

/// Whether some grid object marks `e` as pushable.
pub open spec fn pushable_entity(grid_objects: Seq<Component<GridObject>>, e: Entity) -> bool {
    exists|j: int|
        0 <= j < grid_objects.len() && #[trigger] grid_objects[j].entity_id == e
            && grid_objects[j].inner.grid_type == GridType::Pushable
}

/// Every occupied cell of the grid holds an entity that has a grid object
/// (its type decides what a step into the cell does), and a pushable one
/// also has a transform (a push moves it).
pub open spec fn grid_consistent(
    cells: Map<(int, int), Option<Entity>>,
    grid_objects: Seq<Component<GridObject>>,
    transforms: Seq<Component<GridTransform>>,
) -> bool {
    forall|c: (int, int)|
        cell_in(game_dims(), c) ==> match #[trigger] cells[c] {
            Some(o) => has_entity(grid_objects, o) && (pushable_entity(grid_objects, o) ==> has_entity(
                transforms,
                o,
            )),
            None => true,
        }
}

/// Every transform of an entity in `reads` (one whose cell is read) stands
/// on a cell of the grid.
pub open spec fn reads_on_grid(transforms: Seq<Component<GridTransform>>, reads: spec_fn(Entity) -> bool) -> bool {
    forall|i: int|
        0 <= i < transforms.len() && reads((#[trigger] transforms[i]).entity_id) ==> cell_in(
            game_dims(),
            (transforms[i].inner.cell.0 as int, transforms[i].inner.cell.1 as int),
        )
}

/// The entities whose transform cell a grid update reads: those whose grid
/// object asks to be teleported or registered, and the players.
pub open spec fn grid_reads(
    grid_objects: Seq<Component<GridObject>>,
    players: Seq<Component<Player>>,
) -> spec_fn(Entity) -> bool {
    |e: Entity|
        (exists|j: int|
            0 <= j < grid_objects.len() && #[trigger] grid_objects[j].entity_id == e && (
            grid_objects[j].inner.move_to_point || grid_objects[j].inner.register)) || (exists|k: int|
            0 <= k < players.len() && #[trigger] players[k].entity_id == e)
}

/// Moving an entity with a transform keeps every entity's transform, and
/// keeps the grid consistent when the entity has a grid object.
proof fn lemma_move_entity_consistent(
    s: GridState,
    grid_objects: Seq<Component<GridObject>>,
    entity: Entity,
    next_position: (usize, usize),
    current_position: (usize, usize),
    reads: spec_fn(Entity) -> bool,
)
    requires
        grid_consistent(s.0, grid_objects, s.1),
        has_entity(s.1, entity),
    ensures
        forall|x: Entity|
            #[trigger] has_entity(spec_move_entity(s, entity, next_position, current_position).1, x)
                == has_entity(s.1, x),
        has_entity(grid_objects, entity) ==> grid_consistent(
            spec_move_entity(s, entity, next_position, current_position).0,
            grid_objects,
            spec_move_entity(s, entity, next_position, current_position).1,
        ),
        reads_on_grid(s.1, reads) && cell_in(game_dims(), (next_position.0 as int, next_position.1 as int))
            ==> reads_on_grid(spec_move_entity(s, entity, next_position, current_position).1, reads),
{
    let m = spec_move_entity(s, entity, next_position, current_position);
    if has_entity(s.1, entity) {
        crate::ecs::lemma_position_of(s.1, entity);
    }
    crate::ecs::lemma_replace_inner_keeps_entities(
        s.1,
        entity,
        GridTransform { cell: next_position, on_grid: true },
    );
    if has_entity(grid_objects, entity) {
        assert forall|c: (int, int)| cell_in(game_dims(), c) implies match #[trigger] m.0[c] {
            Some(o) => has_entity(grid_objects, o) && (pushable_entity(grid_objects, o) ==> has_entity(m.1, o)),
            None => true,
        } by {
            if c != (current_position.0 as int, current_position.1 as int) && c != (
            next_position.0 as int, next_position.1 as int) {
                assert(m.0[c] == s.0[c]);
                if let Some(o) = s.0[c] {
                    assert(has_entity(m.1, o) == has_entity(s.1, o));
                }
            }
        }
    }
}

/// On a consistent grid, an entity with a transform that steps between two
/// cells of the grid always gets an answer; the transforms keep their
/// entities, and the grid stays consistent when the entity has a grid
/// object.
pub proof fn lemma_attempt_to_move_succeeds(
    grid_objects: Seq<Component<GridObject>>,
    entity: Entity,
    current_position: (usize, usize),
    next_position: (usize, usize),
    movement: CardinalPrime,
    s: GridState,
    reads: spec_fn(Entity) -> bool,
)
    requires
        grid_consistent(s.0, grid_objects, s.1),
        has_entity(s.1, entity),
        cell_in(game_dims(), (current_position.0 as int, current_position.1 as int)),
        cell_in(game_dims(), (next_position.0 as int, next_position.1 as int)),
    ensures
        spec_attempt_to_move(grid_objects, entity, current_position, next_position, movement, s) is Some,
        forall|x: Entity|
            #[trigger] has_entity(
                spec_attempt_to_move(
                    grid_objects,
                    entity,
                    current_position,
                    next_position,
                    movement,
                    s,
                ).unwrap().1.1,
                x,
            ) == has_entity(s.1, x),
        has_entity(grid_objects, entity) ==> grid_consistent(
            spec_attempt_to_move(grid_objects, entity, current_position, next_position, movement, s).unwrap().1.0,
            grid_objects,
            spec_attempt_to_move(grid_objects, entity, current_position, next_position, movement, s).unwrap().1.1,
        ),
        reads_on_grid(s.1, reads) ==> reads_on_grid(
            spec_attempt_to_move(grid_objects, entity, current_position, next_position, movement, s).unwrap().1.1,
            reads,
        ),
    decreases room_ahead(next_position, movement),
{
    lemma_move_entity_consistent(s, grid_objects, entity, next_position, current_position, reads);
    let key = (next_position.0 as int, next_position.1 as int);
    if let Some(occupant) = s.0[key] {
        assert(has_entity(grid_objects, occupant));
        crate::ecs::lemma_position_of(grid_objects, occupant);
        let object = lookup(grid_objects, occupant).unwrap();
        if object.grid_type == GridType::Pushable {
            let p = crate::ecs::position_of(grid_objects, occupant);
            assert(grid_objects[p].entity_id == occupant);
            assert(pushable_entity(grid_objects, occupant));
            assert(has_entity(s.1, occupant));
            if let Some(next_next) = spec_move_position(next_position, movement) {
                lemma_move_position_stays_on_grid(next_position, movement);
                lemma_attempt_to_move_succeeds(
                    grid_objects,
                    occupant,
                    next_position,
                    next_next,
                    movement,
                    s,
                    reads,
                );
                let s1 = spec_attempt_to_move(
                    grid_objects,
                    occupant,
                    next_position,
                    next_next,
                    movement,
                    s,
                ).unwrap().1;
                assert(has_entity(s1.1, entity));
                lemma_move_entity_consistent(s1, grid_objects, entity, next_position, current_position, reads);
            }
        }
    }
}

/// One step of `entity`, on any grid where the step is answered (see
/// `spec_attempt_to_move`).
fn step_entity(
    entity_id: &Entity,
    my_object_type: GridType,
    current_position: (usize, usize),
    next_position: (usize, usize),
    movement: CardinalPrime,
    grid_objects: &ComponentList<GridObject>,
    transforms: &mut ComponentList<GridTransform>,
    grid: &mut Grid,
) -> (moved: bool)
    requires
        grid_objects.wf(),
        old(transforms).wf(),
        grid_dimensions(*old(grid)) == game_dims(),
        spec_attempt_to_move(
            grid_objects@,
            *entity_id,
            current_position,
            next_position,
            movement,
            (grid_cells(*old(grid)), old(transforms)@),
        ) is Some,
    ensures
        final(transforms).wf(),
        grid_dimensions(*final(grid)) == game_dims(),
        Some((moved, (grid_cells(*final(grid)), final(transforms)@))) == spec_attempt_to_move(
            grid_objects@,
            *entity_id,
            current_position,
            next_position,
            movement,
            (grid_cells(*old(grid)), old(transforms)@),
        ),
    decreases room_ahead(next_position, movement),
{
    let mut move_to_spot = true;
    if let Some(entity_in_grid) = grid_get(grid, next_position.0, next_position.1) {
        let grid_type = grid_objects.get(&entity_in_grid).unwrap().inner().grid_type();
        match grid_type {
            GridType::Pushable => {
                if let Some(next_next_position) = move_position(next_position, movement) {
                    move_to_spot =
                        step_entity(
                            &entity_in_grid,
                            grid_type,
                            next_position,
                            next_next_position,
                            movement,
                            grid_objects,
                            transforms,
                            grid,
                        );
                }
            },
            GridType::Blockable | GridType::Player => {
                move_to_spot = false;
            },
            GridType::Flag | GridType::NonInteractable => {},
        }
    }
    if move_to_spot {
        move_entity(transforms, entity_id, grid, next_position, current_position);
    }
    move_to_spot
}


/// `entity` (of grid type `my_object_type`) tries to step from
/// `current_position` to `next_position`. An empty cell, a flag or a
/// non-interactable occupant lets it through; a blocker or another player
/// stops it; a pushable occupant is pushed one cell further in `movement`
/// first (and is overrun when it is at the edge). Returns whether the entity
/// moved.
/// Stated on a consistent grid (see `grid_consistent`), for an entity
/// with a transform stepping between two cells of the grid.
pub fn attempt_to_move(
    entity_id: &Entity,
    my_object_type: GridType,
    current_position: (usize, usize),
    next_position: (usize, usize),
    movement: CardinalPrime,
    grid_objects: &ComponentList<GridObject>,
    transforms: &mut ComponentList<GridTransform>,
    grid: &mut Grid,
) -> (moved: bool)
    requires
        grid_objects.wf(),
        old(transforms).wf(),
        grid_dimensions(*old(grid)) == game_dims(),
        grid_consistent(grid_cells(*old(grid)), grid_objects@, old(transforms)@),
        has_entity(old(transforms)@, *entity_id),
        cell_in(game_dims(), (current_position.0 as int, current_position.1 as int)),
        cell_in(game_dims(), (next_position.0 as int, next_position.1 as int)),
    ensures
        final(transforms).wf(),
        grid_dimensions(*final(grid)) == game_dims(),
        Some((moved, (grid_cells(*final(grid)), final(transforms)@))) == spec_attempt_to_move(
            grid_objects@,
            *entity_id,
            current_position,
            next_position,
            movement,
            (grid_cells(*old(grid)), old(transforms)@),
        ),
        has_entity(grid_objects@, *entity_id) ==> grid_consistent(grid_cells(*final(grid)), grid_objects@, final(transforms)@),
{
    proof {
        lemma_attempt_to_move_succeeds(
            grid_objects@,
            *entity_id,
            current_position,
            next_position,
            movement,
            (grid_cells(*grid), transforms@),
            |e: Entity| true,
        );
    }
    step_entity(
        entity_id,
        my_object_type,
        current_position,
        next_position,
        movement,
        grid_objects,
        transforms,
        grid,
    )
}

/// Puts `entity` on `cell`, the grid cell of its world position when that
/// position lies on the grid. Returns whether it was registered.
pub fn register_entity(grid: &mut Grid, entity: Entity, cell: Option<(usize, usize)>) -> (registered:
    bool)
    requires
        grid_dimensions(*old(grid)) == game_dims(),
        cell matches Some(c) ==> cell_in(game_dims(), (c.0 as int, c.1 as int)),
    ensures
        registered == cell is Some,
        grid_dimensions(*final(grid)) == game_dims(),
        grid_cells(*final(grid)) == match cell {
            Some(c) => grid_cells(*old(grid)).insert((c.0 as int, c.1 as int), Some(entity)),
            None => grid_cells(*old(grid)),
        },
{
    match cell {
        Some(c) => {
            grid_set(grid, c.0, c.1, Some(entity));
            true
        },
        None => false,
    }
}

/// The direction that undoes a step in `direction`.
pub open spec fn opposite(direction: CardinalPrime) -> CardinalPrime {
    match direction {
        CardinalPrime::Right => CardinalPrime::Left,
        CardinalPrime::Left => CardinalPrime::Right,
        CardinalPrime::Up => CardinalPrime::Down,
        CardinalPrime::Down => CardinalPrime::Up,
    }
}

/// A step on the grid can always be taken back: from the cell reached by a
/// step in `direction`, a step in the opposite direction returns to `pos`.
pub proof fn lemma_move_position_reversible(pos: (usize, usize), direction: CardinalPrime)
    requires
        cell_in(game_dims(), (pos.0 as int, pos.1 as int)),
        spec_move_position(pos, direction) is Some,
    ensures
        spec_move_position(spec_move_position(pos, direction).unwrap(), opposite(direction))
            == Some(pos),
{
}

/// A step never leaves the grid.
pub proof fn lemma_move_position_stays_on_grid(pos: (usize, usize), direction: CardinalPrime)
    requires
        cell_in(game_dims(), (pos.0 as int, pos.1 as int)),
        spec_move_position(pos, direction) is Some,
    ensures
        ({
            let q = spec_move_position(pos, direction).unwrap();
            cell_in(game_dims(), (q.0 as int, q.1 as int))
        }),
{
}

/// A move that is refused changes nothing: neither the grid nor any
/// transform.
pub proof fn lemma_refused_move_changes_nothing(
    grid_objects: Seq<Component<GridObject>>,
    entity: Entity,
    current_position: (usize, usize),
    next_position: (usize, usize),
    movement: CardinalPrime,
    s: GridState,
)
    requires
        spec_attempt_to_move(grid_objects, entity, current_position, next_position, movement, s)
            matches Some((moved, _)) && !moved,
    ensures
        spec_attempt_to_move(grid_objects, entity, current_position, next_position, movement, s)
            == Some((false, s)),
    decreases room_ahead(next_position, movement),
{
    let occupant = s.0[(next_position.0 as int, next_position.1 as int)];
    if let Some(o) = occupant {
        if lookup(grid_objects, o) matches Some(obj) && obj.grid_type == GridType::Pushable {
            if let Some(next_next) = spec_move_position(next_position, movement) {
                let inner = spec_attempt_to_move(
                    grid_objects,
                    o,
                    next_position,
                    next_next,
                    movement,
                    s,
                );
                if let Some((true, _)) = inner {
                } else {
                    lemma_refused_move_changes_nothing(
                        grid_objects,
                        o,
                        next_position,
                        next_next,
                        movement,
                        s,
                    );
                }
            }
        }
    }
}

/// After a move that went through, the entity stands on `next_position`,
/// `current_position` is empty, and the entity's transform is on the new
/// cell.
pub proof fn lemma_accepted_move_places_entity(
    grid_objects: Seq<Component<GridObject>>,
    entity: Entity,
    current_position: (usize, usize),
    next_position: (usize, usize),
    movement: CardinalPrime,
    s: GridState,
)
    requires
        spec_attempt_to_move(grid_objects, entity, current_position, next_position, movement, s)
            matches Some((moved, _)) && moved,
        next_position != current_position,
    ensures
        ({
            let after = spec_attempt_to_move(
                grid_objects,
                entity,
                current_position,
                next_position,
                movement,
                s,
            ).unwrap().1;
            &&& after.0[(next_position.0 as int, next_position.1 as int)] == Some(entity)
            &&& after.0[(current_position.0 as int, current_position.1 as int)] is None
            &&& lookup(after.1, entity) == Some(GridTransform { cell: next_position, on_grid: true })
        }),
{
    let after = spec_attempt_to_move(
        grid_objects,
        entity,
        current_position,
        next_position,
        movement,
        s,
    ).unwrap().1;
    let before: Option<(bool, GridState)> = match s.0[(
        next_position.0 as int,
        next_position.1 as int,
    )] {
        None => Some((true, s)),
        Some(occupant) => match lookup(grid_objects, occupant) {
            None => None,
            Some(object) => match object.grid_type {
                GridType::Pushable => match spec_move_position(next_position, movement) {
                    Some(next_next) => spec_attempt_to_move(
                        grid_objects,
                        occupant,
                        next_position,
                        next_next,
                        movement,
                        s,
                    ),
                    None => Some((true, s)),
                },
                GridType::Blockable | GridType::Player => Some((false, s)),
                GridType::Flag | GridType::NonInteractable => Some((true, s)),
            },
        },
    };
    let s1 = before.unwrap().1;
    crate::ecs::lemma_replace_inner_lookup(
        s1.1,
        entity,
        GridTransform { cell: next_position, on_grid: true },
    );
}

/// The state the grid update works on: cells, transforms, grid objects.
pub type GridWorld = (
    Map<(int, int), Option<Entity>>,
    Seq<Component<GridTransform>>,
    Seq<Component<GridObject>>,
);

/// The grid object at position `i` after its editor requests are served:
/// a teleport request moves the entity to the requested cell (when that is
/// on the grid) and is cleared; a register request puts the entity on the
/// grid cell of its transform (when its position is on the grid) and is
/// cleared. `None` when serving would index outside the grid.
pub open spec fn spec_serve_grid_object(w: GridWorld, i: int) -> Option<GridWorld> {
    let c = w.2[i];
    let id = c.entity_id;
    let go = c.inner;
    let after_move: Option<GridState> = if go.move_to_point {
        match lookup(w.1, id) {
            Some(t) => {
                let d = go.move_to_point_pos;
                if d.0 >= GRID_DIMENSIONS.0 || d.1 >= GRID_DIMENSIONS.1 {
                    Some((w.0, w.1))
                } else if !cell_in(game_dims(), (t.cell.0 as int, t.cell.1 as int)) {
                    None
                } else {
                    Some(spec_move_entity((w.0, w.1), id, d, t.cell))
                }
            },
            None => Some((w.0, w.1)),
        }
    } else {
        Some((w.0, w.1))
    };
    match after_move {
        None => None,
        Some(m) => {
            let go1 = if go.move_to_point {
                GridObject {
                    grid_type: go.grid_type,
                    move_to_point: false,
                    move_to_point_pos: (0, 0),
                    register: go.register,
                }
            } else {
                go
            };
            let after_register: Option<Map<(int, int), Option<Entity>>> = if go.register {
                match lookup(m.1, id) {
                    Some(t) => if t.on_grid {
                        if cell_in(game_dims(), (t.cell.0 as int, t.cell.1 as int)) {
                            Some(m.0.insert((t.cell.0 as int, t.cell.1 as int), Some(id)))
                        } else {
                            None
                        }
                    } else {
                        Some(m.0)
                    },
                    None => Some(m.0),
                }
            } else {
                Some(m.0)
            };
            let go2 = GridObject {
                grid_type: go1.grid_type,
                move_to_point: go1.move_to_point,
                move_to_point_pos: go1.move_to_point_pos,
                register: false,
            };
            match after_register {
                None => None,
                Some(cells) => Some(
                    (
                        cells,
                        m.1,
                        w.2.update(
                            i,
                            Component {
                                entity_id: id,
                                is_active: c.is_active,
                                inner: if go.register {
                                    go2
                                } else {
                                    go1
                                },
                            },
                        ),
                    ),
                ),
            }
        },
    }
}

/// The world after serving the grid objects at positions `0..k`, in order.
pub open spec fn spec_serve_grid_objects(w: GridWorld, k: nat) -> Option<GridWorld>
    decreases k,
{
    if k == 0 {
        Some(w)
    } else {
        match spec_serve_grid_objects(w, (k - 1) as nat) {
            Some(w1) => spec_serve_grid_object(w1, k - 1),
            None => None,
        }
    }
}

/// Whether a step from `pos` in `direction` overflows the coordinate.
pub open spec fn step_overflows(pos: (usize, usize), direction: CardinalPrime) -> bool {
    (direction == CardinalPrime::Right && pos.0 == usize::MAX) || (direction == CardinalPrime::Up
        && pos.1 == usize::MAX)
}

/// The world and velocities after the player at position `k` acts on its
/// intended direction: the direction is consumed, and the player attempts
/// the step when it has a transform and the step stays on the grid.
pub open spec fn spec_move_player(
    players: Seq<Component<Player>>,
    k: int,
    w: GridWorld,
    velocities: Seq<Component<Velocity>>,
) -> Option<(GridWorld, Seq<Component<Velocity>>)> {
    let e = players[k].entity_id;
    let movement: Option<CardinalPrime> = match lookup(velocities, e) {
        Some(v) => v.intended_direction,
        None => None,
    };
    let new_velocities = match lookup(velocities, e) {
        Some(v) => replace_inner(velocities, e, Velocity { intended_direction: None }),
        None => velocities,
    };
    match (movement, lookup(w.1, e)) {
        (Some(m), Some(t)) => if step_overflows(t.cell, m) {
            None
        } else {
            match spec_move_position(t.cell, m) {
                Some(next) => match spec_attempt_to_move(w.2, e, t.cell, next, m, (w.0, w.1)) {
                    Some((_, g)) => Some(((g.0, g.1, w.2), new_velocities)),
                    None => None,
                },
                None => Some((w, new_velocities)),
            }
        },
        _ => Some((w, new_velocities)),
    }
}

/// The world and velocities after the players at positions `0..k` acted.
pub open spec fn spec_move_players(
    players: Seq<Component<Player>>,
    k: nat,
    w: GridWorld,
    velocities: Seq<Component<Velocity>>,
) -> Option<(GridWorld, Seq<Component<Velocity>>)>
    decreases k,
{
    if k == 0 {
        Some((w, velocities))
    } else {
        match spec_move_players(players, (k - 1) as nat, w, velocities) {
            Some((w1, v1)) => spec_move_player(players, k - 1, w1, v1),
            None => None,
        }
    }
}

/// One grid update: first the editor requests of every grid object, then
/// the movement of every player.
pub open spec fn spec_update_grid_positions(
    players: Seq<Component<Player>>,
    w: GridWorld,
    velocities: Seq<Component<Velocity>>,
) -> Option<(GridWorld, Seq<Component<Velocity>>)> {
    match spec_serve_grid_objects(w, w.2.len()) {
        Some(w1) => spec_move_players(players, players.len(), w1, velocities),
        None => None,
    }
}

/// Serving a prefix of the grid objects succeeds when serving all does.
pub proof fn lemma_serve_prefix(w: GridWorld, k: nat, j: nat)
    requires
        j <= k,
        spec_serve_grid_objects(w, k) is Some,
    ensures
        spec_serve_grid_objects(w, j) is Some,
    decreases k - j,
{
    if j < k {
        lemma_serve_prefix(w, (k - 1) as nat, j);
    }
}

/// Moving a prefix of the players succeeds when moving all does.
pub proof fn lemma_move_players_prefix(
    players: Seq<Component<Player>>,
    k: nat,
    j: nat,
    w: GridWorld,
    velocities: Seq<Component<Velocity>>,
)
    requires
        j <= k,
        spec_move_players(players, k, w, velocities) is Some,
    ensures
        spec_move_players(players, j, w, velocities) is Some,
    decreases k - j,
{
    if j < k {
        lemma_move_players_prefix(players, (k - 1) as nat, j, w, velocities);
    }
}

/// Serving grid objects keeps their entities and their grid types.
pub proof fn lemma_serve_keeps_objects(w: GridWorld, k: nat)
    requires
        spec_serve_grid_objects(w, k) is Some,
        k <= w.2.len(),
    ensures
        ({
            let w1 = spec_serve_grid_objects(w, k).unwrap();
            &&& w1.2.len() == w.2.len()
            &&& forall|i: int|
                0 <= i < w.2.len() ==> (#[trigger] w1.2[i]).entity_id == w.2[i].entity_id
                    && w1.2[i].inner.grid_type == w.2[i].inner.grid_type && (i >= k ==> w1.2[i]
                    == w.2[i])
        }),
    decreases k,
{
    if k > 0 {
        lemma_serve_keeps_objects(w, (k - 1) as nat);
    }
}

/// A world whose grid is consistent (see `grid_consistent`) and whose
/// transforms that are read (`reads`) stand on the grid.
pub open spec fn world_ok(w: GridWorld, reads: spec_fn(Entity) -> bool) -> bool {
    grid_consistent(w.0, w.2, w.1) && reads_on_grid(w.1, reads)
}

/// Serving one grid object of a sound world succeeds and keeps it sound.
proof fn lemma_serve_grid_object_ok(w: GridWorld, i: int, reads: spec_fn(Entity) -> bool)
    requires
        world_ok(w, reads),
        0 <= i < w.2.len(),
        w.2[i].inner.move_to_point || w.2[i].inner.register ==> reads(w.2[i].entity_id),
    ensures
        spec_serve_grid_object(w, i) is Some,
        world_ok(spec_serve_grid_object(w, i).unwrap(), reads),
        forall|j: int| 0 <= j < w.2.len() && j != i ==> #[trigger] spec_serve_grid_object(w, i).unwrap().2[j] == w.2[j],
        spec_serve_grid_object(w, i).unwrap().2.len() == w.2.len(),
        forall|x: Entity| #[trigger] has_entity(spec_serve_grid_object(w, i).unwrap().1, x) == has_entity(w.1, x),
        forall|x: Entity| #[trigger] has_entity(spec_serve_grid_object(w, i).unwrap().2, x) == has_entity(w.2, x),
{
    let c = w.2[i];
    let id = c.entity_id;
    let go = c.inner;
    assert(has_entity(w.2, id));
    let m: GridState = if go.move_to_point {
        match lookup(w.1, id) {
            Some(t) => {
                crate::ecs::lemma_position_of(w.1, id);
                let p = crate::ecs::position_of(w.1, id);
                assert(cell_in(game_dims(), (w.1[p].inner.cell.0 as int, w.1[p].inner.cell.1 as int)));
                let d = go.move_to_point_pos;
                if d.0 >= GRID_DIMENSIONS.0 || d.1 >= GRID_DIMENSIONS.1 {
                    (w.0, w.1)
                } else {
                    lemma_move_entity_consistent((w.0, w.1), w.2, id, d, t.cell, reads);
                    spec_move_entity((w.0, w.1), id, d, t.cell)
                }
            },
            None => (w.0, w.1),
        }
    } else {
        (w.0, w.1)
    };
    assert(grid_consistent(m.0, w.2, m.1) && reads_on_grid(m.1, reads));
    assert(forall|x: Entity| #[trigger] has_entity(m.1, x) == has_entity(w.1, x));
    let cells: Map<(int, int), Option<Entity>> = if go.register {
        match lookup(m.1, id) {
            Some(t) => {
                crate::ecs::lemma_position_of(m.1, id);
                let p = crate::ecs::position_of(m.1, id);
                assert(cell_in(game_dims(), (m.1[p].inner.cell.0 as int, m.1[p].inner.cell.1 as int)));
                if t.on_grid {
                    let r = m.0.insert((t.cell.0 as int, t.cell.1 as int), Some(id));
                    assert(pushable_entity(w.2, id) ==> has_entity(m.1, id));
                    assert forall|cc: (int, int)| cell_in(game_dims(), cc) implies match #[trigger] r[cc] {
                        Some(o) => has_entity(w.2, o) && (pushable_entity(w.2, o) ==> has_entity(m.1, o)),
                        None => true,
                    } by {
                        if cc != (t.cell.0 as int, t.cell.1 as int) {
                            assert(r[cc] == m.0[cc]);
                        }
                    }
                    r
                } else {
                    m.0
                }
            },
            None => m.0,
        }
    } else {
        m.0
    };
    let result = spec_serve_grid_object(w, i).unwrap();
    assert(result.0 == cells);
    assert(result.1 == m.1);
    assert forall|j: int| 0 <= j < w.2.len() implies (#[trigger] result.2[j]).entity_id == w.2[j].entity_id by {}
    assert forall|x: Entity| #[trigger] has_entity(result.2, x) == has_entity(w.2, x) by {
        crate::ecs::lemma_same_entities(result.2, w.2, x);
    }
    assert forall|j: int| 0 <= j < w.2.len() implies (#[trigger] result.2[j]).inner.grid_type == w.2[j].inner.grid_type by {}
    assert forall|x: Entity| #[trigger] pushable_entity(result.2, x) == pushable_entity(w.2, x) by {
        if pushable_entity(result.2, x) {
            let j = choose|j: int|
                0 <= j < result.2.len() && #[trigger] result.2[j].entity_id == x
                    && result.2[j].inner.grid_type == GridType::Pushable;
            assert(w.2[j].entity_id == x);
        }
        if pushable_entity(w.2, x) {
            let j = choose|j: int|
                0 <= j < w.2.len() && #[trigger] w.2[j].entity_id == x && w.2[j].inner.grid_type == GridType::Pushable;
            assert(result.2[j].entity_id == x);
        }
    }
    assert forall|cc: (int, int)| cell_in(game_dims(), cc) implies match #[trigger] result.0[cc] {
        Some(o) => has_entity(result.2, o) && (pushable_entity(result.2, o) ==> has_entity(result.1, o)),
        None => true,
    } by {
        if let Some(o) = result.0[cc] {
            assert(has_entity(result.2, o) == has_entity(w.2, o));
            assert(pushable_entity(result.2, o) == pushable_entity(w.2, o));
        }
    }
}

/// Serving the first `k` grid objects of a sound world succeeds and keeps
/// it sound.
proof fn lemma_serve_grid_objects_ok(w: GridWorld, k: nat, reads: spec_fn(Entity) -> bool)
    requires
        world_ok(w, reads),
        k <= w.2.len(),
        forall|j: int|
            0 <= j < k && ((#[trigger] w.2[j]).inner.move_to_point || w.2[j].inner.register) ==> reads(
                w.2[j].entity_id,
            ),
    ensures
        spec_serve_grid_objects(w, k) is Some,
        world_ok(spec_serve_grid_objects(w, k).unwrap(), reads),
        forall|j: int| k <= j < w.2.len() ==> #[trigger] spec_serve_grid_objects(w, k).unwrap().2[j] == w.2[j],
        spec_serve_grid_objects(w, k).unwrap().2.len() == w.2.len(),
        forall|x: Entity| #[trigger] has_entity(spec_serve_grid_objects(w, k).unwrap().1, x) == has_entity(w.1, x),
        forall|x: Entity| #[trigger] has_entity(spec_serve_grid_objects(w, k).unwrap().2, x) == has_entity(w.2, x),
    decreases k,
{
    if k > 0 {
        lemma_serve_grid_objects_ok(w, (k - 1) as nat, reads);
        let w1 = spec_serve_grid_objects(w, (k - 1) as nat).unwrap();
        assert(w1.2[k - 1] == w.2[k - 1]);
        lemma_serve_grid_object_ok(w1, k - 1, reads);
        let w2 = spec_serve_grid_objects(w, k).unwrap();
        assert forall|j: int| k <= j < w.2.len() implies #[trigger] w2.2[j] == w.2[j] by {
            assert(w1.2[j] == w.2[j]);
        }
    }
}

/// A player of a sound world, whose grid object exists when it has a
/// transform, acts without fail and leaves the world sound.
proof fn lemma_move_player_ok(
    players: Seq<Component<Player>>,
    k: int,
    w: GridWorld,
    velocities: Seq<Component<Velocity>>,
    reads: spec_fn(Entity) -> bool,
)
    requires
        world_ok(w, reads),
        0 <= k < players.len(),
        reads(players[k].entity_id),
        has_entity(w.1, players[k].entity_id) ==> has_entity(w.2, players[k].entity_id),
    ensures
        spec_move_player(players, k, w, velocities) is Some,
        world_ok(spec_move_player(players, k, w, velocities).unwrap().0, reads),
        spec_move_player(players, k, w, velocities).unwrap().0.2 == w.2,
        forall|x: Entity| #[trigger] has_entity(spec_move_player(players, k, w, velocities).unwrap().0.1, x) == has_entity(w.1, x),
{
    let e = players[k].entity_id;
    let movement: Option<CardinalPrime> = match lookup(velocities, e) {
        Some(v) => v.intended_direction,
        None => None,
    };
    if let (Some(m), Some(t)) = (movement, lookup(w.1, e)) {
        crate::ecs::lemma_position_of(w.1, e);
        let p = crate::ecs::position_of(w.1, e);
        assert(cell_in(game_dims(), (w.1[p].inner.cell.0 as int, w.1[p].inner.cell.1 as int)));
        assert(!step_overflows(t.cell, m));
        if let Some(next) = spec_move_position(t.cell, m) {
            lemma_move_position_stays_on_grid(t.cell, m);
            lemma_attempt_to_move_succeeds(w.2, e, t.cell, next, m, (w.0, w.1), reads);
        }
    }
}

/// The players `0..k` of a sound world, each with a grid object when it
/// has a transform, all act without fail and leave the world sound.
proof fn lemma_move_players_ok(
    players: Seq<Component<Player>>,
    k: nat,
    w: GridWorld,
    velocities: Seq<Component<Velocity>>,
    reads: spec_fn(Entity) -> bool,
)
    requires
        world_ok(w, reads),
        k <= players.len(),
        forall|j: int| 0 <= j < players.len() ==> reads((#[trigger] players[j]).entity_id),
        forall|j: int|
            0 <= j < players.len() && has_entity(w.1, (#[trigger] players[j]).entity_id) ==> has_entity(
                w.2,
                players[j].entity_id,
            ),
    ensures
        spec_move_players(players, k, w, velocities) is Some,
        world_ok(spec_move_players(players, k, w, velocities).unwrap().0, reads),
        spec_move_players(players, k, w, velocities).unwrap().0.2 == w.2,
        forall|x: Entity| #[trigger] has_entity(spec_move_players(players, k, w, velocities).unwrap().0.1, x) == has_entity(w.1, x),
    decreases k,
{
    if k > 0 {
        lemma_move_players_ok(players, (k - 1) as nat, w, velocities, reads);
        let (w1, v1) = spec_move_players(players, (k - 1) as nat, w, velocities).unwrap();
        let e = players[k - 1].entity_id;
        assert(has_entity(w1.1, e) == has_entity(w.1, e));
        lemma_move_player_ok(players, k - 1, w1, v1, reads);
    }
}

/// On a sound world whose players have grid objects when they have
/// transforms, the grid update is answered.
pub proof fn lemma_update_grid_positions_succeeds(
    players: Seq<Component<Player>>,
    w: GridWorld,
    velocities: Seq<Component<Velocity>>,
)
    requires
        world_ok(w, grid_reads(w.2, players)),
        forall|j: int|
            0 <= j < players.len() && has_entity(w.1, (#[trigger] players[j]).entity_id) ==> has_entity(
                w.2,
                players[j].entity_id,
            ),
    ensures
        spec_update_grid_positions(players, w, velocities) is Some,
        world_ok(spec_update_grid_positions(players, w, velocities).unwrap().0, grid_reads(w.2, players)),
{
    let reads = grid_reads(w.2, players);
    assert forall|j: int|
        0 <= j < w.2.len() && ((#[trigger] w.2[j]).inner.move_to_point || w.2[j].inner.register) implies reads(
        w.2[j].entity_id,
    ) by {}
    assert forall|j: int| 0 <= j < players.len() implies reads((#[trigger] players[j]).entity_id) by {}
    lemma_serve_grid_objects_ok(w, w.2.len(), reads);
    let w1 = spec_serve_grid_objects(w, w.2.len()).unwrap();
    assert forall|j: int|
        0 <= j < players.len() && has_entity(w1.1, (#[trigger] players[j]).entity_id) implies has_entity(
            w1.2,
            players[j].entity_id,
        ) by {
        assert(has_entity(w1.1, players[j].entity_id) == has_entity(w.1, players[j].entity_id));
        assert(has_entity(w1.2, players[j].entity_id) == has_entity(w.2, players[j].entity_id));
    }
    lemma_move_players_ok(players, players.len(), w1, velocities, reads);
}

/// The grid update: serves the editor's teleport and register requests of
/// every grid object, then lets every player consume its intended
/// direction and attempt that step on the grid, pushing what can be
/// pushed. `transforms` gives each entity's transform as the grid sees it.
pub fn update_grid_positions(
    players: &ComponentList<Player>,
    transforms: &mut ComponentList<GridTransform>,
    velocities: &mut ComponentList<Velocity>,
    grid_objects: &mut ComponentList<GridObject>,
    grid: &mut Grid,
)
    requires
        players.wf(),
        old(transforms).wf(),
        old(velocities).wf(),
        old(grid_objects).wf(),
        grid_dimensions(*old(grid)) == game_dims(),
        world_ok(
            (grid_cells(*old(grid)), old(transforms)@, old(grid_objects)@),
            grid_reads(old(grid_objects)@, players@),
        ),
        forall|j: int|
            0 <= j < players@.len() && has_entity(old(transforms)@, (#[trigger] players@[j]).entity_id)
                ==> has_entity(old(grid_objects)@, players@[j].entity_id),
    ensures
        final(transforms).wf(),
        final(velocities).wf(),
        final(grid_objects).wf(),
        grid_dimensions(*final(grid)) == game_dims(),
        Some(
            (
                (grid_cells(*final(grid)), final(transforms)@, final(grid_objects)@),
                final(velocities)@,
            ),
        ) == spec_update_grid_positions(
            players@,
            (grid_cells(*old(grid)), old(transforms)@, old(grid_objects)@),
            old(velocities)@,
        ),
        world_ok(
            (grid_cells(*final(grid)), final(transforms)@, final(grid_objects)@),
            grid_reads(old(grid_objects)@, players@),
        ),
{
    proof {
        lemma_update_grid_positions_succeeds(
            players@,
            (grid_cells(*grid), transforms@, grid_objects@),
            velocities@,
        );
    }
    let ghost w0: GridWorld = (grid_cells(*grid), transforms@, grid_objects@);
    let ghost v0 = velocities@;
    let n = grid_objects.len();
    proof {
        lemma_serve_prefix(w0, n as nat, 0);
    }
    let mut i: usize = 0;
    while i < n
        invariant
            n == w0.2.len(),
            0 <= i <= n,
            transforms.wf(),
            grid_objects.wf(),
            grid_dimensions(*grid) == game_dims(),
            spec_serve_grid_objects(w0, n as nat) is Some,
            spec_serve_grid_objects(w0, i as nat) == Some(
                (grid_cells(*grid), transforms@, grid_objects@),
            ),
        decreases n - i,
    {
        proof {
            lemma_serve_prefix(w0, n as nat, (i + 1) as nat);
            lemma_serve_keeps_objects(w0, i as nat);
        }
        let ghost w = (grid_cells(*grid), transforms@, grid_objects@);
        let id = grid_objects.at(i).entity_id;
        let mut go = *grid_objects.at(i).inner();
        if go.move_to_point {
            if let Some(ti) = transforms.index_of(&id) {
                let t = *transforms.at(ti).inner();
                proof {
                    lemma_position_of_unique(transforms@, id, ti as int);
                }
                let desired = go.move_to_point_pos;
                if desired.0 >= GRID_DIMENSIONS.0 || desired.1 >= GRID_DIMENSIONS.1 {
                } else {
                    move_entity(transforms, &id, grid, desired, t.cell);
                }
            }
            go.move_to_point = false;
            go.move_to_point_pos = (0, 0);
        }
        if go.register {
            if let Some(ti) = transforms.index_of(&id) {
                let t = *transforms.at(ti).inner();
                proof {
                    lemma_position_of_unique(transforms@, id, ti as int);
                }
                let cell = if t.on_grid {
                    Some(t.cell)
                } else {
                    None
                };
                register_entity(grid, id, cell);
            }
            go.register = false;
        }
        grid_objects.set_inner_at(i, go);
        proof {
            assert(grid_objects@ =~= w.2.update(
                i as int,
                Component { entity_id: id, is_active: w.2[i as int].is_active, inner: go },
            ));
        }
        i = i + 1;
    }
    let ghost w1: GridWorld = (grid_cells(*grid), transforms@, grid_objects@);
    proof {
        lemma_serve_keeps_objects(w0, n as nat);
        lemma_move_players_prefix(players@, players@.len(), 0, w1, v0);
    }
    let m = players.len();
    let mut k: usize = 0;
    while k < m
        invariant
            m == players@.len(),
            0 <= k <= m,
            transforms.wf(),
            velocities.wf(),
            grid_objects.wf(),
            grid_objects@ == w1.2,
            grid_dimensions(*grid) == game_dims(),
            spec_move_players(players@, m as nat, w1, v0) is Some,
            spec_move_players(players@, k as nat, w1, v0) == Some(
                ((grid_cells(*grid), transforms@, grid_objects@), velocities@),
            ),
        decreases m - k,
    {
        proof {
            lemma_move_players_prefix(players@, m as nat, (k + 1) as nat, w1, v0);
        }
        let ghost w = (grid_cells(*grid), transforms@, grid_objects@);
        let ghost vels = velocities@;
        let e = players.at(k).entity_id;
        let movement = match velocities.index_of(&e) {
            Some(vi) => {
                proof {
                    lemma_position_of_unique(velocities@, e, vi as int);
                    lemma_update_is_replace(
                        velocities@,
                        vi as int,
                        Velocity { intended_direction: None },
                    );
                }
                let d = velocities.at(vi).inner.intended_direction;
                velocities.set_inner_at(vi, Velocity { intended_direction: None });
                d
            },
            None => None,
        };
        let current = match transforms.index_of(&e) {
            Some(ti) => {
                proof {
                    lemma_position_of_unique(transforms@, e, ti as int);
                }
                Some(transforms.at(ti).inner.cell)
            },
            None => None,
        };
        if let Some(movement) = movement {
            if let Some(current_position) = current {
                if let Some(valid_next_position) = move_position(current_position, movement) {
                    step_entity(
                        &e,
                        GridType::Player,
                        current_position,
                        valid_next_position,
                        movement,
                        grid_objects,
                        transforms,
                        grid,
                    );
                }
            }
        }
        k = k + 1;
    }
}

/// The cells after registering, in order, the first `k` transforms that do
/// not belong to a singleton marker: each one standing on the grid is put
/// on its cell. `None` when one would index outside the grid.
pub open spec fn spec_register_transforms(
    cells: Map<(int, int), Option<Entity>>,
    transforms: Seq<Component<GridTransform>>,
    marker_entities: Seq<Entity>,
    k: nat,
) -> Option<Map<(int, int), Option<Entity>>>
    decreases k,
{
    if k == 0 {
        Some(cells)
    } else {
        match spec_register_transforms(cells, transforms, marker_entities, (k - 1) as nat) {
            Some(c) => {
                let t = transforms[k - 1];
                if marker_entities.contains(t.entity_id) || !t.inner.on_grid {
                    Some(c)
                } else if cell_in(game_dims(), (t.inner.cell.0 as int, t.inner.cell.1 as int)) {
                    Some(c.insert((t.inner.cell.0 as int, t.inner.cell.1 as int), Some(t.entity_id)))
                } else {
                    None
                }
            },
            None => None,
        }
    }
}

/// Registering a prefix of the transforms succeeds when registering all
/// does.
pub proof fn lemma_register_prefix(
    cells: Map<(int, int), Option<Entity>>,
    transforms: Seq<Component<GridTransform>>,
    marker_entities: Seq<Entity>,
    k: nat,
    j: nat,
)
    requires
        j <= k,
        spec_register_transforms(cells, transforms, marker_entities, k) is Some,
    ensures
        spec_register_transforms(cells, transforms, marker_entities, j) is Some,
    decreases k - j,
{
    if j < k {
        lemma_register_prefix(cells, transforms, marker_entities, (k - 1) as nat, j);
    }
}

/// Whether every transform that is to be registered (on the grid, and not
/// of a singleton marker) stands on a cell of the grid.
pub open spec fn registrable(transforms: Seq<Component<GridTransform>>, marker_entities: Seq<Entity>) -> bool {
    forall|i: int|
        0 <= i < transforms.len() && (#[trigger] transforms[i]).inner.on_grid && !marker_entities.contains(
            transforms[i].entity_id,
        ) ==> cell_in(game_dims(), (transforms[i].inner.cell.0 as int, transforms[i].inner.cell.1 as int))
}

/// Registering transforms that all stand on the grid succeeds.
pub proof fn lemma_register_transforms_succeeds(
    cells: Map<(int, int), Option<Entity>>,
    transforms: Seq<Component<GridTransform>>,
    marker_entities: Seq<Entity>,
    k: nat,
)
    requires
        registrable(transforms, marker_entities),
        k <= transforms.len(),
    ensures
        spec_register_transforms(cells, transforms, marker_entities, k) is Some,
    decreases k,
{
    if k > 0 {
        lemma_register_transforms_succeeds(cells, transforms, marker_entities, (k - 1) as nat);
    }
}

/// At scene start, every entity with a transform, except the entities of
/// the singleton markers, is put on the grid cell it stands on (entities
/// off the grid are skipped).
pub fn initialize_transforms(
    transforms: &ComponentList<GridTransform>,
    grid: &mut Grid,
    marker_entities: &Vec<Entity>,
)
    requires
        grid_dimensions(*old(grid)) == game_dims(),
        registrable(transforms@, marker_entities@),
    ensures
        grid_dimensions(*final(grid)) == game_dims(),
        Some(grid_cells(*final(grid))) == spec_register_transforms(
            grid_cells(*old(grid)),
            transforms@,
            marker_entities@,
            transforms@.len(),
        ),
{
    proof {
        lemma_register_transforms_succeeds(grid_cells(*grid), transforms@, marker_entities@, transforms@.len());
    }
    let ghost cells0 = grid_cells(*grid);
    let n = transforms.len();
    let mut k: usize = 0;
    while k < n
        invariant
            n == transforms@.len(),
            0 <= k <= n,
            grid_dimensions(*grid) == game_dims(),
            spec_register_transforms(cells0, transforms@, marker_entities@, n as nat) is Some,
            spec_register_transforms(cells0, transforms@, marker_entities@, k as nat) == Some(
                grid_cells(*grid),
            ),
        decreases n - k,
    {
        proof {
            lemma_register_prefix(cells0, transforms@, marker_entities@, n as nat, (k + 1) as nat);
        }
        let transform_c = transforms.at(k);
        let id = transform_c.entity_id;
        let m = marker_entities.len();
        let mut is_marker = false;
        let mut j: usize = 0;
        while j < m
            invariant
                m == marker_entities@.len(),
                0 <= j <= m,
                is_marker == exists|x: int| 0 <= x < j && marker_entities@[x] == id,
            decreases m - j,
        {
            if marker_entities[j] == id {
                is_marker = true;
            }
            j = j + 1;
        }
        if is_marker == false {
            let t = transform_c.inner;
            let cell = if t.on_grid {
                Some(t.cell)
            } else {
                None
            };
            register_entity(grid, id, cell);
        }
        k = k + 1;
    }
}

/// A step into a cell held by a flag or a non-interactable entity always
/// succeeds, whatever the stepping entity is (a pushed one included): the
/// entity moves there, its old cell is emptied, and its transform stands on
/// the new cell.
pub proof fn lemma_step_onto_passable_succeeds(
    grid_objects: Seq<Component<GridObject>>,
    entity: Entity,
    current_position: (usize, usize),
    next_position: (usize, usize),
    movement: CardinalPrime,
    s: GridState,
    occupant: Entity,
)
    requires
        cell_in(game_dims(), (current_position.0 as int, current_position.1 as int)),
        cell_in(game_dims(), (next_position.0 as int, next_position.1 as int)),
        has_entity(s.1, entity),
        s.0[(next_position.0 as int, next_position.1 as int)] == Some(occupant),
        lookup(grid_objects, occupant) matches Some(g) && (g.grid_type == GridType::Flag || g.grid_type
            == GridType::NonInteractable),
    ensures
        spec_attempt_to_move(grid_objects, entity, current_position, next_position, movement, s) == Some(
            (
                true,
                (
                    s.0.insert((next_position.0 as int, next_position.1 as int), Some(entity)).insert(
                        (current_position.0 as int, current_position.1 as int),
                        None,
                    ),
                    replace_inner(s.1, entity, GridTransform { cell: next_position, on_grid: true }),
                ),
            ),
        ),
{
}

/// A step into an empty cell of the grid always succeeds and moves the
/// entity there.
pub proof fn lemma_step_onto_empty_succeeds(
    grid_objects: Seq<Component<GridObject>>,
    entity: Entity,
    current_position: (usize, usize),
    next_position: (usize, usize),
    movement: CardinalPrime,
    s: GridState,
)
    requires
        cell_in(game_dims(), (current_position.0 as int, current_position.1 as int)),
        cell_in(game_dims(), (next_position.0 as int, next_position.1 as int)),
        has_entity(s.1, entity),
        s.0[(next_position.0 as int, next_position.1 as int)] is None,
    ensures
        spec_attempt_to_move(grid_objects, entity, current_position, next_position, movement, s) == Some(
            (
                true,
                (
                    s.0.insert((next_position.0 as int, next_position.1 as int), Some(entity)).insert(
                        (current_position.0 as int, current_position.1 as int),
                        None,
                    ),
                    replace_inner(s.1, entity, GridTransform { cell: next_position, on_grid: true }),
                ),
            ),
        ),
{
}

/// A step into a cell held by a blocker or another player is refused and
/// changes nothing.
pub proof fn lemma_step_into_blocker_refused(
    grid_objects: Seq<Component<GridObject>>,
    entity: Entity,
    current_position: (usize, usize),
    next_position: (usize, usize),
    movement: CardinalPrime,
    s: GridState,
    occupant: Entity,
)
    requires
        cell_in(game_dims(), (next_position.0 as int, next_position.1 as int)),
        s.0[(next_position.0 as int, next_position.1 as int)] == Some(occupant),
        lookup(grid_objects, occupant) matches Some(g) && (g.grid_type == GridType::Blockable || g.grid_type
            == GridType::Player),
    ensures
        spec_attempt_to_move(grid_objects, entity, current_position, next_position, movement, s) == Some(
            (false, s),
        ),
{
}

/// A step into a cell held by a pushable entity pushes it one cell further
/// first: when the pushable can move into an empty cell beyond, both move,
/// the pushable onto that cell and the entity onto the pushable's old one.
#[verifier::rlimit(50)]
pub proof fn lemma_push_into_empty_cell(
    grid_objects: Seq<Component<GridObject>>,
    entity: Entity,
    current_position: (usize, usize),
    next_position: (usize, usize),
    movement: CardinalPrime,
    s: GridState,
    pushed: Entity,
    beyond: (usize, usize),
)
    requires
        cell_in(game_dims(), (current_position.0 as int, current_position.1 as int)),
        cell_in(game_dims(), (next_position.0 as int, next_position.1 as int)),
        has_entity(s.1, entity),
        has_entity(s.1, pushed),
        s.0[(next_position.0 as int, next_position.1 as int)] == Some(pushed),
        lookup(grid_objects, pushed) matches Some(g) && g.grid_type == GridType::Pushable,
        spec_move_position(next_position, movement) == Some(beyond),
        s.0[(beyond.0 as int, beyond.1 as int)] is None,
    ensures
        ({
            let pushed_state = (
                s.0.insert((beyond.0 as int, beyond.1 as int), Some(pushed)).insert(
                    (next_position.0 as int, next_position.1 as int),
                    None,
                ),
                replace_inner(s.1, pushed, GridTransform { cell: beyond, on_grid: true }),
            );
            spec_attempt_to_move(grid_objects, entity, current_position, next_position, movement, s) == Some(
                (
                    true,
                    (
                        pushed_state.0.insert((next_position.0 as int, next_position.1 as int), Some(entity)).insert(
                            (current_position.0 as int, current_position.1 as int),
                            None,
                        ),
                        replace_inner(
                            pushed_state.1,
                            entity,
                            GridTransform { cell: next_position, on_grid: true },
                        ),
                    ),
                ),
            )
        }),
{
    lemma_move_position_stays_on_grid(next_position, movement);
    lemma_step_onto_empty_succeeds(grid_objects, pushed, next_position, beyond, movement, s);
    let pushed_state = spec_move_entity(s, pushed, beyond, next_position);
    assert(spec_attempt_to_move(grid_objects, pushed, next_position, beyond, movement, s) == Some(
        (true, pushed_state),
    ));
    crate::ecs::lemma_replace_inner_keeps_entities(s.1, pushed, GridTransform { cell: beyond, on_grid: true });
    assert(has_entity(pushed_state.1, entity));
    assert(spec_attempt_to_move(grid_objects, entity, current_position, next_position, movement, s) == Some(
        (true, spec_move_entity(pushed_state, entity, next_position, current_position)),
    ));
}

/// A pushable at the edge of the grid, with no cell beyond it in the
/// direction of the push, is overrun: the entity stepping into its cell
/// moves there anyway.
pub proof fn lemma_pushable_at_edge_is_overrun(
    grid_objects: Seq<Component<GridObject>>,
    entity: Entity,
    current_position: (usize, usize),
    next_position: (usize, usize),
    movement: CardinalPrime,
    s: GridState,
    pushed: Entity,
)
    requires
        cell_in(game_dims(), (current_position.0 as int, current_position.1 as int)),
        cell_in(game_dims(), (next_position.0 as int, next_position.1 as int)),
        has_entity(s.1, entity),
        s.0[(next_position.0 as int, next_position.1 as int)] == Some(pushed),
        lookup(grid_objects, pushed) matches Some(g) && g.grid_type == GridType::Pushable,
        spec_move_position(next_position, movement) is None,
    ensures
        spec_attempt_to_move(grid_objects, entity, current_position, next_position, movement, s) == Some(
            (
                true,
                (
                    s.0.insert((next_position.0 as int, next_position.1 as int), Some(entity)).insert(
                        (current_position.0 as int, current_position.1 as int),
                        None,
                    ),
                    replace_inner(s.1, entity, GridTransform { cell: next_position, on_grid: true }),
                ),
            ),
        ),
{
}

/// A push that the pushed entity cannot make, because a blocker or a player
/// stands in the cell beyond it, is refused: neither entity moves.
pub proof fn lemma_push_into_blocker_refused(
    grid_objects: Seq<Component<GridObject>>,
    entity: Entity,
    current_position: (usize, usize),
    next_position: (usize, usize),
    movement: CardinalPrime,
    s: GridState,
    pushed: Entity,
    beyond: (usize, usize),
    blocker: Entity,
)
    requires
        cell_in(game_dims(), (next_position.0 as int, next_position.1 as int)),
        s.0[(next_position.0 as int, next_position.1 as int)] == Some(pushed),
        lookup(grid_objects, pushed) matches Some(g) && g.grid_type == GridType::Pushable,
        spec_move_position(next_position, movement) == Some(beyond),
        s.0[(beyond.0 as int, beyond.1 as int)] == Some(blocker),
        lookup(grid_objects, blocker) matches Some(b) && (b.grid_type == GridType::Blockable || b.grid_type
            == GridType::Player),
    ensures
        spec_attempt_to_move(grid_objects, entity, current_position, next_position, movement, s) == Some(
            (false, s),
        ),
{
    lemma_move_position_stays_on_grid(next_position, movement);
    lemma_step_into_blocker_refused(grid_objects, pushed, next_position, beyond, movement, s, blocker);
}

/// A refused step, into a cell whose occupant cannot be moved out, changes
/// nothing of the grid or the transforms.
pub proof fn lemma_refused_step_changes_nothing(
    grid_objects: Seq<Component<GridObject>>,
    entity: Entity,
    current_position: (usize, usize),
    next_position: (usize, usize),
    movement: CardinalPrime,
    s: GridState,
)
    requires
        spec_attempt_to_move(grid_objects, entity, current_position, next_position, movement, s) matches Some(
            (moved, _),
        ) && !moved,
    ensures
        spec_attempt_to_move(grid_objects, entity, current_position, next_position, movement, s) == Some(
            (false, s),
        ),
    decreases room_ahead(next_position, movement),
{
    let key = (next_position.0 as int, next_position.1 as int);
    if let Some(occupant) = s.0[key] {
        if let Some(object) = lookup(grid_objects, occupant) {
            if object.grid_type == GridType::Pushable {
                if let Some(next_next) = spec_move_position(next_position, movement) {
                    let inner = spec_attempt_to_move(grid_objects, occupant, next_position, next_next, movement, s);
                    if inner matches Some((m, _)) && !m {
                        lemma_refused_step_changes_nothing(
                            grid_objects,
                            occupant,
                            next_position,
                            next_next,
                            movement,
                            s,
                        );
                    }
                }
            }
        }
    }
}

/// Serving a teleport request: a grid object that asks to be moved to a
/// cell of the grid, whose entity has a transform standing on the grid,
/// is put on that cell; its old cell is emptied, its transform stands on
/// the new cell, and the request is cleared.
pub proof fn lemma_teleport_is_served(w: GridWorld, i: int)
    requires
        0 <= i < w.2.len(),
        w.2[i].inner.move_to_point,
        !w.2[i].inner.register,
        w.2[i].inner.move_to_point_pos.0 < GRID_DIMENSIONS.0,
        w.2[i].inner.move_to_point_pos.1 < GRID_DIMENSIONS.1,
        lookup(w.1, w.2[i].entity_id) matches Some(t) && cell_in(
            game_dims(),
            (t.cell.0 as int, t.cell.1 as int),
        ),
    ensures
        ({
            let id = w.2[i].entity_id;
            let d = w.2[i].inner.move_to_point_pos;
            let t = lookup(w.1, id).unwrap();
            let r = spec_serve_grid_object(w, i);
            &&& r is Some
            &&& r.unwrap().0 == w.0.insert((d.0 as int, d.1 as int), Some(id)).insert(
                (t.cell.0 as int, t.cell.1 as int),
                None,
            )
            &&& r.unwrap().1 == replace_inner(w.1, id, GridTransform { cell: d, on_grid: true })
            &&& !r.unwrap().2[i].inner.move_to_point
            &&& r.unwrap().2[i].entity_id == id
            &&& r.unwrap().2[i].inner.grid_type == w.2[i].inner.grid_type
        }),
{
}

/// Serving a register request: a grid object whose entity stands on the
/// grid (by its transform) is put on its cell, and the request is cleared.
pub proof fn lemma_register_is_served(w: GridWorld, i: int)
    requires
        0 <= i < w.2.len(),
        !w.2[i].inner.move_to_point,
        w.2[i].inner.register,
        lookup(w.1, w.2[i].entity_id) matches Some(t) && t.on_grid && cell_in(
            game_dims(),
            (t.cell.0 as int, t.cell.1 as int),
        ),
    ensures
        ({
            let id = w.2[i].entity_id;
            let t = lookup(w.1, id).unwrap();
            let r = spec_serve_grid_object(w, i);
            &&& r is Some
            &&& r.unwrap().0 == w.0.insert((t.cell.0 as int, t.cell.1 as int), Some(id))
            &&& r.unwrap().1 == w.1
            &&& !r.unwrap().2[i].inner.register
            &&& r.unwrap().2[i].entity_id == id
        }),
{
}

/// A player acts on its intended direction once: afterwards its velocity
/// holds no direction, and a player without a direction changes nothing of
/// the world.
pub proof fn lemma_player_direction_consumed(
    players: Seq<Component<Player>>,
    k: int,
    w: GridWorld,
    velocities: Seq<Component<Velocity>>,
)
    requires
        0 <= k < players.len(),
        spec_move_player(players, k, w, velocities) is Some,
    ensures
        ({
            let e = players[k].entity_id;
            let r = spec_move_player(players, k, w, velocities).unwrap();
            &&& has_entity(velocities, e) ==> lookup(r.1, e) == Some(Velocity { intended_direction: None })
            &&& (match lookup(velocities, e) {
                Some(v) => v.intended_direction is None,
                None => true,
            }) ==> r.0 == w
            &&& r.0.2 == w.2
        }),
{
    let e = players[k].entity_id;
    if has_entity(velocities, e) {
        crate::ecs::lemma_replace_inner_lookup(velocities, e, Velocity { intended_direction: None });
    }
}

} // verus!
