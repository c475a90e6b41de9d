use clockwork::cardinals::CardinalPrime;
use clockwork::ecs::{ComponentList, Entity};
use clockwork::grid_system::{
    attempt_to_move, initialize_transforms, move_position, new_grid, register_entity, update_grid_positions, GridObject,
    GridTransform, GridType, GRID_DIMENSIONS,
};
use clockwork::player_system::{Player, Velocity};

fn e(i: u32) -> Entity {
    Entity::new(i, 0)
}

#[test]
fn move_position_inside_and_at_edges() {
    assert_eq!(move_position((0, 0), CardinalPrime::Right), Some((1, 0)));
    assert_eq!(move_position((0, 0), CardinalPrime::Up), Some((0, 1)));
    assert_eq!(move_position((0, 0), CardinalPrime::Left), None);
    assert_eq!(move_position((0, 0), CardinalPrime::Down), None);
    assert_eq!(move_position((4, 9), CardinalPrime::Right), None);
    assert_eq!(move_position((4, 9), CardinalPrime::Up), None);
    assert_eq!(move_position((4, 9), CardinalPrime::Left), Some((3, 9)));
    assert_eq!(move_position((4, 9), CardinalPrime::Down), Some((4, 8)));
    assert_eq!(GRID_DIMENSIONS, (5, 10));
}

#[test]
fn move_position_round_trip() {
    for x in 0..5 {
        for y in 0..10 {
            for (d, back) in [
                (CardinalPrime::Right, CardinalPrime::Left),
                (CardinalPrime::Left, CardinalPrime::Right),
                (CardinalPrime::Up, CardinalPrime::Down),
                (CardinalPrime::Down, CardinalPrime::Up),
            ] {
                if let Some(q) = move_position((x, y), d) {
                    assert_eq!(move_position(q, back), Some((x, y)));
                }
            }
        }
    }
}

struct World {
    grid: array2d::Array2D<Option<Entity>>,
    types: ComponentList<GridObject>,
    transforms: ComponentList<GridTransform>,
}

fn world(objects: &[(u32, GridType, (usize, usize))]) -> World {
    let mut grid = new_grid();
    let mut types = ComponentList::new();
    let mut transforms = ComponentList::new();
    for &(id, t, pos) in objects {
        types.set(
            &e(id),
            GridObject { grid_type: t, move_to_point: false, move_to_point_pos: (0, 0), register: false },
        );
        transforms.set(&e(id), GridTransform { cell: pos, on_grid: true });
        assert!(register_entity(&mut grid, e(id), Some(pos)));
    }
    World { grid, types, transforms }
}

fn cell_of(w: &World, id: u32) -> (usize, usize) {
    w.transforms.get(&e(id)).unwrap().inner().cell
}

#[test]
fn move_into_empty_cell() {
    let mut w = world(&[(1, GridType::Player, (1, 1))]);
    let moved = attempt_to_move(
        &e(1),
        GridType::Player,
        (1, 1),
        (2, 1),
        CardinalPrime::Right,
        &w.types,
        &mut w.transforms,
        &mut w.grid,
    );
    assert!(moved);
    assert_eq!(w.grid[(2, 1)], Some(e(1)));
    assert_eq!(w.grid[(1, 1)], None);
    assert_eq!(cell_of(&w, 1), (2, 1));
}

#[test]
fn blocked_move_changes_nothing() {
    let mut w = world(&[(1, GridType::Player, (1, 1)), (2, GridType::Blockable, (2, 1))]);
    let moved = attempt_to_move(
        &e(1),
        GridType::Player,
        (1, 1),
        (2, 1),
        CardinalPrime::Right,
        &w.types,
        &mut w.transforms,
        &mut w.grid,
    );
    assert!(!moved);
    assert_eq!(w.grid[(1, 1)], Some(e(1)));
    assert_eq!(w.grid[(2, 1)], Some(e(2)));
    assert_eq!(cell_of(&w, 1), (1, 1));
    assert_eq!(cell_of(&w, 2), (2, 1));
}

#[test]
fn other_player_blocks() {
    let mut w = world(&[(1, GridType::Player, (0, 0)), (2, GridType::Player, (0, 1))]);
    let moved = attempt_to_move(
        &e(1),
        GridType::Player,
        (0, 0),
        (0, 1),
        CardinalPrime::Up,
        &w.types,
        &mut w.transforms,
        &mut w.grid,
    );
    assert!(!moved);
    assert_eq!(w.grid[(0, 0)], Some(e(1)));
}

#[test]
fn pushing_a_chain_of_pushables() {
    let mut w = world(&[
        (1, GridType::Player, (0, 3)),
        (2, GridType::Pushable, (1, 3)),
        (3, GridType::Pushable, (2, 3)),
    ]);
    let moved = attempt_to_move(
        &e(1),
        GridType::Player,
        (0, 3),
        (1, 3),
        CardinalPrime::Right,
        &w.types,
        &mut w.transforms,
        &mut w.grid,
    );
    assert!(moved);
    assert_eq!(w.grid[(0, 3)], None);
    assert_eq!(w.grid[(1, 3)], Some(e(1)));
    assert_eq!(w.grid[(2, 3)], Some(e(2)));
    assert_eq!(w.grid[(3, 3)], Some(e(3)));
    assert_eq!(cell_of(&w, 1), (1, 3));
    assert_eq!(cell_of(&w, 2), (2, 3));
    assert_eq!(cell_of(&w, 3), (3, 3));
}

#[test]
fn pushable_against_blocker_stops_everything() {
    let mut w = world(&[
        (1, GridType::Player, (0, 3)),
        (2, GridType::Pushable, (1, 3)),
        (3, GridType::Blockable, (2, 3)),
    ]);
    let moved = attempt_to_move(
        &e(1),
        GridType::Player,
        (0, 3),
        (1, 3),
        CardinalPrime::Right,
        &w.types,
        &mut w.transforms,
        &mut w.grid,
    );
    assert!(!moved);
    assert_eq!(w.grid[(0, 3)], Some(e(1)));
    assert_eq!(w.grid[(1, 3)], Some(e(2)));
    assert_eq!(w.grid[(2, 3)], Some(e(3)));
}

#[test]
fn pushable_at_edge_is_overrun() {
    let mut w = world(&[(1, GridType::Player, (3, 0)), (2, GridType::Pushable, (4, 0))]);
    let moved = attempt_to_move(
        &e(1),
        GridType::Player,
        (3, 0),
        (4, 0),
        CardinalPrime::Right,
        &w.types,
        &mut w.transforms,
        &mut w.grid,
    );
    assert!(moved);
    assert_eq!(w.grid[(4, 0)], Some(e(1)));
    assert_eq!(w.grid[(3, 0)], None);
    assert_eq!(cell_of(&w, 2), (4, 0));
}

#[test]
fn flag_and_non_interactable_let_through() {
    let mut w = world(&[
        (1, GridType::Player, (2, 2)),
        (2, GridType::Flag, (2, 3)),
        (3, GridType::NonInteractable, (2, 1)),
    ]);
    assert!(attempt_to_move(
        &e(1),
        GridType::Player,
        (2, 2),
        (2, 3),
        CardinalPrime::Up,
        &w.types,
        &mut w.transforms,
        &mut w.grid,
    ));
    assert_eq!(w.grid[(2, 3)], Some(e(1)));
    assert!(attempt_to_move(
        &e(1),
        GridType::Player,
        (2, 3),
        (2, 2),
        CardinalPrime::Down,
        &w.types,
        &mut w.transforms,
        &mut w.grid,
    ));
    assert!(attempt_to_move(
        &e(1),
        GridType::Player,
        (2, 2),
        (2, 1),
        CardinalPrime::Down,
        &w.types,
        &mut w.transforms,
        &mut w.grid,
    ));
    assert_eq!(w.grid[(2, 1)], Some(e(1)));
    assert_eq!(w.grid[(2, 2)], None);
}

#[test]
fn register_outside_grid_is_refused() {
    let mut grid = new_grid();
    assert!(!register_entity(&mut grid, e(7), None));
    for r in 0..5 {
        for c in 0..10 {
            assert_eq!(grid[(r, c)], None);
        }
    }
    assert!(register_entity(&mut grid, e(7), Some((4, 9))));
    assert_eq!(grid[(4, 9)], Some(e(7)));
}

#[test]
fn update_grid_positions_serves_requests_then_moves_players() {
    let mut w = world(&[(1, GridType::Player, (0, 0)), (2, GridType::Pushable, (3, 3))]);
    w.types.set(
        &e(2),
        GridObject { grid_type: GridType::Pushable, move_to_point: true, move_to_point_pos: (0, 1), register: false },
    );
    w.types.set(
        &e(3),
        GridObject { grid_type: GridType::Blockable, move_to_point: false, move_to_point_pos: (0, 0), register: true },
    );
    w.transforms.set(&e(3), GridTransform { cell: (0, 3), on_grid: true });
    let mut players = ComponentList::new();
    players.set(&e(1), Player { active: true });
    let mut velocities = ComponentList::new();
    velocities.set(&e(1), Velocity { intended_direction: Some(CardinalPrime::Up) });
    update_grid_positions(&players, &mut w.transforms, &mut velocities, &mut w.types, &mut w.grid);
    // The teleport put the pushable at (0, 1); the player then pushed it to (0, 2).
    assert_eq!(w.grid[(3, 3)], None);
    assert_eq!(w.grid[(0, 0)], None);
    assert_eq!(w.grid[(0, 1)], Some(e(1)));
    assert_eq!(w.grid[(0, 2)], Some(e(2)));
    assert_eq!(w.grid[(0, 3)], Some(e(3)));
    assert_eq!(cell_of(&w, 2), (0, 2));
    assert_eq!(velocities.get(&e(1)).unwrap().inner().intended_direction, None);
    let o2 = *w.types.get(&e(2)).unwrap().inner();
    assert!(!o2.move_to_point && o2.move_to_point_pos == (0, 0));
    assert!(!w.types.get(&e(3)).unwrap().inner().register);
}

#[test]
fn update_grid_positions_ignores_requests_off_grid() {
    let mut w = world(&[(1, GridType::Player, (2, 2))]);
    w.types.set(
        &e(1),
        GridObject { grid_type: GridType::Player, move_to_point: true, move_to_point_pos: (5, 0), register: false },
    );
    w.types.set(
        &e(4),
        GridObject { grid_type: GridType::Flag, move_to_point: false, move_to_point_pos: (0, 0), register: true },
    );
    w.transforms.set(&e(4), GridTransform { cell: (0, 0), on_grid: false });
    let players: ComponentList<Player> = ComponentList::new();
    let mut velocities = ComponentList::new();
    update_grid_positions(&players, &mut w.transforms, &mut velocities, &mut w.types, &mut w.grid);
    assert_eq!(w.grid[(2, 2)], Some(e(1)));
    assert_eq!(w.grid[(0, 0)], None);
    assert!(!w.types.get(&e(1)).unwrap().inner().move_to_point);
}

#[test]
fn initialize_transforms_skips_markers_and_off_grid() {
    let mut grid = new_grid();
    let mut transforms = ComponentList::new();
    transforms.set(&e(1), GridTransform { cell: (1, 1), on_grid: true });
    transforms.set(&e(2), GridTransform { cell: (2, 2), on_grid: true });
    transforms.set(&e(3), GridTransform { cell: (3, 3), on_grid: false });
    initialize_transforms(&transforms, &mut grid, &vec![e(2)]);
    assert_eq!(grid[(1, 1)], Some(e(1)));
    assert_eq!(grid[(2, 2)], None);
    assert_eq!(grid[(3, 3)], None);
}
