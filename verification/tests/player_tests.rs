use clockwork::cardinals::{CardinalPrime, FacingHorizontal};
use clockwork::ecs::{ComponentList, Entity};
use clockwork::player_system::{
    initialize_players, player_update, set_player_active, Player, SpriteRunningData, Velocity,
};

fn e(i: u32) -> Entity {
    Entity::new(i, 0)
}

fn setup(n: u32) -> (ComponentList<Player>, ComponentList<SpriteRunningData>, ComponentList<Velocity>) {
    let mut players = ComponentList::new();
    let mut sprites = ComponentList::new();
    let mut velocities = ComponentList::new();
    for i in 0..n {
        players.set(&e(i), Player { active: i == n - 1 });
        sprites.set(&e(i), SpriteRunningData { is_animating: true, current_frame: 3 });
        velocities.set(&e(i), Velocity { intended_direction: None });
    }
    (players, sprites, velocities)
}

fn actives(players: &ComponentList<Player>) -> Vec<bool> {
    (0..players.len()).map(|i| players.at(i).inner().active).collect()
}

#[test]
fn initialize_players_activates_only_the_first() {
    let (mut players, mut sprites, _) = setup(3);
    initialize_players(&mut players, &mut sprites);
    assert_eq!(actives(&players), vec![true, false, false]);
    assert_eq!(
        *sprites.get(&e(0)).unwrap().inner(),
        SpriteRunningData { is_animating: true, current_frame: 0 }
    );
    for i in 1..3 {
        assert_eq!(
            *sprites.get(&e(i)).unwrap().inner(),
            SpriteRunningData { is_animating: false, current_frame: 0 }
        );
    }
}

#[test]
fn initialize_players_with_no_players() {
    let mut players: ComponentList<Player> = ComponentList::new();
    let mut sprites = ComponentList::new();
    sprites.set(&e(5), SpriteRunningData { is_animating: true, current_frame: 2 });
    initialize_players(&mut players, &mut sprites);
    assert_eq!(players.len(), 0);
    assert_eq!(
        *sprites.get(&e(5)).unwrap().inner(),
        SpriteRunningData { is_animating: true, current_frame: 2 }
    );
}

#[test]
fn set_player_active_without_sprite() {
    let mut players = ComponentList::new();
    players.set(&e(1), Player { active: false });
    let mut sprites: ComponentList<SpriteRunningData> = ComponentList::new();
    assert!(!set_player_active(true, &mut players, 0, &mut sprites));
    assert!(players.at(0).inner().active);
}

#[test]
fn controlled_player_receives_movement() {
    let (mut players, mut sprites, mut velocities) = setup(3);
    player_update(&mut players, &mut sprites, &mut velocities, Some(CardinalPrime::Up), None);
    assert_eq!(velocities.get(&e(2)).unwrap().inner().intended_direction, Some(CardinalPrime::Up));
    assert_eq!(velocities.get(&e(0)).unwrap().inner().intended_direction, None);
    assert_eq!(actives(&players), vec![false, false, true]);
}

#[test]
fn switch_right_wraps_around() {
    let (mut players, mut sprites, mut velocities) = setup(3);
    player_update(
        &mut players,
        &mut sprites,
        &mut velocities,
        None,
        Some(FacingHorizontal::Right),
    );
    assert_eq!(actives(&players), vec![true, false, false]);
    assert_eq!(
        *sprites.get(&e(2)).unwrap().inner(),
        SpriteRunningData { is_animating: false, current_frame: 0 }
    );
    assert_eq!(
        *sprites.get(&e(0)).unwrap().inner(),
        SpriteRunningData { is_animating: true, current_frame: 3 }
    );
}

#[test]
fn switch_left_then_right_returns_control() {
    let (mut players, mut sprites, mut velocities) = setup(3);
    player_update(&mut players, &mut sprites, &mut velocities, None, Some(FacingHorizontal::Left));
    assert_eq!(actives(&players), vec![false, true, false]);
    player_update(&mut players, &mut sprites, &mut velocities, None, Some(FacingHorizontal::Right));
    assert_eq!(actives(&players), vec![false, false, true]);
}

#[test]
fn single_player_switch_deactivates_it() {
    let (mut players, mut sprites, mut velocities) = setup(1);
    player_update(&mut players, &mut sprites, &mut velocities, None, Some(FacingHorizontal::Left));
    assert_eq!(actives(&players), vec![false]);
}

#[test]
fn no_controlled_player_activates_the_first() {
    let (mut players, mut sprites, mut velocities) = setup(2);
    players.set(&e(1), Player { active: false });
    player_update(
        &mut players,
        &mut sprites,
        &mut velocities,
        Some(CardinalPrime::Left),
        Some(FacingHorizontal::Right),
    );
    assert_eq!(actives(&players), vec![true, false]);
    assert_eq!(velocities.get(&e(0)).unwrap().inner().intended_direction, None);
}

#[test]
fn active_player_without_velocity_is_not_controlled() {
    let mut players = ComponentList::new();
    let mut sprites = ComponentList::new();
    let mut velocities = ComponentList::new();
    players.set(&e(0), Player { active: true });
    players.set(&e(1), Player { active: true });
    velocities.set(&e(1), Velocity { intended_direction: None });
    player_update(
        &mut players,
        &mut sprites,
        &mut velocities,
        Some(CardinalPrime::Down),
        Some(FacingHorizontal::Right),
    );
    assert_eq!(velocities.get(&e(1)).unwrap().inner().intended_direction, Some(CardinalPrime::Down));
    assert_eq!(actives(&players), vec![true, false]);
}
