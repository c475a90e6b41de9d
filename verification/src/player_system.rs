//! The controllable players: exactly one of them is meant to be active, it
//! receives the movement input, and the switch input hands control to the
//! next or previous player, wrapping around the list.
use vstd::prelude::*;

use crate::cardinals::{CardinalPrime, FacingHorizontal};
use crate::ecs::{
    has_entity, lemma_position_of_unique, lookup, replace_inner, Component,
    ComponentList, Entity,
};

verus! {

/// A player component: whether this player is the one being controlled.
#[derive(Debug, Clone, Copy, PartialEq, Eq, Structural)]
pub struct Player {
    pub active: bool,
}

/// The animation state of a sprite that the player system drives.
#[derive(Debug, Clone, Copy, PartialEq, Eq, Structural)]
pub struct SpriteRunningData {
    pub is_animating: bool,
    pub current_frame: usize,
}

/// A velocity component: the direction the entity wants to move next.
#[derive(Debug, Clone, Copy, PartialEq, Eq, Structural)]
pub struct Velocity {
    pub intended_direction: Option<CardinalPrime>,
}

/// The animation state of a player's sprite once the player is made
/// active or inactive: it animates exactly while active, and a deactivated
/// sprite goes back to its first frame.
pub open spec fn sprite_for_status(s: SpriteRunningData, active_status: bool) -> SpriteRunningData {
    SpriteRunningData {
        is_animating: active_status,
        current_frame: if active_status {
            s.current_frame
        } else {
            0
        },
    }
}

/// `players` with the player at position `i` given the active flag `active_status`.
pub open spec fn with_player_status(
    players: Seq<Component<Player>>,
    i: int,
    active_status: bool,
) -> Seq<Component<Player>> {
    players.update(
        i,
        Component {
            entity_id: players[i].entity_id,
            is_active: players[i].is_active,
            inner: Player { active: active_status },
        },
    )
}

/// `sprites` after the sprite of `e`, if there is one, follows the status.
pub open spec fn with_sprite_status(
    sprites: Seq<Component<SpriteRunningData>>,
    e: Entity,
    active_status: bool,
) -> Seq<Component<SpriteRunningData>> {
    match lookup(sprites, e) {
        Some(s) => replace_inner(sprites, e, sprite_for_status(s, active_status)),
        None => sprites,
    }
}

/// Sets the active flag of the player at position `i` and makes its sprite
/// (if it has one) follow: animating while active, rewound when inactive.
/// Returns whether the player had a sprite.
pub fn set_player_active(
    active_status: bool,
    players: &mut ComponentList<Player>,
    i: usize,
    sprites: &mut ComponentList<SpriteRunningData>,
) -> (had_sprite: bool)
    requires
        old(players).wf(),
        old(sprites).wf(),
        i < old(players)@.len(),
    ensures
        final(players).wf(),
        final(sprites).wf(),
        final(players)@ == with_player_status(old(players)@, i as int, active_status),
        final(sprites)@ == with_sprite_status(old(sprites)@, old(players)@[i as int].entity_id, active_status),
        had_sprite == has_entity(old(sprites)@, old(players)@[i as int].entity_id),
{
    let entity = players.at(i).entity_id;
    players.set_inner_at(i, Player { active: active_status });
    match sprites.index_of(&entity) {
        Some(j) => {
            let old_sprite = *sprites.at(j).inner();
            let ghost before = sprites@;
            let new_sprite = SpriteRunningData {
                is_animating: active_status,
                current_frame: if active_status {
                    old_sprite.current_frame
                } else {
                    0
                },
            };
            sprites.set_inner_at(j, new_sprite);
            proof {
                lemma_position_of_unique(before, entity, j as int);
                let expected = replace_inner(before, entity, new_sprite);
                assert forall|k: int| 0 <= k < before.len() implies sprites@[k] == expected[k] by {
                    if k != j {
                        assert(before[k].entity_id != entity);
                    }
                }
                assert(sprites@ =~= expected);
            }
            true
        },
        None => false,
    }
}

/// Whether `e` belongs to one of the players before position `k`.
pub open spec fn among_first_players(players: Seq<Component<Player>>, k: int, e: Entity) -> bool {
    exists|p: int| 0 <= p < k && #[trigger] players[p].entity_id == e
}

/// The sprites after every player was deactivated and then the first player
/// activated: the sprite of a player animates only if it is the first
/// player's, and is rewound.
pub open spec fn initialized_sprites(
    players: Seq<Component<Player>>,
    sprites: Seq<Component<SpriteRunningData>>,
) -> Seq<Component<SpriteRunningData>> {
    Seq::new(
        sprites.len(),
        |j: int|
            if has_entity(players, sprites[j].entity_id) {
                Component {
                    entity_id: sprites[j].entity_id,
                    is_active: sprites[j].is_active,
                    inner: SpriteRunningData {
                        is_animating: sprites[j].entity_id == players[0].entity_id,
                        current_frame: 0,
                    },
                }
            } else {
                sprites[j]
            },
    )
}

/// Deactivates every player, then activates the first one: afterwards the
/// first player is the only active player, and only its sprite animates.
pub fn initialize_players(
    players: &mut ComponentList<Player>,
    sprites: &mut ComponentList<SpriteRunningData>,
)
    requires
        old(players).wf(),
        old(sprites).wf(),
    ensures
        final(players).wf(),
        final(sprites).wf(),
        final(players)@.len() == old(players)@.len(),
        forall|k: int|
            0 <= k < old(players)@.len() ==> (#[trigger] final(players)@[k]).entity_id == old(
                players,
            )@[k].entity_id && final(players)@[k].is_active == old(players)@[k].is_active
                && final(players)@[k].inner.active == (k == 0),
        old(players)@.len() > 0 ==> final(sprites)@ == initialized_sprites(old(players)@, old(sprites)@),
        old(players)@.len() == 0 ==> final(sprites)@ == old(sprites)@,
{
    let ghost players0 = players@;
    let ghost sprites0 = sprites@;
    let n = players.len();
    let mut k: usize = 0;
    while k < n
        invariant
            n == players0.len(),
            players.wf(),
            sprites.wf(),
            0 <= k <= n,
            players@.len() == n,
            sprites@.len() == sprites0.len(),
            forall|p: int|
                0 <= p < n ==> (#[trigger] players@[p]).entity_id == players0[p].entity_id
                    && players@[p].is_active == players0[p].is_active && (p < k
                    ==> !players@[p].inner.active) && (p >= k ==> players@[p] == players0[p]),
            crate::ecs::unique_entities(players0),
            forall|j: int|
                0 <= j < sprites0.len() ==> (#[trigger] sprites@[j]).entity_id
                    == sprites0[j].entity_id && sprites@[j].is_active == sprites0[j].is_active
                    && (if among_first_players(players0, k as int, sprites0[j].entity_id) {
                    sprites@[j].inner == SpriteRunningData {
                        is_animating: false,
                        current_frame: 0,
                    }
                } else {
                    sprites@[j] == sprites0[j]
                }),
        decreases n - k,
    {
        let ghost before = sprites@;
        let ghost e = players@[k as int].entity_id;
        set_player_active(false, players, k, sprites);
        proof {
            assert forall|j: int| 0 <= j < sprites0.len() implies (#[trigger] sprites@[j]).entity_id
                == sprites0[j].entity_id && sprites@[j].is_active == sprites0[j].is_active && (
            if among_first_players(players0, k + 1, sprites0[j].entity_id) {
                sprites@[j].inner == SpriteRunningData { is_animating: false, current_frame: 0 }
            } else {
                sprites@[j] == sprites0[j]
            }) by {
                if sprites0[j].entity_id == e {
                    lemma_position_of_unique(before, e, j);
                    assert(players0[k as int].entity_id == e);
                    assert(among_first_players(players0, k + 1, sprites0[j].entity_id));
                } else {
                    if among_first_players(players0, k + 1, sprites0[j].entity_id) {
                        let p = choose|p: int|
                            0 <= p < k + 1 && #[trigger] players0[p].entity_id
                                == sprites0[j].entity_id;
                        assert(p != k);
                        assert(among_first_players(players0, k as int, sprites0[j].entity_id));
                    } else {
                        assert(!among_first_players(players0, k as int, sprites0[j].entity_id)) by {
                            if among_first_players(players0, k as int, sprites0[j].entity_id) {
                                let p = choose|p: int|
                                    0 <= p < k && #[trigger] players0[p].entity_id
                                        == sprites0[j].entity_id;
                                assert(0 <= p < k + 1);
                            }
                        }
                    }
                }
            }
        }
        k = k + 1;
    }
    if n > 0 {
        let ghost mid = sprites@;
        let ghost e0 = players@[0].entity_id;
        set_player_active(true, players, 0, sprites);
        proof {
            let expected = initialized_sprites(players0, sprites0);
            assert forall|j: int| 0 <= j < sprites0.len() implies sprites@[j] == expected[j] by {
                let e = sprites0[j].entity_id;
                if has_entity(players0, e) {
                    let p = choose|p: int| 0 <= p < players0.len() && #[trigger] players0[p].entity_id == e;
                    assert(among_first_players(players0, n as int, e));
                } else {
                    assert(!among_first_players(players0, n as int, e)) by {
                        if among_first_players(players0, n as int, e) {
                            let p = choose|p: int| 0 <= p < n && #[trigger] players0[p].entity_id == e;
                            assert(has_entity(players0, e));
                        }
                    }
                }
                if e == e0 {
                    lemma_position_of_unique(mid, e0, j);
                }
            }
            assert(sprites@ =~= expected);
        }
    } else {
        proof {
            assert(sprites@ =~= sprites0);
        }
    }
}

/// Whether the player at position `i` is active and can be moved.
pub open spec fn controlled(
    players: Seq<Component<Player>>,
    velocities: Seq<Component<Velocity>>,
    i: int,
) -> bool {
    0 <= i < players.len() && players[i].inner.active && has_entity(velocities, players[i].entity_id)
}

/// The position of the first active player that has a velocity.
pub open spec fn first_controlled(
    players: Seq<Component<Player>>,
    velocities: Seq<Component<Velocity>>,
) -> Option<int> {
    if exists|i: int| controlled(players, velocities, i) {
        Some(
            choose|i: int|
                controlled(players, velocities, i) && forall|j: int|
                    0 <= j < i ==> !controlled(players, velocities, j),
        )
    } else {
        None
    }
}

/// The player that the switch input hands control to from position
/// `active`, among `n` players: one further right or left, wrapping around.
pub open spec fn switch_target(active: int, n: int, direction: FacingHorizontal) -> int {
    match direction {
        FacingHorizontal::Right => if active + 1 == n {
            0
        } else {
            active + 1
        },
        FacingHorizontal::Left => if active == 0 {
            n - 1
        } else {
            active - 1
        },
    }
}

/// Players, sprites and velocities after one update.
pub open spec fn spec_player_update(
    players: Seq<Component<Player>>,
    sprites: Seq<Component<SpriteRunningData>>,
    velocities: Seq<Component<Velocity>>,
    move_direction: Option<CardinalPrime>,
    switch_active_player: Option<FacingHorizontal>,
) -> (Seq<Component<Player>>, Seq<Component<SpriteRunningData>>, Seq<Component<Velocity>>) {
    match first_controlled(players, velocities) {
        Some(a) => {
            let e = players[a].entity_id;
            let new_velocities = replace_inner(
                velocities,
                e,
                Velocity { intended_direction: move_direction },
            );
            match switch_active_player {
                Some(direction) => {
                    let t = switch_target(a, players.len() as int, direction);
                    let p1 = with_player_status(players, t, true);
                    let s1 = with_sprite_status(sprites, players[t].entity_id, true);
                    (
                        with_player_status(p1, a, false),
                        with_sprite_status(s1, e, false),
                        new_velocities,
                    )
                },
                None => (players, sprites, new_velocities),
            }
        },
        None => if players.len() > 0 {
            (with_player_status(players, 0, true), sprites, velocities)
        } else {
            (players, sprites, velocities)
        },
    }
}

/// One update of the players. The first active player that has a velocity
/// is the controlled one: its velocity takes `move_direction`. When
/// `switch_active_player` holds a direction, control moves to the next
/// player to that side (wrapping around), and the formerly controlled
/// player is deactivated. When no player is controlled, the first player is
/// made active.
pub fn player_update(
    players: &mut ComponentList<Player>,
    sprites: &mut ComponentList<SpriteRunningData>,
    velocities: &mut ComponentList<Velocity>,
    move_direction: Option<CardinalPrime>,
    switch_active_player: Option<FacingHorizontal>,
)
    requires
        old(players).wf(),
        old(sprites).wf(),
        old(velocities).wf(),
    ensures
        final(players).wf(),
        final(sprites).wf(),
        final(velocities).wf(),
        (final(players)@, final(sprites)@, final(velocities)@) == spec_player_update(
            old(players)@,
            old(sprites)@,
            old(velocities)@,
            move_direction,
            switch_active_player,
        ),
{
    let ghost players0 = players@;
    let ghost velocities0 = velocities@;
    let n = players.len();
    let mut active_player: Option<usize> = None;
    let mut i: usize = 0;
    while i < n
        invariant
            n == players0.len(),
            players@ == players0,
            players.wf(),
            velocities.wf(),
            crate::ecs::unique_entities(velocities0),
            0 <= i <= n,
            velocities@.len() == velocities0.len(),
            forall|j: int|
                0 <= j < velocities0.len() ==> (#[trigger] velocities@[j]).entity_id
                    == velocities0[j].entity_id,
            match active_player {
                None => {
                    &&& velocities@ == velocities0
                    &&& forall|j: int| 0 <= j < i ==> !controlled(players0, velocities0, j)
                },
                Some(a) => {
                    &&& a < i
                    &&& controlled(players0, velocities0, a as int)
                    &&& forall|j: int| 0 <= j < a ==> !controlled(players0, velocities0, j)
                    &&& velocities@ == replace_inner(
                        velocities0,
                        players0[a as int].entity_id,
                        Velocity { intended_direction: move_direction },
                    )
                },
            },
        decreases n - i,
    {
        let id = players.at(i).entity_id;
        proof {
            crate::ecs::lemma_same_entities(velocities@, velocities0, id);
        }
        if let Some(vi) = velocities.index_of(&id) {
            if players.at(i).inner.active {
                if active_player.is_none() {
                    let ghost before = velocities@;
                    velocities.set_inner_at(vi, Velocity { intended_direction: move_direction });
                    proof {
                        lemma_position_of_unique(velocities0, id, vi as int);
                        let expected = replace_inner(
                            velocities0,
                            id,
                            Velocity { intended_direction: move_direction },
                        );
                        assert forall|k: int| 0 <= k < velocities0.len() implies velocities@[k]
                            == expected[k] by {
                            if k != vi {
                                assert(velocities0[k].entity_id != id);
                            }
                        }
                        assert(velocities@ =~= expected);
                    }
                    active_player = Some(i);
                }
            }
        }
        i = i + 1;
    }
    proof {
        match active_player {
            Some(a) => {
                assert(exists|k: int| controlled(players0, velocities0, k));
                let c = choose|k: int|
                    controlled(players0, velocities0, k) && forall|j: int|
                        0 <= j < k ==> !controlled(players0, velocities0, j);
                assert(controlled(players0, velocities0, a as int) && forall|j: int|
                    0 <= j < a ==> !controlled(players0, velocities0, j));
                if c < a {
                } else if c > a {
                }
                assert(first_controlled(players0, velocities0) == Some(a as int));
            },
            None => {
                assert(first_controlled(players0, velocities0) is None);
            },
        }
    }
    match active_player {
        Some(old_active_player) => {
            if let Some(increment_active_player) = switch_active_player {
                let new_active_player = match increment_active_player {
                    FacingHorizontal::Right => if old_active_player + 1 == n {
                        0
                    } else {
                        old_active_player + 1
                    },
                    FacingHorizontal::Left => if old_active_player == 0 {
                        n - 1
                    } else {
                        old_active_player - 1
                    },
                };
                set_player_active(true, players, new_active_player, sprites);
                set_player_active(false, players, old_active_player, sprites);
            }
        },
        None => {
            if n > 0 {
                players.set_inner_at(0, Player { active: true });
            }
        },
    }
}

/// The switch target is always a player, and switching one way and then
/// the other hands control back to where it started.
pub proof fn lemma_switch_round_trip(active: int, n: int)
    requires
        0 <= active < n,
    ensures
        0 <= switch_target(active, n, FacingHorizontal::Right) < n,
        0 <= switch_target(active, n, FacingHorizontal::Left) < n,
        switch_target(switch_target(active, n, FacingHorizontal::Right), n, FacingHorizontal::Left)
            == active,
        switch_target(switch_target(active, n, FacingHorizontal::Left), n, FacingHorizontal::Right)
            == active,
{
}

/// With two or more players of which exactly one is active, and that one
/// has a velocity, a switch input leaves exactly one player active: the
/// neighbour in the switch direction, wrapping around.
pub proof fn lemma_switch_hands_over_control(
    players: Seq<Component<Player>>,
    sprites: Seq<Component<SpriteRunningData>>,
    velocities: Seq<Component<Velocity>>,
    move_direction: Option<CardinalPrime>,
    direction: FacingHorizontal,
    active: int,
)
    requires
        players.len() >= 2,
        0 <= active < players.len(),
        forall|i: int| 0 <= i < players.len() ==> (#[trigger] players[i]).inner.active == (i == active),
        has_entity(velocities, players[active].entity_id),
    ensures
        ({
            let after = spec_player_update(
                players,
                sprites,
                velocities,
                move_direction,
                Some(direction),
            ).0;
            let t = switch_target(active, players.len() as int, direction);
            &&& after.len() == players.len()
            &&& forall|i: int| 0 <= i < after.len() ==> (#[trigger] after[i]).inner.active == (i == t)
        }),
{
    assert(controlled(players, velocities, active));
    assert(forall|j: int| 0 <= j < active ==> !controlled(players, velocities, j));
    let c = choose|k: int|
        controlled(players, velocities, k) && forall|j: int|
            0 <= j < k ==> !controlled(players, velocities, j);
    assert(c == active) by {
        if c < active {
        } else if c > active {
        }
    }
    lemma_switch_round_trip(active, players.len() as int);
    let t = switch_target(active, players.len() as int, direction);
    assert(t != active);
}

} // verus!
