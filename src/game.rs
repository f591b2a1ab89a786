//! The whole game: the registry as it stands at startup, and one tick of the
//! simulation with its systems in their fixed order.
use crate::collision::{collided, handle_collisions};
use crate::control::{ai_applied, handle_player_input, input_applied, move_ai};
use crate::entity::{
    lemma_same_roles, registry_wf, single, Entity, Field, Role, BALL_SIZE, GUTTER_HEIGHT,
    PADDLE_HEIGHT, PADDLE_WIDTH,
};
use crate::geometry::Vector2;
use crate::movement::{ball_can_move, ball_moved, move_ball, move_paddles, paddles_moved};
use crate::scoring::{
    ball_reset, count_for, detect_scoring, detected, lemma_count_for_len, reset_ball,
    update_score, Score, Scored, Scorer,
};
use vstd::prelude::*;

verus! {

/// Distance of each paddle from its edge of the field.
pub const PADDING: i64 = 50;

pub open spec fn paddle_at(role: Role, x: int) -> Entity {
    Entity {
        role,
        position: Vector2 { x: x as i64, y: 0 },
        velocity: Vector2 { x: 0, y: 0 },
        shape: Vector2 { x: PADDLE_WIDTH, y: PADDLE_HEIGHT },
    }
}

pub open spec fn gutter_at(y: int) -> Entity {
    Entity {
        role: Role::Gutter,
        position: Vector2 { x: 0, y: y as i64 },
        velocity: Vector2 { x: 0, y: 0 },
        shape: Vector2 { x: 0, y: GUTTER_HEIGHT },
    }
}

/// The registry at startup: the ball at the center heading right, then, if
/// the field is known, the player paddle near the right edge, the AI paddle
/// near the left edge, and the top and bottom gutters along the two
/// horizontal edges. Half a field is measured in whole units, rounded down.
pub open spec fn spawned(field: Option<Field>) -> Seq<Entity> {
    let ball = Entity {
        role: Role::Ball,
        position: Vector2 { x: 0, y: 0 },
        velocity: Vector2 { x: 1, y: 0 },
        shape: Vector2 { x: BALL_SIZE, y: BALL_SIZE },
    };
    match field {
        None => seq![ball],
        Some(f) => seq![
            ball,
            paddle_at(Role::Player, f.width / 2 - PADDING),
            paddle_at(Role::Ai, -(f.width / 2) + PADDING),
            gutter_at(f.height / 2 - GUTTER_HEIGHT / 2),
            gutter_at(-(f.height / 2) + GUTTER_HEIGHT / 2),
        ],
    }
}

/// Creates the entities of a new game; without a field only the ball.
pub fn spawn(field: Option<Field>) -> (r: Vec<Entity>)
    requires
        field matches Some(f) ==> f.wf(),
    ensures
        r@ == spawned(field),
        registry_wf(r@),
{
    let mut entities: Vec<Entity> = Vec::new();
    entities.push(Entity::ball(1, 0));
    if let Some(f) = field {
        let half_width: i64 = f.width / 2;
        let half_height: i64 = f.height / 2;
        entities.push(Entity::paddle(Role::Player, half_width - PADDING, 0));
        entities.push(Entity::paddle(Role::Ai, -half_width + PADDING, 0));
        entities.push(Entity::gutter(0, half_height - GUTTER_HEIGHT / 2));
        entities.push(Entity::gutter(0, -half_height + GUTTER_HEIGHT / 2));
    }
    assert(entities@ =~= spawned(field));
    entities
}

/// The registry after the controllers have set the paddles' velocities.
pub open spec fn steered(s: Seq<Entity>, up: bool, down: bool) -> Seq<Entity> {
    ai_applied(input_applied(s, up, down))
}

/// The registry after movement, motion limiting and collision resolution,
/// as the scoring detector finds it.
pub open spec fn settled(s: Seq<Entity>, field: Option<Field>, up: bool, down: bool) -> Seq<
    Entity,
> {
    collided(paddles_moved(ball_moved(steered(s, up, down)), field))
}

/// The scoring events of one tick.
pub open spec fn tick_events(s: Seq<Entity>, field: Option<Field>, up: bool, down: bool) -> Seq<
    Scored,
> {
    detected(settled(s, field, up, down), field)
}

/// The registry after one tick.
pub open spec fn ticked(s: Seq<Entity>, field: Option<Field>, up: bool, down: bool) -> Seq<
    Entity,
> {
    ball_reset(settled(s, field, up, down), tick_events(s, field, up, down))
}

/// Runs one tick: the player's input and the AI steer the paddles, the ball
/// and the paddles move, the ball bounces off what it touches, and a ball
/// past either edge scores a point and is relaunched from the center. The
/// scoring events of the tick are returned.
pub fn tick(
    entities: &mut Vec<Entity>,
    score: &mut Score,
    field: Option<Field>,
    up: bool,
    down: bool,
) -> (events: Vec<Scored>)
    requires
        registry_wf(old(entities)@),
        ball_can_move(old(entities)@),
        field matches Some(f) ==> f.wf(),
        old(score).player < u32::MAX,
        old(score).ai < u32::MAX,
    ensures
        final(entities)@ == ticked(old(entities)@, field, up, down),
        events@ == tick_events(old(entities)@, field, up, down),
        final(score).player == old(score).player + count_for(events@, Scorer::Player),
        final(score).ai == old(score).ai + count_for(events@, Scorer::Ai),
        registry_wf(final(entities)@),
{
    let ghost s = entities@;
    handle_player_input(entities, up, down);
    move_ai(entities);
    proof {
        let t = entities@;
        assert forall|i: int| 0 <= i < s.len() implies #[trigger] s[i].role == t[i].role by {
            assert(input_applied(s, up, down)[i].role == s[i].role);
        }
        lemma_same_roles(s, t, Role::Ball);
        lemma_same_roles(s, input_applied(s, up, down), Role::Ball);
        if let Some(b) = single(s, Role::Ball) {
            assert(t[b] == s[b]);
        }
    }
    move_ball(entities);
    move_paddles(entities, field);
    handle_collisions(entities);
    let mut events: Vec<Scored> = Vec::new();
    detect_scoring(entities, field, &mut events);
    assert(events@ =~= tick_events(s, field, up, down));
    reset_ball(entities, &events);
    proof {
        lemma_count_for_len(events@, Scorer::Player);
        lemma_count_for_len(events@, Scorer::Ai);
    }
    update_score(score, &events);
    events
}

} // verus!
