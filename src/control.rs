//! The two paddle controllers: the player's directional input and the AI's
//! tracking of the ball.
use crate::entity::{find_single, registry_wf, single, Entity, Role};
use crate::geometry::Vector2;
use vstd::prelude::*;

verus! {

/// Up wins over down; no input means no motion.
pub open spec fn input_velocity(up: bool, down: bool) -> i64 {
    if up {
        1
    } else if down {
        -1i64
    } else {
        0
    }
}

/// The sign of `d`: one, minus one, or zero when `d` is zero.
pub open spec fn sign(d: int) -> i64 {
    if d > 0 {
        1
    } else if d < 0 {
        -1i64
    } else {
        0
    }
}

pub open spec fn with_vertical_velocity(e: Entity, vy: i64) -> Entity {
    Entity { velocity: Vector2 { x: e.velocity.x, y: vy }, ..e }
}

/// The registry after the player's input has set the player paddle's
/// vertical velocity; without exactly one player paddle nothing changes.
pub open spec fn input_applied(s: Seq<Entity>, up: bool, down: bool) -> Seq<Entity> {
    match single(s, Role::Player) {
        Some(p) => s.update(p, with_vertical_velocity(s[p], input_velocity(up, down))),
        None => s,
    }
}

/// The registry after the AI has turned its paddle towards the ball; without
/// exactly one AI paddle and exactly one ball nothing changes.
pub open spec fn ai_applied(s: Seq<Entity>) -> Seq<Entity> {
    match (single(s, Role::Ai), single(s, Role::Ball)) {
        (Some(a), Some(b)) => s.update(
            a,
            with_vertical_velocity(s[a], sign(s[b].position.y - s[a].position.y)),
        ),
        _ => s,
    }
}

/// Sets the player paddle's vertical velocity from the state of the "up" and
/// "down" inputs.
pub fn handle_player_input(entities: &mut Vec<Entity>, up: bool, down: bool)
    requires
        registry_wf(old(entities)@),
    ensures
        final(entities)@ == input_applied(old(entities)@, up, down),
        registry_wf(final(entities)@),
{
    let ghost s = entities@;
    if let Some(p) = find_single(entities, Role::Player) {
        let paddle = entities[p];
        let vy: i64 = if up {
            1
        } else if down {
            -1
        } else {
            0
        };
        entities.set(p, Entity { velocity: Vector2::new(paddle.velocity.x, vy), ..paddle });
        assert forall|j: int| 0 <= j < entities@.len() implies #[trigger] entities@[j].wf() by {
            if j != p {
                assert(entities@[j] == s[j]);
            } else {
                assert(s[j].wf());
            }
        }
    }
}

/// Sets the AI paddle's vertical velocity to the sign of the ball's height
/// above it.
pub fn move_ai(entities: &mut Vec<Entity>)
    requires
        registry_wf(old(entities)@),
    ensures
        final(entities)@ == ai_applied(old(entities)@),
        registry_wf(final(entities)@),
{
    let ghost s = entities@;
    if let Some(a) = find_single(entities, Role::Ai) {
        if let Some(b) = find_single(entities, Role::Ball) {
            let paddle = entities[a];
            let ball_y = entities[b].position.y;
            assert(s[a as int].wf() && s[b as int].wf());
            let vy: i64 = if ball_y > paddle.position.y {
                1
            } else if ball_y < paddle.position.y {
                -1
            } else {
                0
            };
            entities.set(a, Entity { velocity: Vector2::new(paddle.velocity.x, vy), ..paddle });
            assert forall|j: int| 0 <= j < entities@.len() implies #[trigger] entities@[j].wf() by {
                if j != a {
                    assert(entities@[j] == s[j]);
                }
            }
        }
    }
}

} // verus!
