//! The movement integrator for the ball and the paddle motion limiter.
use crate::entity::{
    find_single, registry_wf, single, Entity, Field, Role, GUTTER_HEIGHT, PADDLE_HEIGHT,
    PADDLE_SPEED,
};
use crate::geometry::{abs, Vector2, LIMIT};
use vstd::prelude::*;

verus! {

/// `a + b` stays within `LIMIT` in each component.
pub open spec fn sum_in_limit(a: Vector2, b: Vector2) -> bool {
    -LIMIT <= a.x + b.x <= LIMIT && -LIMIT <= a.y + b.y <= LIMIT
}

pub open spec fn plus(a: Vector2, b: Vector2) -> Vector2 {
    Vector2 { x: (a.x + b.x) as i64, y: (a.y + b.y) as i64 }
}

/// The ball, if there is exactly one, can take its next step within range.
pub open spec fn ball_can_move(s: Seq<Entity>) -> bool {
    match single(s, Role::Ball) {
        Some(b) => sum_in_limit(s[b].position, s[b].velocity),
        None => true,
    }
}

/// The registry after the ball has moved by its velocity; without exactly
/// one ball nothing moves.
pub open spec fn ball_moved(s: Seq<Entity>) -> Seq<Entity> {
    match single(s, Role::Ball) {
        Some(b) => s.update(
            b,
            Entity { position: plus(s[b].position, s[b].velocity), ..s[b] },
        ),
        None => s,
    }
}

/// Advances the ball by its velocity.
pub fn move_ball(entities: &mut Vec<Entity>)
    requires
        registry_wf(old(entities)@),
        ball_can_move(old(entities)@),
    ensures
        final(entities)@ == ball_moved(old(entities)@),
        registry_wf(final(entities)@),
{
    let ghost s = entities@;
    if let Some(b) = find_single(entities, Role::Ball) {
        let ball = entities[b];
        assert(ball.wf() && sum_in_limit(ball.position, ball.velocity));
        let position = Vector2::new(
            ball.position.x + ball.velocity.x,
            ball.position.y + ball.velocity.y,
        );
        entities.set(b, Entity { position, ..ball });
        assert forall|j: int| 0 <= j < entities@.len() implies #[trigger] entities@[j].wf() by {
            if j != b {
                assert(entities@[j] == s[j]);
            }
        }
    }
}

/// Where a paddle would stand after one step at paddle speed.
pub open spec fn candidate(e: Entity) -> Vector2 {
    Vector2 {
        x: (e.position.x + e.velocity.x * PADDLE_SPEED) as i64,
        y: (e.position.y + e.velocity.y * PADDLE_SPEED) as i64,
    }
}

/// `|y| < height / 2 - GUTTER_HEIGHT - PADDLE_HEIGHT / 2`, both sides doubled
/// so that an odd height is compared exactly.
pub open spec fn within_reach(y: int, height: int) -> bool {
    2 * abs(y) < height - 2 * GUTTER_HEIGHT - PADDLE_HEIGHT
}

/// A paddle takes its step if the step ends within reach, and otherwise
/// stays where it is; any other entity stays.
pub open spec fn paddle_stepped(e: Entity, height: int) -> Entity {
    if e.role.is_paddle() && within_reach(candidate(e).y as int, height) {
        Entity { position: candidate(e), ..e }
    } else {
        e
    }
}

/// The registry after the motion limiter; without a field nothing moves.
pub open spec fn paddles_moved(s: Seq<Entity>, field: Option<Field>) -> Seq<Entity> {
    match field {
        Some(f) => Seq::new(s.len(), |i: int| paddle_stepped(s[i], f.height as int)),
        None => s,
    }
}

/// Moves every paddle by its velocity times the paddle speed, unless the
/// move would end out of reach of the field's gutters; such a move is
/// dropped whole.
pub fn move_paddles(entities: &mut Vec<Entity>, field: Option<Field>)
    requires
        registry_wf(old(entities)@),
        field matches Some(f) ==> f.wf(),
    ensures
        final(entities)@ == paddles_moved(old(entities)@, field),
        registry_wf(final(entities)@),
{
    let f = match field {
        Some(f) => f,
        None => return ,
    };
    let ghost s = entities@;
    let double_reach: i64 = f.height - 2 * GUTTER_HEIGHT - PADDLE_HEIGHT;
    let mut i: usize = 0;
    while i < entities.len()
        invariant
            entities@.len() == s.len(),
            registry_wf(s),
            registry_wf(entities@),
            f.wf(),
            double_reach == f.height - 2 * GUTTER_HEIGHT - PADDLE_HEIGHT,
            0 <= i <= s.len(),
            forall|j: int| 0 <= j < i ==> entities@[j] == paddle_stepped(s[j], f.height as int),
            forall|j: int| i <= j < s.len() ==> entities@[j] == s[j],
        decreases s.len() - i,
    {
        let e = entities[i];
        assert(e.wf());
        if e.role.paddle() {
            let next = Vector2::new(
                e.position.x + e.velocity.x * PADDLE_SPEED,
                e.position.y + e.velocity.y * PADDLE_SPEED,
            );
            let ay: i64 = if next.y < 0 { -next.y } else { next.y };
            if 2 * ay < double_reach {
                let ghost before = entities@;
                entities.set(i, Entity { position: next, ..e });
                assert forall|j: int| 0 <= j < entities@.len() implies #[trigger] entities@[j].wf() by {
                    if j != i {
                        assert(entities@[j] == before[j]);
                    }
                }
            }
        }
        i = i + 1;
    }
    assert(entities@ =~= paddles_moved(s, field));
}

} // verus!
