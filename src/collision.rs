//! Collision resolution: the ball against every other entity, in registry
//! order, each contact flipping one component of the ball's velocity.
use crate::entity::{find_single, registry_wf, single, Entity, Role};
use crate::geometry::{collide_with_side, collision_side, reflected, Vector2};
use vstd::prelude::*;

verus! {

/// The ball's velocity after it has been tested against the first `n`
/// entities of `s`; the ball itself stands where it stood in `ball`.
pub open spec fn bounced(ball: Entity, s: Seq<Entity>, n: nat) -> Vector2
    decreases n,
{
    if n == 0 {
        ball.velocity
    } else {
        let v = bounced(ball, s, (n - 1) as nat);
        let other = s[n - 1];
        if other.role is Ball {
            v
        } else {
            match collision_side(ball.circle(), other.aabb()) {
                Some(side) => reflected(v, side),
                None => v,
            }
        }
    }
}

/// The registry after collision resolution; without exactly one ball
/// nothing changes.
pub open spec fn collided(s: Seq<Entity>) -> Seq<Entity> {
    match single(s, Role::Ball) {
        Some(b) => s.update(b, Entity { velocity: bounced(s[b], s, s.len()), ..s[b] }),
        None => s,
    }
}

/// Tests the ball against every other entity and reflects its velocity off
/// each side that it touches. Positions are left as they are.
pub fn handle_collisions(entities: &mut Vec<Entity>)
    requires
        registry_wf(old(entities)@),
    ensures
        final(entities)@ == collided(old(entities)@),
        registry_wf(final(entities)@),
{
    let ghost s = entities@;
    if let Some(b) = find_single(entities, Role::Ball) {
        let ball = entities[b];
        assert(ball.wf());
        let circle = ball.bounding_circle();
        let mut velocity = ball.velocity;
        let mut i: usize = 0;
        while i < entities.len()
            invariant
                entities@ == s,
                registry_wf(s),
                ball == s[b as int],
                circle == ball.circle(),
                circle.wf(),
                0 <= i <= s.len(),
                velocity == bounced(ball, s, i as nat),
                velocity.in_limit(),
            decreases s.len() - i,
        {
            let other = entities[i];
            assert(other.wf());
            if other.role != Role::Ball {
                if let Some(side) = collide_with_side(circle, other.bounding_box()) {
                    velocity = velocity.reflect(side);
                }
            }
            i = i + 1;
        }
        entities.set(b, Entity { velocity, ..ball });
        assert forall|j: int| 0 <= j < entities@.len() implies #[trigger] entities@[j].wf() by {
            if j != b {
                assert(entities@[j] == s[j]);
            }
        }
    }
}

} // verus!
