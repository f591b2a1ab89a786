//! Laws of the simulation that relate several steps or hold for every input,
//! stated over the same models that the steps' contracts use.
use crate::collision::{bounced, collided};
use crate::game::{settled, steered, tick_events, ticked};
use crate::control::{ai_applied, input_applied};
use crate::entity::{
    is_single, lemma_same_roles, lemma_single, single, Entity, Field, Role, GUTTER_HEIGHT,
    PADDLE_HEIGHT,
};
use crate::geometry::{collision_side, reflected, Collision, Vector2, LIMIT};
use crate::movement::{ball_moved, candidate, paddles_moved};
use crate::scoring::{ball_reset, count_for, detected, Scored, Scorer};
use vstd::prelude::*;

verus! {

/// The registry after the ball has moved `n` times.
pub open spec fn ball_moved_times(s: Seq<Entity>, n: nat) -> Seq<Entity>
    decreases n,
{
    if n == 0 {
        s
    } else {
        ball_moved(ball_moved_times(s, (n - 1) as nat))
    }
}

/// Integration: `n` moves take the ball from `p` to exactly `p + n * v`,
/// keep its velocity `v`, and leave every other entity as it was.
pub proof fn lemma_integration(s: Seq<Entity>, b: int, n: nat)
    requires
        single(s, Role::Ball) == Some(b),
        s[b].position.in_limit(),
        -LIMIT <= s[b].position.x + n * s[b].velocity.x <= LIMIT,
        -LIMIT <= s[b].position.y + n * s[b].velocity.y <= LIMIT,
    ensures
        single(ball_moved_times(s, n), Role::Ball) == Some(b),
        ball_moved_times(s, n).len() == s.len(),
        ball_moved_times(s, n)[b].position.x == s[b].position.x + n * s[b].velocity.x,
        ball_moved_times(s, n)[b].position.y == s[b].position.y + n * s[b].velocity.y,
        ball_moved_times(s, n)[b].velocity == s[b].velocity,
        forall|j: int|
            0 <= j < s.len() && j != b ==> #[trigger] ball_moved_times(s, n)[j] == s[j],
    decreases n,
{
    if n > 0 {
        let m = (n - 1) as nat;
        let (px, py) = (s[b].position.x as int, s[b].position.y as int);
        let (vx, vy) = (s[b].velocity.x as int, s[b].velocity.y as int);
        assert(m * vx == n * vx - vx && m * vy == n * vy - vy) by (nonlinear_arith)
            requires
                m == n - 1,
        ;
        assert(-LIMIT <= px + m * vx <= LIMIT) by (nonlinear_arith)
            requires
                -LIMIT <= px <= LIMIT,
                -LIMIT <= px + n * vx <= LIMIT,
                m == n - 1,
                n >= 1,
        ;
        assert(-LIMIT <= py + m * vy <= LIMIT) by (nonlinear_arith)
            requires
                -LIMIT <= py <= LIMIT,
                -LIMIT <= py + n * vy <= LIMIT,
                m == n - 1,
                n >= 1,
        ;
        lemma_integration(s, b, m);
        let t = ball_moved_times(s, m);
        let u = ball_moved(t);
        assert(u == ball_moved_times(s, n));
        assert(t[b].position.x + t[b].velocity.x == px + n * vx);
        assert(t[b].position.y + t[b].velocity.y == py + n * vy);
        assert(u[b].position.x == px + n * vx);
        assert forall|i: int| 0 <= i < t.len() implies #[trigger] t[i].role == u[i].role by {}
        lemma_same_roles(t, u, Role::Ball);
    } else {
        let (vx, vy) = (s[b].velocity.x as int, s[b].velocity.y as int);
        assert(n * vx == 0 && n * vy == 0) by (nonlinear_arith)
            requires
                n == 0,
        ;
    }
}

/// Nothing that registry `m` holds touches its entity `b`.
pub open spec fn untouched(m: Seq<Entity>, b: int) -> bool {
    forall|j: int|
        0 <= j < m.len() && m[j].role != Role::Ball ==> #[trigger] collision_side(
            m[b].circle(),
            m[j].aabb(),
        ) is None
}

/// In the tick from `s`, nothing touches the ball and nobody scores.
pub open spec fn quiet(s: Seq<Entity>, field: Option<Field>, up: bool, down: bool) -> bool {
    match single(s, Role::Ball) {
        Some(b) => untouched(paddles_moved(ball_moved(steered(s, up, down)), field), b)
            && tick_events(s, field, up, down).len() == 0,
        None => false,
    }
}

/// The registry after `n` ticks with the same input.
pub open spec fn ticked_times(
    s: Seq<Entity>,
    field: Option<Field>,
    up: bool,
    down: bool,
    n: nat,
) -> Seq<Entity>
    decreases n,
{
    if n == 0 {
        s
    } else {
        ticked(ticked_times(s, field, up, down, (n - 1) as nat), field, up, down)
    }
}

proof fn lemma_untouched_bounce(ball: Entity, m: Seq<Entity>, b: int, n: nat)
    requires
        0 <= b < m.len(),
        ball == m[b],
        untouched(m, b),
        n <= m.len(),
    ensures
        bounced(ball, m, n) == ball.velocity,
    decreases n,
{
    if n > 0 {
        lemma_untouched_bounce(ball, m, b, (n - 1) as nat);
        let j = n - 1;
        if m[j].role != Role::Ball {
            assert(collision_side(m[b].circle(), m[j].aabb()) is None);
        }
    }
}

/// One quiet tick moves the ball by exactly its velocity and keeps the
/// velocity.
pub proof fn lemma_quiet_tick(s: Seq<Entity>, field: Option<Field>, up: bool, down: bool, b: int)
    requires
        single(s, Role::Ball) == Some(b),
        quiet(s, field, up, down),
        -LIMIT <= s[b].position.x + s[b].velocity.x <= LIMIT,
        -LIMIT <= s[b].position.y + s[b].velocity.y <= LIMIT,
    ensures
        single(ticked(s, field, up, down), Role::Ball) == Some(b),
        ticked(s, field, up, down).len() == s.len(),
        ticked(s, field, up, down)[b].position.x == s[b].position.x + s[b].velocity.x,
        ticked(s, field, up, down)[b].position.y == s[b].position.y + s[b].velocity.y,
        ticked(s, field, up, down)[b].velocity == s[b].velocity,
{
    let s1 = input_applied(s, up, down);
    assert forall|i: int| 0 <= i < s.len() implies #[trigger] s[i].role == s1[i].role by {}
    lemma_same_roles(s, s1, Role::Ball);
    lemma_same_roles(s, s1, Role::Ai);
    let s2 = ai_applied(s1);
    assert forall|i: int| 0 <= i < s1.len() implies #[trigger] s1[i].role == s2[i].role by {}
    lemma_same_roles(s1, s2, Role::Ball);
    assert(s2 == steered(s, up, down));
    assert(s2[b] == s[b]);
    let s3 = ball_moved(s2);
    assert forall|i: int| 0 <= i < s2.len() implies #[trigger] s2[i].role == s3[i].role by {}
    lemma_same_roles(s2, s3, Role::Ball);
    let s4 = paddles_moved(s3, field);
    assert forall|i: int| 0 <= i < s3.len() implies #[trigger] s3[i].role == s4[i].role by {}
    lemma_same_roles(s3, s4, Role::Ball);
    assert(s4[b] == s3[b]);
    lemma_untouched_bounce(s4[b], s4, b, s4.len());
    let s5 = collided(s4);
    assert(s5 == settled(s, field, up, down));
    assert(s5[b] == s4[b]);
    assert forall|i: int| 0 <= i < s4.len() implies #[trigger] s4[i].role == s5[i].role by {}
    lemma_same_roles(s4, s5, Role::Ball);
    assert(ticked(s, field, up, down) == s5);
}

/// Integration over whole ticks: `n` quiet ticks take the ball from `p` to
/// exactly `p + n * v` and keep its velocity `v`.
pub proof fn lemma_quiet_ticks(
    s: Seq<Entity>,
    field: Option<Field>,
    up: bool,
    down: bool,
    b: int,
    n: nat,
)
    requires
        single(s, Role::Ball) == Some(b),
        s[b].position.in_limit(),
        -LIMIT <= s[b].position.x + n * s[b].velocity.x <= LIMIT,
        -LIMIT <= s[b].position.y + n * s[b].velocity.y <= LIMIT,
        forall|k: nat| k < n ==> quiet(#[trigger] ticked_times(s, field, up, down, k), field, up, down),
    ensures
        single(ticked_times(s, field, up, down, n), Role::Ball) == Some(b),
        ticked_times(s, field, up, down, n)[b].position.x == s[b].position.x + n * s[b].velocity.x,
        ticked_times(s, field, up, down, n)[b].position.y == s[b].position.y + n * s[b].velocity.y,
        ticked_times(s, field, up, down, n)[b].velocity == s[b].velocity,
    decreases n,
{
    let (px, py) = (s[b].position.x as int, s[b].position.y as int);
    let (vx, vy) = (s[b].velocity.x as int, s[b].velocity.y as int);
    if n > 0 {
        let m = (n - 1) as nat;
        assert(m * vx == n * vx - vx && m * vy == n * vy - vy) by (nonlinear_arith)
            requires
                m == n - 1,
        ;
        assert(-LIMIT <= px + m * vx <= LIMIT) by (nonlinear_arith)
            requires
                -LIMIT <= px <= LIMIT,
                -LIMIT <= px + n * vx <= LIMIT,
                m == n - 1,
                n >= 1,
        ;
        assert(-LIMIT <= py + m * vy <= LIMIT) by (nonlinear_arith)
            requires
                -LIMIT <= py <= LIMIT,
                -LIMIT <= py + n * vy <= LIMIT,
                m == n - 1,
                n >= 1,
        ;
        lemma_quiet_ticks(s, field, up, down, b, m);
        let t = ticked_times(s, field, up, down, m);
        assert(quiet(t, field, up, down));
        lemma_quiet_tick(t, field, up, down, b);
    } else {
        assert(n * vx == 0 && n * vy == 0) by (nonlinear_arith)
            requires
                n == 0,
        ;
    }
}

/// Collision signs: a ball that touches a box on its left or right side
/// leaves with `(-vx, vy)`, on its top or bottom side with `(vx, -vy)`; the
/// speed is kept, and neither the box nor the ball's position changes.
pub proof fn lemma_collision_sign(ball: Entity, wall: Entity, side: Collision)
    requires
        ball.role == Role::Ball,
        wall.role != Role::Ball,
        ball.velocity.in_limit(),
        collision_side(ball.circle(), wall.aabb()) == Some(side),
    ensures
        ({
            let after = collided(seq![ball, wall]);
            let (vx, vy) = (ball.velocity.x, ball.velocity.y);
            &&& after[0].velocity == reflected(ball.velocity, side)
            &&& (side is Left || side is Right) ==> after[0].velocity.x == -vx
                && after[0].velocity.y == vy
            &&& (side is Top || side is Bottom) ==> after[0].velocity.x == vx
                && after[0].velocity.y == -vy
            &&& after[0].velocity.x * after[0].velocity.x + after[0].velocity.y
                * after[0].velocity.y == vx * vx + vy * vy
            &&& after[0].position == ball.position
            &&& after[1] == wall
        }),
{
    let s = seq![ball, wall];
    assert(is_single(s, Role::Ball, 0));
    lemma_single(s, Role::Ball, 0);
    reveal_with_fuel(crate::collision::bounced, 3);
    let (vx, vy) = (ball.velocity.x as int, ball.velocity.y as int);
    assert((-vx) * (-vx) == vx * vx && (-vy) * (-vy) == vy * vy) by (nonlinear_arith);
}

/// Scoring boundary: a ball past the right edge (`x > width / 2`) makes
/// exactly one "AI scores" event, which credits the AI alone and relaunches
/// the ball from the center with `(-1, 1)`; past the left edge
/// (`x < -width / 2`) one "player scores" event, which credits the player
/// alone and relaunches it with `(1, 1)`; between the edges, the edges
/// included, no event.
pub proof fn lemma_scoring_boundary(s: Seq<Entity>, f: Field, b: int)
    requires
        f.wf(),
        single(s, Role::Ball) == Some(b),
    ensures
        ({
            let x = s[b].position.x;
            let events = detected(s, Some(f));
            let after = ball_reset(s, events);
            &&& 2 * x > f.width ==> {
                &&& events == seq![Scored(Scorer::Ai)]
                &&& count_for(events, Scorer::Ai) == 1
                &&& count_for(events, Scorer::Player) == 0
                &&& after[b].position == (Vector2 { x: 0, y: 0 })
                &&& after[b].velocity == (Vector2 { x: -1i64, y: 1 })
            }
            &&& 2 * x < -f.width ==> {
                &&& events == seq![Scored(Scorer::Player)]
                &&& count_for(events, Scorer::Player) == 1
                &&& count_for(events, Scorer::Ai) == 0
                &&& after[b].position == (Vector2 { x: 0, y: 0 })
                &&& after[b].velocity == (Vector2 { x: 1, y: 1 })
            }
            &&& -f.width <= 2 * x <= f.width ==> events.len() == 0 && after == s
        }),
{
    let events = detected(s, Some(f));
    if events.len() == 1 {
        assert(events.drop_last() =~= Seq::<Scored>::empty());
        assert(count_for(events.drop_last(), Scorer::Ai) == 0);
        assert(count_for(events.drop_last(), Scorer::Player) == 0);
    }
}

/// Input mapping: "up" alone gives the player paddle vertical velocity 1,
/// "down" alone -1, neither 0, and both 1, since "up" comes first.
pub proof fn lemma_input_mapping(s: Seq<Entity>, p: int, up: bool, down: bool)
    requires
        single(s, Role::Player) == Some(p),
    ensures
        up && !down ==> input_applied(s, up, down)[p].velocity.y == 1,
        !up && down ==> input_applied(s, up, down)[p].velocity.y == -1,
        !up && !down ==> input_applied(s, up, down)[p].velocity.y == 0,
        up && down ==> input_applied(s, up, down)[p].velocity.y == 1,
{
}

/// AI tracking: the AI paddle's vertical velocity becomes 1 with the ball
/// above it, -1 with the ball below it, and 0 with the ball level with it.
pub proof fn lemma_ai_tracking(s: Seq<Entity>, a: int, b: int)
    requires
        single(s, Role::Ai) == Some(a),
        single(s, Role::Ball) == Some(b),
    ensures
        s[b].position.y > s[a].position.y ==> ai_applied(s)[a].velocity.y == 1,
        s[b].position.y < s[a].position.y ==> ai_applied(s)[a].velocity.y == -1,
        s[b].position.y == s[a].position.y ==> ai_applied(s)[a].velocity.y == 0,
{
}

/// Boundary rejection: a paddle whose next position would lie at or beyond
/// `height / 2 - GUTTER_HEIGHT - PADDLE_HEIGHT / 2` from the center does not
/// move at all; one whose next position lies within that bound takes it.
pub proof fn lemma_boundary_rejection(s: Seq<Entity>, f: Field, i: int)
    requires
        0 <= i < s.len(),
        s[i].role.is_paddle(),
    ensures
        ({
            let next = candidate(s[i]).y as int;
            let max_y2 = f.height - 2 * GUTTER_HEIGHT - PADDLE_HEIGHT;
            &&& (2 * next >= max_y2 || 2 * next <= -max_y2) ==> paddles_moved(s, Some(f))[i]
                == s[i]
            &&& -max_y2 < 2 * next < max_y2 ==> paddles_moved(s, Some(f))[i].position
                == candidate(s[i])
        }),
{
}

} // verus!
