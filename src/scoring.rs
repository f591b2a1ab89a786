//! Scoring: detection of the ball leaving the field, and the two reactions to
//! each scoring event of the same tick, the score update and the ball reset.
use crate::entity::{find_single, registry_wf, single, Entity, Field, Role};
use crate::geometry::Vector2;
use vstd::prelude::*;

verus! {

/// Who earned a point.
#[derive(Clone, Copy, Debug, PartialEq, Eq, Structural)]
pub enum Scorer {
    Player,
    Ai,
}

/// A scoring event.
#[derive(Clone, Copy, Debug, PartialEq, Eq, Structural)]
pub struct Scored(pub Scorer);

/// The points of each side.
#[derive(Clone, Copy, Debug, PartialEq, Eq, Structural)]
pub struct Score {
    pub player: u32,
    pub ai: u32,
}

impl Score {
    /// No points on either side.
    pub fn new() -> (r: Score)
        ensures
            r.player == 0,
            r.ai == 0,
    {
        Score { player: 0, ai: 0 }
    }
}

/// The event for a ball at horizontal position `x` on a field `width` wide:
/// past the right edge the AI scores, past the left edge the player does.
/// A ball exactly on an edge is still in play.
pub open spec fn scoring_event(x: int, width: int) -> Option<Scorer> {
    if 2 * x > width {
        Some(Scorer::Ai)
    } else if 2 * x < -width {
        Some(Scorer::Player)
    } else {
        None
    }
}

/// The events that one inspection of the ball emits: at most one, and none
/// without a field or without exactly one ball.
pub open spec fn detected(s: Seq<Entity>, field: Option<Field>) -> Seq<Scored> {
    match (field, single(s, Role::Ball)) {
        (Some(f), Some(b)) => match scoring_event(s[b].position.x as int, f.width as int) {
            Some(who) => seq![Scored(who)],
            None => Seq::empty(),
        },
        _ => Seq::empty(),
    }
}

/// Appends to `events` the event, if any, that the ball's position calls for.
pub fn detect_scoring(entities: &Vec<Entity>, field: Option<Field>, events: &mut Vec<Scored>)
    requires
        registry_wf(entities@),
        field matches Some(f) ==> f.wf(),
    ensures
        final(events)@ == old(events)@ + detected(entities@, field),
{
    if let Some(f) = field {
        if let Some(b) = find_single(entities, Role::Ball) {
            let x = entities[b].position.x;
            assert(entities@[b as int].wf());
            if 2 * x > f.width {
                events.push(Scored(Scorer::Ai));
            } else if 2 * x < -f.width {
                events.push(Scored(Scorer::Player));
            }
        }
    }
    assert(events@ =~= old(events)@ + detected(entities@, field));
}

/// The velocity the ball is relaunched with: away from the side that scored.
pub open spec fn launch_velocity(who: Scorer) -> Vector2 {
    match who {
        Scorer::Ai => Vector2 { x: -1i64, y: 1 },
        Scorer::Player => Vector2 { x: 1, y: 1 },
    }
}

/// The ball put back at the center and relaunched for `who`.
pub open spec fn relaunched(ball: Entity, who: Scorer) -> Entity {
    Entity { position: Vector2 { x: 0, y: 0 }, velocity: launch_velocity(who), ..ball }
}

/// The registry after the ball has been reset once per event: the last
/// event decides. Without events, or without exactly one ball, nothing
/// changes.
pub open spec fn ball_reset(s: Seq<Entity>, events: Seq<Scored>) -> Seq<Entity> {
    if events.len() == 0 {
        s
    } else {
        match single(s, Role::Ball) {
            Some(b) => s.update(b, relaunched(s[b], events.last().0)),
            None => s,
        }
    }
}

/// Resets the ball to the center for each scoring event, relaunching it
/// away from the side that scored.
pub fn reset_ball(entities: &mut Vec<Entity>, events: &Vec<Scored>)
    requires
        registry_wf(old(entities)@),
    ensures
        final(entities)@ == ball_reset(old(entities)@, events@),
        registry_wf(final(entities)@),
{
    let ghost s = entities@;
    let b = match find_single(entities, Role::Ball) {
        Some(b) => b,
        None => return ,
    };
    let mut i: usize = 0;
    while i < events.len()
        invariant
            registry_wf(s),
            single(s, Role::Ball) == Some(b as int),
            0 <= i <= events@.len(),
            i == 0 ==> entities@ == s,
            i > 0 ==> entities@ == s.update(b as int, relaunched(s[b as int], events@[i - 1].0)),
        decreases events@.len() - i,
    {
        let ball = entities[b];
        let velocity = match events[i].0 {
            Scorer::Ai => Vector2::new(-1, 1),
            Scorer::Player => Vector2::new(1, 1),
        };
        entities.set(b, Entity { position: Vector2::new(0, 0), velocity, ..ball });
        i = i + 1;
    }
    assert forall|j: int| 0 <= j < entities@.len() implies #[trigger] entities@[j].wf() by {
        if j != b {
            assert(entities@[j] == s[j]);
        } else {
            assert(s[j].wf());
        }
    }
}

/// How many of `events` credit `who`.
pub open spec fn count_for(events: Seq<Scored>, who: Scorer) -> nat
    decreases events.len(),
{
    if events.len() == 0 {
        0
    } else {
        count_for(events.drop_last(), who) + if events.last().0 == who {
            1nat
        } else {
            0nat
        }
    }
}

/// No more events credit a side than there are events.
pub proof fn lemma_count_for_len(events: Seq<Scored>, who: Scorer)
    ensures
        count_for(events, who) <= events.len(),
    decreases events.len(),
{
    if events.len() > 0 {
        lemma_count_for_len(events.drop_last(), who);
    }
}

proof fn lemma_count_prefix(events: Seq<Scored>, i: int, who: Scorer)
    requires
        0 <= i <= events.len(),
    ensures
        count_for(events.take(i), who) <= count_for(events, who),
    decreases events.len(),
{
    if i < events.len() {
        lemma_count_prefix(events.drop_last(), i, who);
        assert(events.drop_last().take(i) =~= events.take(i));
    } else {
        assert(events.take(i) =~= events);
    }
}

/// Credits one point per event to the side that scored.
pub fn update_score(score: &mut Score, events: &Vec<Scored>)
    requires
        old(score).player + count_for(events@, Scorer::Player) <= u32::MAX,
        old(score).ai + count_for(events@, Scorer::Ai) <= u32::MAX,
    ensures
        final(score).player == old(score).player + count_for(events@, Scorer::Player),
        final(score).ai == old(score).ai + count_for(events@, Scorer::Ai),
{
    let ghost start = *score;
    let mut i: usize = 0;
    while i < events.len()
        invariant
            0 <= i <= events@.len(),
            start.player + count_for(events@, Scorer::Player) <= u32::MAX,
            start.ai + count_for(events@, Scorer::Ai) <= u32::MAX,
            score.player == start.player + count_for(events@.take(i as int), Scorer::Player),
            score.ai == start.ai + count_for(events@.take(i as int), Scorer::Ai),
        decreases events@.len() - i,
    {
        assert(events@.take(i + 1).drop_last() =~= events@.take(i as int));
        proof {
            lemma_count_prefix(events@, i + 1, Scorer::Player);
            lemma_count_prefix(events@, i + 1, Scorer::Ai);
        }
        match events[i].0 {
            Scorer::Ai => score.ai = score.ai + 1,
            Scorer::Player => score.player = score.player + 1,
        }
        i = i + 1;
    }
    assert(events@.take(i as int) =~= events@);
}

} // verus!
