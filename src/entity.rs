//! The entity registry: one record per simulated entity, kept in the order in
//! which the entities were registered, and the lookup of the one entity that
//! carries a given role.
use crate::geometry::{Aabb, BoundingCircle, Vector2, LIMIT};
use vstd::prelude::*;

verus! {

pub const BALL_SIZE: i64 = 5;

pub const PADDLE_SPEED: i64 = 5;

pub const PADDLE_WIDTH: i64 = 10;

pub const PADDLE_HEIGHT: i64 = 50;

pub const GUTTER_HEIGHT: i64 = 20;

/// The size of the play field, which is centered at the origin.
#[derive(Clone, Copy, Debug, PartialEq, Eq, Structural)]
pub struct Field {
    pub width: i64,
    pub height: i64,
}

impl Field {
    pub open spec fn wf(self) -> bool {
        0 <= self.width <= LIMIT && 0 <= self.height <= LIMIT
    }
}

/// What an entity is; the player and the AI role both mark a paddle.
#[derive(Clone, Copy, Debug, PartialEq, Eq, Structural)]
pub enum Role {
    Ball,
    Player,
    Ai,
    Gutter,
}

impl Role {
    pub open spec fn is_paddle(self) -> bool {
        self is Player || self is Ai
    }

    pub fn paddle(&self) -> (r: bool)
        ensures
            r == self.is_paddle(),
    {
        match self {
            Role::Player | Role::Ai => true,
            _ => false,
        }
    }
}

/// A simulated entity. A gutter has no velocity of its own: its velocity is
/// always zero.
#[derive(Clone, Copy, Debug, PartialEq, Eq, Structural)]
pub struct Entity {
    pub role: Role,
    pub position: Vector2,
    pub velocity: Vector2,
    pub shape: Vector2,
}

impl Entity {
    /// Values in range, sizes non-negative, paddles moving only vertically
    /// at unit speed or not at all, and gutters at rest.
    pub open spec fn wf(self) -> bool {
        &&& self.position.in_limit()
        &&& self.velocity.in_limit()
        &&& 0 <= self.shape.x <= LIMIT
        &&& 0 <= self.shape.y <= LIMIT
        &&& self.role.is_paddle() ==> self.velocity.x == 0 && -1 <= self.velocity.y <= 1
        &&& self.role is Gutter ==> self.velocity.x == 0 && self.velocity.y == 0
    }

    /// The ball at the center of the field, launched with velocity `(x, y)`.
    pub fn ball(x: i64, y: i64) -> (r: Entity)
        requires
            -LIMIT <= x <= LIMIT,
            -LIMIT <= y <= LIMIT,
        ensures
            r.role == Role::Ball,
            r.position == (Vector2 { x: 0, y: 0 }),
            r.velocity == (Vector2 { x, y }),
            r.shape == (Vector2 { x: BALL_SIZE, y: BALL_SIZE }),
            r.wf(),
    {
        Entity {
            role: Role::Ball,
            position: Vector2::new(0, 0),
            velocity: Vector2::new(x, y),
            shape: Vector2::new(BALL_SIZE, BALL_SIZE),
        }
    }

    /// A paddle at rest at `(x, y)`; `role` says who controls it.
    pub fn paddle(role: Role, x: i64, y: i64) -> (r: Entity)
        requires
            role.is_paddle(),
            -LIMIT <= x <= LIMIT,
            -LIMIT <= y <= LIMIT,
        ensures
            r.role == role,
            r.position == (Vector2 { x, y }),
            r.velocity == (Vector2 { x: 0, y: 0 }),
            r.shape == (Vector2 { x: PADDLE_WIDTH, y: PADDLE_HEIGHT }),
            r.wf(),
    {
        Entity {
            role,
            position: Vector2::new(x, y),
            velocity: Vector2::new(0, 0),
            shape: Vector2::new(PADDLE_WIDTH, PADDLE_HEIGHT),
        }
    }

    /// A gutter centered at `(x, y)`: a horizontal wall of no width and
    /// `GUTTER_HEIGHT` high.
    pub fn gutter(x: i64, y: i64) -> (r: Entity)
        requires
            -LIMIT <= x <= LIMIT,
            -LIMIT <= y <= LIMIT,
        ensures
            r.role == Role::Gutter,
            r.position == (Vector2 { x, y }),
            r.velocity == (Vector2 { x: 0, y: 0 }),
            r.shape == (Vector2 { x: 0, y: GUTTER_HEIGHT }),
            r.wf(),
    {
        Entity {
            role: Role::Gutter,
            position: Vector2::new(x, y),
            velocity: Vector2::new(0, 0),
            shape: Vector2::new(0, GUTTER_HEIGHT),
        }
    }

    /// The circle around the entity, with the shape's width as radius.
    pub open spec fn circle(self) -> BoundingCircle {
        BoundingCircle { center: self.position, radius: self.shape.x }
    }

    /// The box around the entity, as large as its shape.
    pub open spec fn aabb(self) -> Aabb {
        Aabb { center: self.position, size: self.shape }
    }

    pub fn bounding_circle(&self) -> (r: BoundingCircle)
        requires
            self.wf(),
        ensures
            r == self.circle(),
            r.wf(),
    {
        BoundingCircle { center: self.position, radius: self.shape.x }
    }

    pub fn bounding_box(&self) -> (r: Aabb)
        requires
            self.wf(),
        ensures
            r == self.aabb(),
            r.wf(),
    {
        Aabb { center: self.position, size: self.shape }
    }
}

/// Every entity of the registry is well formed.
pub open spec fn registry_wf(s: Seq<Entity>) -> bool {
    forall|i: int| 0 <= i < s.len() ==> #[trigger] s[i].wf()
}

/// Entity `i` carries `role`, and no other entity does.
pub open spec fn is_single(s: Seq<Entity>, role: Role, i: int) -> bool {
    &&& 0 <= i < s.len()
    &&& s[i].role == role
    &&& forall|j: int| 0 <= j < s.len() && j != i ==> #[trigger] s[j].role != role
}

/// The index of the one entity that carries `role`, if exactly one does.
pub open spec fn single(s: Seq<Entity>, role: Role) -> Option<int> {
    if exists|i: int| is_single(s, role, i) {
        Some(choose|i: int| is_single(s, role, i))
    } else {
        None
    }
}

pub proof fn lemma_single(s: Seq<Entity>, role: Role, i: int)
    requires
        is_single(s, role, i),
    ensures
        single(s, role) == Some(i),
{
    let k = choose|k: int| is_single(s, role, k);
    assert(is_single(s, role, k));
}

/// Registries whose entities carry the same roles, one for one, agree on
/// which entity is the single carrier of each role.
pub proof fn lemma_same_roles(s: Seq<Entity>, t: Seq<Entity>, role: Role)
    requires
        s.len() == t.len(),
        forall|i: int| 0 <= i < s.len() ==> #[trigger] s[i].role == t[i].role,
    ensures
        single(s, role) == single(t, role),
{
    if exists|i: int| is_single(s, role, i) {
        let i = choose|i: int| is_single(s, role, i);
        assert forall|j: int| 0 <= j < t.len() && j != i implies #[trigger] t[j].role != role by {
            assert(s[j].role == t[j].role);
        }
        assert(is_single(t, role, i));
        lemma_single(s, role, i);
        lemma_single(t, role, i);
    } else if exists|i: int| is_single(t, role, i) {
        let i = choose|i: int| is_single(t, role, i);
        assert forall|j: int| 0 <= j < s.len() && j != i implies #[trigger] s[j].role != role by {
            assert(s[j].role == t[j].role);
        }
        assert(is_single(s, role, i));
    }
}

/// Finds the one entity that carries `role`; there is none to find where no
/// entity or more than one carries it.
pub fn find_single(entities: &Vec<Entity>, role: Role) -> (r: Option<usize>)
    ensures
        r is Some ==> single(entities@, role) == Some(r.unwrap() as int),
        r is None ==> single(entities@, role) is None,
{
    let ghost s = entities@;
    let mut found: Option<usize> = None;
    let mut i: usize = 0;
    while i < entities.len()
        invariant
            s == entities@,
            0 <= i <= s.len(),
            found is None ==> forall|j: int| 0 <= j < i ==> #[trigger] s[j].role != role,
            found is Some ==> {
                let k = found.unwrap() as int;
                &&& 0 <= k < i
                &&& s[k].role == role
                &&& forall|j: int| 0 <= j < i && j != k ==> #[trigger] s[j].role != role
            },
        decreases s.len() - i,
    {
        if entities[i].role == role {
            if let Some(k) = found {
                assert(!is_single(s, role, k as int) && !is_single(s, role, i as int));
                assert forall|m: int| !is_single(s, role, m) by {
                    if is_single(s, role, m) {
                        if m != k {
                            assert(s[k as int].role == role);
                        } else {
                            assert(s[i as int].role == role);
                        }
                    }
                }
                return None;
            }
            found = Some(i);
        }
        i = i + 1;
    }
    match found {
        Some(k) => {
            proof {
                lemma_single(s, role, k as int);
            }
        },
        None => {},
    }
    found
}

} // verus!
