//! Integer vectors, the ball's bounding circle, axis-aligned boxes, and the
//! classification of a circle-versus-box contact by the side that was hit.
//!
//! A box's half-extents are half its size, which may fall between two grid
//! points. The contact test therefore works on the half-unit grid: every
//! coordinate is doubled, which keeps each comparison exact.
use vstd::prelude::*;

verus! {

/// Largest magnitude of any coordinate, velocity component or size.
pub const LIMIT: i64 = 1_000_000_000;

/// A two-dimensional vector of grid units.
#[derive(Clone, Copy, Debug, PartialEq, Eq, Structural)]
pub struct Vector2 {
    pub x: i64,
    pub y: i64,
}

impl Vector2 {
    /// Both components lie within `LIMIT` in magnitude.
    pub open spec fn in_limit(self) -> bool {
        -LIMIT <= self.x <= LIMIT && -LIMIT <= self.y <= LIMIT
    }

    pub fn new(x: i64, y: i64) -> (r: Vector2)
        ensures
            r.x == x,
            r.y == y,
    {
        Vector2 { x, y }
    }

    /// The vector with the component named by `side` negated.
    pub fn reflect(self, side: Collision) -> (r: Vector2)
        requires
            self.in_limit(),
        ensures
            r == reflected(self, side),
            r.in_limit(),
            r.x * r.x + r.y * r.y == self.x * self.x + self.y * self.y,
    {
        proof {
            let (x, y) = (self.x as int, self.y as int);
            assert((-x) * (-x) == x * x && (-y) * (-y) == y * y) by (nonlinear_arith);
        }
        match side {
            Collision::Left | Collision::Right => Vector2 { x: -self.x, y: self.y },
            Collision::Top | Collision::Bottom => Vector2 { x: self.x, y: -self.y },
        }
    }
}

/// The side of an obstacle that the ball touched.
#[derive(Clone, Copy, Debug, PartialEq, Eq, Structural)]
pub enum Collision {
    Left,
    Right,
    Top,
    Bottom,
}

/// The ball's collision shape.
#[derive(Clone, Copy, Debug, PartialEq, Eq, Structural)]
pub struct BoundingCircle {
    pub center: Vector2,
    pub radius: i64,
}

/// An axis-aligned box given by its center and its full size.
#[derive(Clone, Copy, Debug, PartialEq, Eq, Structural)]
pub struct Aabb {
    pub center: Vector2,
    pub size: Vector2,
}

impl BoundingCircle {
    pub open spec fn wf(self) -> bool {
        self.center.in_limit() && 0 <= self.radius <= LIMIT
    }
}

impl Aabb {
    pub open spec fn wf(self) -> bool {
        self.center.in_limit() && 0 <= self.size.x <= LIMIT && 0 <= self.size.y <= LIMIT
    }
}

pub open spec fn abs(v: int) -> int {
    if v < 0 {
        -v
    } else {
        v
    }
}

pub open spec fn clamp(v: int, lo: int, hi: int) -> int {
    if v < lo {
        lo
    } else if v > hi {
        hi
    } else {
        v
    }
}

/// The point of the box closest to the circle's center, in half units.
pub open spec fn closest_point(ball: BoundingCircle, wall: Aabb) -> (int, int) {
    (
        clamp(2 * ball.center.x, 2 * wall.center.x - wall.size.x, 2 * wall.center.x + wall.size.x),
        clamp(2 * ball.center.y, 2 * wall.center.y - wall.size.y, 2 * wall.center.y + wall.size.y),
    )
}

/// The circle's center minus the closest point of the box, in half units.
pub open spec fn offset(ball: BoundingCircle, wall: Aabb) -> (int, int) {
    (2 * ball.center.x - closest_point(ball, wall).0, 2 * ball.center.y - closest_point(ball, wall).1)
}

/// The closest point of the box lies no farther from the center than the
/// radius (both sides of the comparison in half units, squared).
pub open spec fn intersects(ball: BoundingCircle, wall: Aabb) -> bool {
    let (ox, oy) = offset(ball, wall);
    ox * ox + oy * oy <= (2 * ball.radius) * (2 * ball.radius)
}

/// The side named by an offset: the dominant axis decides, and a tie goes to
/// the vertical axis.
pub open spec fn side_of(ox: int, oy: int) -> Collision {
    if abs(ox) > abs(oy) {
        if ox < 0 {
            Collision::Left
        } else {
            Collision::Right
        }
    } else if oy > 0 {
        Collision::Top
    } else {
        Collision::Bottom
    }
}

pub open spec fn collision_side(ball: BoundingCircle, wall: Aabb) -> Option<Collision> {
    if intersects(ball, wall) {
        Some(side_of(offset(ball, wall).0, offset(ball, wall).1))
    } else {
        None
    }
}

pub open spec fn reflected(v: Vector2, side: Collision) -> Vector2 {
    match side {
        Collision::Left | Collision::Right => Vector2 { x: (-v.x) as i64, y: v.y },
        Collision::Top | Collision::Bottom => Vector2 { x: v.x, y: (-v.y) as i64 },
    }
}

proof fn lemma_square_bound(v: int, b: int)
    requires
        -b <= v <= b,
    ensures
        0 <= v * v <= b * b,
{
    assert(0 <= v * v <= b * b) by (nonlinear_arith)
        requires
            -b <= v <= b,
    ;
}

fn clamp_exec(v: i64, lo: i64, hi: i64) -> (r: i64)
    ensures
        r == clamp(v as int, lo as int, hi as int),
{
    if v < lo {
        lo
    } else if v > hi {
        hi
    } else {
        v
    }
}

/// Tests the circle against the box and, on contact, names the side of the
/// box that was hit.
pub fn collide_with_side(ball: BoundingCircle, wall: Aabb) -> (r: Option<Collision>)
    requires
        ball.wf(),
        wall.wf(),
    ensures
        r == collision_side(ball, wall),
{
    let cx: i64 = 2 * ball.center.x;
    let cy: i64 = 2 * ball.center.y;
    let qx: i64 = clamp_exec(cx, 2 * wall.center.x - wall.size.x, 2 * wall.center.x + wall.size.x);
    let qy: i64 = clamp_exec(cy, 2 * wall.center.y - wall.size.y, 2 * wall.center.y + wall.size.y);
    let ox: i64 = cx - qx;
    let oy: i64 = cy - qy;
    proof {
        lemma_square_bound(ox as int, 5 * LIMIT);
        lemma_square_bound(oy as int, 5 * LIMIT);
        lemma_square_bound(2 * ball.radius, 2 * LIMIT);
    }
    let dist2: i128 = (ox as i128) * (ox as i128) + (oy as i128) * (oy as i128);
    let reach: i128 = 2 * (ball.radius as i128);
    if dist2 > reach * reach {
        return None;
    }
    let ax: i64 = if ox < 0 { -ox } else { ox };
    let ay: i64 = if oy < 0 { -oy } else { oy };
    let side = if ax > ay {
        if ox < 0 {
            Collision::Left
        } else {
            Collision::Right
        }
    } else if oy > 0 {
        Collision::Top
    } else {
        Collision::Bottom
    };
    Some(side)
}

} // verus!
