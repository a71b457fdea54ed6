//! Geometry primitives and the entity kinds built on them.
pub mod bullet;
pub mod enemy;
pub mod obstacle;
pub mod powerup;
pub mod tank;

pub use bullet::Bullet;
pub use enemy::{AiDraws, EnemyAI};
pub use obstacle::Obstacle;
pub use powerup::{PowerUp, PowerUpType};
pub use tank::{Shield, Tank};

use crate::fixed::{
    abs, align, aligned, clamp, clamp_to, lemma_aligned_within, lemma_scaled_within, mul_div, norm,
    scaled, vector_length, COORD_MAX, FIELD_MAX, OFFSET_MAX, SPEED_MAX, UNIT, VELOCITY_MAX,
};
use vstd::prelude::*;

verus! {

/// A point of the plane.
#[derive(Clone, Copy, Debug, PartialEq, Eq, Structural)]
pub struct Position {
    pub x: i64,
    pub y: i64,
}

impl Position {
    /// Both coordinates are within `COORD_MAX` of the origin.
    pub open spec fn wf(&self) -> bool {
        &&& abs(self.x as int) <= COORD_MAX
        &&& abs(self.y as int) <= COORD_MAX
    }

    /// Distance to `other`, rounded down.
    pub open spec fn dist(&self, other: &Position) -> nat {
        norm(self.x - other.x, self.y - other.y)
    }

    /// The point `(x, y)`.
    pub fn new(x: i64, y: i64) -> (p: Self)
        ensures
            p.x == x,
            p.y == y,
    {
        Self { x, y }
    }

    /// Checks that every number lies within its limit.
    pub fn is_well_formed(&self) -> (b: bool)
        ensures
            b == self.wf(),
    {
        -COORD_MAX <= self.x && self.x <= COORD_MAX && -COORD_MAX <= self.y && self.y
            <= COORD_MAX
    }

    /// The distance to `other`, rounded down.
    pub fn distance_to(&self, other: &Position) -> (d: i64)
        requires
            self.wf(),
            other.wf(),
        ensures
            d == self.dist(other),
            0 <= d <= 3_000_000_000,
    {
        vector_length(self.x - other.x, self.y - other.y)
    }
}

/// An angle, held as its cosine and sine in thousandths.
#[derive(Clone, Copy, Debug, PartialEq, Eq, Structural)]
pub struct Angle {
    pub cos: i64,
    pub sin: i64,
}

/// Cosine, in thousandths, of the direction of the vector `(dx, dy)`; one for the zero
/// vector.
pub open spec fn direction_cos(dx: int, dy: int) -> int {
    if dx == 0 && dy == 0 {
        UNIT as int
    } else {
        aligned(dx, dy, UNIT as int).0
    }
}

/// Sine, in thousandths, of the direction of the vector `(dx, dy)`; zero for the zero
/// vector.
pub open spec fn direction_sin(dx: int, dy: int) -> int {
    if dx == 0 && dy == 0 {
        0
    } else {
        aligned(dx, dy, UNIT as int).1
    }
}

/// The cosine and sine of a direction are those of a vector no longer than one.
pub proof fn lemma_direction_within_unit(dx: int, dy: int)
    ensures
        direction_cos(dx, dy) * direction_cos(dx, dy) + direction_sin(dx, dy) * direction_sin(
            dx,
            dy,
        ) <= UNIT * UNIT,
        abs(direction_cos(dx, dy)) <= UNIT,
        abs(direction_sin(dx, dy)) <= UNIT,
{
    if dx != 0 || dy != 0 {
        lemma_aligned_within(dx, dy, UNIT as int);
    } else {
        assert(UNIT * UNIT + 0 * 0 <= UNIT * UNIT) by (nonlinear_arith);
    }
}

impl Angle {
    /// Neither component exceeds one in magnitude.
    pub open spec fn wf(&self) -> bool {
        &&& abs(self.cos as int) <= UNIT
        &&& abs(self.sin as int) <= UNIT
    }

    /// The angle obtained by turning `self` further by `by`.
    pub open spec fn turned(&self, by: &Angle) -> Angle {
        Angle {
            cos: clamp(
                scaled(self.cos as int, by.cos as int, UNIT as int) - scaled(
                    self.sin as int,
                    by.sin as int,
                    UNIT as int,
                ),
                -UNIT as int,
                UNIT as int,
            ) as i64,
            sin: clamp(
                scaled(self.sin as int, by.cos as int, UNIT as int) + scaled(
                    self.cos as int,
                    by.sin as int,
                    UNIT as int,
                ),
                -UNIT as int,
                UNIT as int,
            ) as i64,
        }
    }

    /// Checks that every number lies within its limit.
    pub fn is_well_formed(&self) -> (b: bool)
        ensures
            b == self.wf(),
    {
        -UNIT <= self.cos && self.cos <= UNIT && -UNIT <= self.sin && self.sin <= UNIT
    }

    /// The angle zero, which points along the positive x axis.
    pub fn zero() -> (a: Self)
        ensures
            a.cos == UNIT,
            a.sin == 0,
            a.wf(),
    {
        Self { cos: UNIT, sin: 0 }
    }

    /// The direction of the vector `(dx, dy)`; the zero vector gives the angle zero.
    pub fn toward(dx: i64, dy: i64) -> (a: Self)
        requires
            abs(dx as int) <= OFFSET_MAX,
            abs(dy as int) <= OFFSET_MAX,
        ensures
            a.cos == direction_cos(dx as int, dy as int),
            a.sin == direction_sin(dx as int, dy as int),
            a.wf(),
    {
        if dx == 0 && dy == 0 {
            Self::zero()
        } else {
            let v = align(dx, dy, UNIT);
            Self { cos: v.0, sin: v.1 }
        }
    }

    /// Adds the angle `by` to this one, with the addition formulas of cosine and sine.
    pub fn rotated(&self, by: &Angle) -> (a: Self)
        requires
            self.wf(),
            by.wf(),
        ensures
            a == self.turned(by),
            a.wf(),
    {
        proof {
            lemma_scaled_within(self.cos as int, by.cos as int, UNIT as int);
            lemma_scaled_within(self.sin as int, by.sin as int, UNIT as int);
            lemma_scaled_within(self.sin as int, by.cos as int, UNIT as int);
            lemma_scaled_within(self.cos as int, by.sin as int, UNIT as int);
        }
        let c = mul_div(self.cos, by.cos, UNIT) - mul_div(self.sin, by.sin, UNIT);
        let s = mul_div(self.sin, by.cos, UNIT) + mul_div(self.cos, by.sin, UNIT);
        Self { cos: clamp_to(c, -UNIT, UNIT), sin: clamp_to(s, -UNIT, UNIT) }
    }
}

/// A displacement per second.
#[derive(Clone, Copy, Debug, PartialEq, Eq, Structural)]
pub struct Velocity {
    pub x: i64,
    pub y: i64,
}

impl Velocity {
    /// Neither component exceeds `VELOCITY_MAX` in magnitude.
    pub open spec fn wf(&self) -> bool {
        &&& abs(self.x as int) <= VELOCITY_MAX
        &&& abs(self.y as int) <= VELOCITY_MAX
    }

    /// The velocity `(x, y)`.
    pub fn new(x: i64, y: i64) -> (v: Self)
        ensures
            v.x == x,
            v.y == y,
    {
        Self { x, y }
    }

    /// Checks that every number lies within its limit.
    pub fn is_well_formed(&self) -> (b: bool)
        ensures
            b == self.wf(),
    {
        -VELOCITY_MAX <= self.x && self.x <= VELOCITY_MAX && -VELOCITY_MAX <= self.y && self.y
            <= VELOCITY_MAX
    }

    /// The velocity of magnitude `speed` along `angle`.
    pub fn from_angle(angle: Angle, speed: i64) -> (v: Self)
        requires
            angle.wf(),
            0 <= speed <= SPEED_MAX,
        ensures
            v.x == scaled(angle.cos as int, speed as int, UNIT as int),
            v.y == scaled(angle.sin as int, speed as int, UNIT as int),
            abs(v.x as int) <= speed,
            abs(v.y as int) <= speed,
    {
        proof {
            lemma_scaled_within(angle.cos as int, speed as int, UNIT as int);
            lemma_scaled_within(angle.sin as int, speed as int, UNIT as int);
        }
        Self { x: mul_div(angle.cos, speed, UNIT), y: mul_div(angle.sin, speed, UNIT) }
    }
}

/// The extent of the arena, whose corner is the origin.
#[derive(Clone, Copy, Debug, PartialEq, Eq, Structural)]
pub struct Arena {
    pub width: i64,
    pub height: i64,
}

impl Arena {
    /// Both extents lie in `0..=FIELD_MAX`.
    pub open spec fn wf(&self) -> bool {
        &&& 0 <= self.width <= FIELD_MAX
        &&& 0 <= self.height <= FIELD_MAX
    }

    /// `p` lies in the arena, at least `margin` away from every edge.
    pub open spec fn holds(&self, p: Position, margin: int) -> bool {
        &&& margin <= p.x <= self.width - margin
        &&& margin <= p.y <= self.height - margin
    }

    /// The arena of the given extents.
    pub fn new(width: i64, height: i64) -> (a: Self)
        ensures
            a.width == width,
            a.height == height,
    {
        Self { width, height }
    }

    /// Checks that every number lies within its limit.
    pub fn is_well_formed(&self) -> (b: bool)
        ensures
            b == self.wf(),
    {
        0 <= self.width && self.width <= FIELD_MAX && 0 <= self.height && self.height
            <= FIELD_MAX
    }
}

} // verus!
