//! Axis-aligned rectangular obstacles, destructible or not.
use super::Position;
use crate::fixed::{clamp, clamp_to, norm, sat_i32, saturate_i32, vector_length, FIELD_MAX};
use vstd::prelude::*;

verus! {

/// A rectangle whose corner nearest the origin is `position`.
#[derive(Clone, Copy, Debug, PartialEq, Eq, Structural)]
pub struct Obstacle {
    pub position: Position,
    pub width: i64,
    pub height: i64,
    pub health: i32,
    pub max_health: i32,
    /// Hits take health from the obstacle; an obstacle that is not destructible
    /// ignores them.
    pub destructible: bool,
}

/// Sum of the hits `damages`.
pub open spec fn total_damage(damages: Seq<i32>) -> int
    decreases damages.len(),
{
    if damages.len() == 0 {
        0
    } else {
        total_damage(damages.drop_last()) + damages.last()
    }
}

impl Obstacle {
    /// The obstacle after the hits `damages`, applied in order.
    pub open spec fn after_hits(&self, damages: Seq<i32>) -> Obstacle
        decreases damages.len(),
    {
        if damages.len() == 0 {
            *self
        } else {
            self.after_hits(damages.drop_last()).damaged(damages.last())
        }
    }

    /// None of the hits `damages` destroys the obstacle.
    pub open spec fn withstands(&self, damages: Seq<i32>) -> bool
        decreases damages.len(),
    {
        if damages.len() == 0 {
            true
        } else {
            &&& self.withstands(damages.drop_last())
            &&& !self.after_hits(damages.drop_last()).destroyed_by(damages.last())
        }
    }

    /// The extents are not negative, and no corner has a coordinate beyond `FIELD_MAX`
    /// in magnitude.
    pub open spec fn wf(&self) -> bool {
        &&& -FIELD_MAX <= self.position.x
        &&& -FIELD_MAX <= self.position.y
        &&& 0 <= self.width
        &&& 0 <= self.height
        &&& self.position.x + self.width <= FIELD_MAX
        &&& self.position.y + self.height <= FIELD_MAX
    }

    /// X coordinate of the centre, rounded down.
    pub open spec fn center_x(&self) -> int {
        self.position.x + self.width / 2
    }

    /// Y coordinate of the centre, rounded down.
    pub open spec fn center_y(&self) -> int {
        self.position.y + self.height / 2
    }

    /// The obstacle as it is after a hit of `damage`.
    pub open spec fn damaged(&self, damage: i32) -> Obstacle {
        if self.destructible {
            Obstacle { health: sat_i32(self.health - damage) as i32, ..*self }
        } else {
            *self
        }
    }

    /// A hit of `damage` destroys the obstacle.
    pub open spec fn destroyed_by(&self, damage: i32) -> bool {
        self.destructible && self.health - damage <= 0
    }

    /// The point `(x, y)` lies in the rectangle, edges included.
    pub open spec fn covers(&self, x: int, y: int) -> bool {
        &&& self.position.x <= x <= self.position.x + self.width
        &&& self.position.y <= y <= self.position.y + self.height
    }

    /// The point of the rectangle nearest to `pos`.
    pub open spec fn nearest_point(&self, pos: &Position) -> (int, int) {
        (
            clamp(pos.x as int, self.position.x as int, self.position.x + self.width),
            clamp(pos.y as int, self.position.y as int, self.position.y + self.height),
        )
    }

    /// Distance from `pos` to the rectangle, rounded down; zero inside it.
    pub open spec fn gap(&self, pos: &Position) -> nat {
        norm(pos.x - self.nearest_point(pos).0, pos.y - self.nearest_point(pos).1)
    }

    /// The circle of `radius` around `pos` reaches into the rectangle.
    pub open spec fn touches_circle(&self, pos: &Position, radius: int) -> bool {
        self.gap(pos) < radius
    }

    /// A destructible wall with 100 points of health.
    pub fn new_wall(x: i64, y: i64, width: i64, height: i64) -> (o: Self)
        ensures
            o == (Obstacle {
                position: Position { x, y },
                width,
                height,
                health: 100,
                max_health: 100,
                destructible: true,
            }),
    {
        Self {
            position: Position::new(x, y),
            width,
            height,
            health: 100,
            max_health: 100,
            destructible: true,
        }
    }

    /// An indestructible block.
    pub fn new_steel(x: i64, y: i64, width: i64, height: i64) -> (o: Self)
        ensures
            o == (Obstacle {
                position: Position { x, y },
                width,
                height,
                health: 1000,
                max_health: 1000,
                destructible: false,
            }),
    {
        Self {
            position: Position::new(x, y),
            width,
            height,
            health: 1000,
            max_health: 1000,
            destructible: false,
        }
    }

    /// Checks that every number lies within its limit.
    pub fn is_well_formed(&self) -> (b: bool)
        ensures
            b == self.wf(),
    {
        -FIELD_MAX <= self.position.x && -FIELD_MAX <= self.position.y && 0 <= self.width && 0
            <= self.height && self.width <= FIELD_MAX - self.position.x && self.height
            <= FIELD_MAX - self.position.y
    }

    /// Applies a hit and reports whether it destroyed the obstacle.
    /// An indestructible obstacle ignores every hit.
    pub fn take_damage(&mut self, damage: i32) -> (destroyed: bool)
        ensures
            *final(self) == old(self).damaged(damage),
            destroyed == old(self).destroyed_by(damage),
    {
        if !self.destructible {
            return false;
        }
        self.health = saturate_i32(self.health as i64 - damage as i64);
        self.health <= 0
    }

    /// Does the point `(x, y)` lie in the rectangle, edges included?
    pub fn contains_point(&self, x: i64, y: i64) -> (b: bool)
        requires
            self.wf(),
        ensures
            b == self.covers(x as int, y as int),
    {
        x >= self.position.x && x <= self.position.x + self.width && y >= self.position.y && y
            <= self.position.y + self.height
    }

    /// Circle against rectangle, by the distance to the nearest point of the rectangle.
    pub fn collides_with_circle(&self, pos: &Position, radius: i64) -> (b: bool)
        requires
            self.wf(),
            pos.wf(),
        ensures
            b == self.touches_circle(pos, radius as int),
    {
        let closest_x = clamp_to(pos.x, self.position.x, self.position.x + self.width);
        let closest_y = clamp_to(pos.y, self.position.y, self.position.y + self.height);
        let distance = vector_length(pos.x - closest_x, pos.y - closest_y);
        distance < radius
    }
}

/// A destructible obstacle that has withstood the hits `earlier` is destroyed by the next
/// hit exactly when the damage applied so far, that hit included, reaches its first health.
pub proof fn lemma_destroyed_at_threshold(o: Obstacle, earlier: Seq<i32>, hit: i32)
    requires
        o.destructible,
        forall|i: int| 0 <= i < earlier.len() ==> #[trigger] earlier[i] >= 0,
        o.withstands(earlier),
    ensures
        o.after_hits(earlier).destroyed_by(hit) <==> total_damage(earlier.push(hit)) >= o.health,
{
    lemma_health_left(o, earlier);
    assert(earlier.push(hit).drop_last() =~= earlier);
}

/// While a destructible obstacle withstands its hits, its health is its first health less
/// the damage applied.
pub proof fn lemma_health_left(o: Obstacle, damages: Seq<i32>)
    requires
        o.destructible,
        forall|i: int| 0 <= i < damages.len() ==> #[trigger] damages[i] >= 0,
        o.withstands(damages),
    ensures
        o.after_hits(damages).health == o.health - total_damage(damages),
        o.after_hits(damages).destructible,
        total_damage(damages) >= 0,
    decreases damages.len(),
{
    if damages.len() > 0 {
        lemma_health_left(o, damages.drop_last());
    }
}

/// An indestructible obstacle withstands every sequence of hits, unchanged.
pub proof fn lemma_indestructible_stays(o: Obstacle, damages: Seq<i32>)
    requires
        !o.destructible,
    ensures
        o.withstands(damages),
        o.after_hits(damages) == o,
    decreases damages.len(),
{
    if damages.len() > 0 {
        lemma_indestructible_stays(o, damages.drop_last());
    }
}

} // verus!
