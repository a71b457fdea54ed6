//! Pickups: timed bonuses that the player collects by touching them.
use super::Position;
use crate::fixed::{DT_MAX, SIZE_MAX, TIME_MAX};
use crate::random::draw_range;
use vstd::prelude::*;

verus! {

/// What a pickup gives to the player who collects it.
#[derive(Clone, Copy, Debug, PartialEq, Eq, Structural)]
pub enum PowerUpType {
    Health,
    Shield,
    ScatterShot,
    SpeedBoost,
    Damage,
}

impl PowerUpType {
    /// The kind that a draw of `index` selects: the kinds in order, the last one for
    /// every index from four up.
    pub open spec fn of_index(index: int) -> PowerUpType {
        if index == 0 {
            PowerUpType::Health
        } else if index == 1 {
            PowerUpType::Shield
        } else if index == 2 {
            PowerUpType::ScatterShot
        } else if index == 3 {
            PowerUpType::SpeedBoost
        } else {
            PowerUpType::Damage
        }
    }

    /// The kind that a draw of `index` selects.
    pub fn from_index(index: i64) -> (kind: Self)
        ensures
            kind == Self::of_index(index as int),
    {
        match index {
            0 => PowerUpType::Health,
            1 => PowerUpType::Shield,
            2 => PowerUpType::ScatterShot,
            3 => PowerUpType::SpeedBoost,
            _ => PowerUpType::Damage,
        }
    }
}

/// A pickup lying in the arena until it is collected or expires.
#[derive(Clone, Copy, Debug, PartialEq, Eq, Structural)]
pub struct PowerUp {
    pub position: Position,
    pub power_type: PowerUpType,
    /// The radius of the pickup.
    pub size: i64,
    /// The age of the pickup, in milliseconds.
    pub lifetime: i64,
    /// The age at which the pickup expires.
    pub max_lifetime: i64,
    pub collected: bool,
}

impl PowerUp {
    /// Position, radius and ages lie within their limits.
    pub open spec fn wf(&self) -> bool {
        &&& self.position.wf()
        &&& 0 <= self.size <= SIZE_MAX
        &&& 0 <= self.lifetime <= TIME_MAX
        &&& 0 <= self.max_lifetime <= TIME_MAX
    }

    /// A fresh pickup of the given kind at `(x, y)`.
    pub open spec fn fresh(x: i64, y: i64, kind: PowerUpType) -> PowerUp {
        PowerUp {
            position: Position { x, y },
            power_type: kind,
            size: 12_000,
            lifetime: 0,
            max_lifetime: 15_000,
            collected: false,
        }
    }

    /// The pickup after `dt` more milliseconds.
    pub open spec fn aged(&self, dt: i64) -> PowerUp {
        PowerUp { lifetime: (self.lifetime + dt) as i64, ..*self }
    }

    /// The pickup is neither expired nor collected.
    pub open spec fn active(&self) -> bool {
        self.lifetime < self.max_lifetime && !self.collected
    }

    /// The circle of `radius` around `pos` overlaps the pickup, which is still to collect.
    pub open spec fn touches_circle(&self, pos: &Position, radius: int) -> bool {
        !self.collected && self.position.dist(pos) < self.size + radius
    }

    /// A fresh pickup of a given kind.
    pub fn new(x: i64, y: i64, kind: PowerUpType) -> (p: Self)
        ensures
            p == Self::fresh(x, y, kind),
    {
        Self {
            position: Position::new(x, y),
            power_type: kind,
            size: 12_000,
            lifetime: 0,
            max_lifetime: 15_000,
            collected: false,
        }
    }

    /// A fresh pickup whose kind is drawn from the five kinds.
    pub fn new_random(x: i64, y: i64, rng: &mut rand::rngs::StdRng) -> (p: Self)
        ensures
            exists|index: int| 0 <= index < 5 && p == Self::fresh(x, y, PowerUpType::of_index(index)),
    {
        let index = draw_range(rng, 0, 5);
        Self::new(x, y, PowerUpType::from_index(index))
    }

    /// Checks that every number lies within its limit.
    pub fn is_well_formed(&self) -> (b: bool)
        ensures
            b == self.wf(),
    {
        self.position.is_well_formed() && 0 <= self.size && self.size <= SIZE_MAX && 0
            <= self.lifetime && self.lifetime <= TIME_MAX && 0 <= self.max_lifetime
            && self.max_lifetime <= TIME_MAX
    }

    /// Ages the pickup and reports whether it stays in play.
    pub fn update(&mut self, dt: i64) -> (alive: bool)
        requires
            old(self).wf(),
            0 <= dt <= DT_MAX,
        ensures
            *final(self) == old(self).aged(dt),
            alive == final(self).active(),
            alive ==> final(self).wf(),
    {
        self.lifetime = self.lifetime + dt;
        self.lifetime < self.max_lifetime && !self.collected
    }

    /// Does the circle of `radius` around `pos` overlap the pickup, which is still to
    /// collect?
    pub fn collides_with_circle(&self, pos: &Position, radius: i64) -> (b: bool)
        requires
            self.wf(),
            pos.wf(),
        ensures
            b == self.touches_circle(pos, radius as int),
    {
        if self.collected {
            return false;
        }
        self.position.distance_to(pos) - self.size < radius
    }

    /// Marks the pickup as collected.
    pub fn collect(&mut self)
        ensures
            *final(self) == (PowerUp { collected: true, ..*old(self) }),
    {
        self.collected = true;
    }

    /// The one-character mark of the pickup's kind.
    pub fn get_symbol(&self) -> (s: &'static str)
        ensures
            s@ == match self.power_type {
                PowerUpType::Health => "+"@,
                PowerUpType::Shield => "S"@,
                PowerUpType::ScatterShot => "*"@,
                PowerUpType::SpeedBoost => ">"@,
                PowerUpType::Damage => "!"@,
            },
    {
        match self.power_type {
            PowerUpType::Health => "+",
            PowerUpType::Shield => "S",
            PowerUpType::ScatterShot => "*",
            PowerUpType::SpeedBoost => ">",
            PowerUpType::Damage => "!",
        }
    }
}

} // verus!
