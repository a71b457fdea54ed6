//! Agents: the player's tank and the hostile tanks, with their kinematics.
use super::bullet::lemma_step_bound;
use super::obstacle::Obstacle;
use super::{Angle, Arena, Position, Velocity};
use crate::fixed::{
    abs, clamp, magnitude, max, mul_div, sat_i32, saturate_i32, scaled, AGENT_MAX, DT_MAX,
    OFFSET_MAX, SIZE_MAX, SPEED_MAX, TIME_MAX, UNIT,
};
use vstd::prelude::*;

verus! {

/// A temporary protection against all damage.
#[derive(Clone, Copy, Debug, PartialEq, Eq, Structural)]
pub struct Shield {
    /// How long the shield lasts, in milliseconds.
    pub duration: i64,
    /// When the shield was raised.
    pub start_time: i64,
}

impl Shield {
    /// More than `duration` has passed since `start_time`.
    pub open spec fn expired(&self, now: i64) -> bool {
        now - self.start_time > self.duration
    }
}

/// An agent: the player's tank or a hostile one.
#[derive(Clone, Copy, Debug, PartialEq, Eq)]
pub struct Tank {
    pub position: Position,
    pub velocity: Velocity,
    /// The way the tank faces, which is the way it fires.
    pub angle: Angle,
    pub health: i32,
    pub max_health: i32,
    /// The radius of the circle that stands for the tank in collisions.
    pub size: i64,
    /// The speed that the tank's own steering asks for at most.
    pub speed: i64,
    pub shield: Option<Shield>,
    /// When the tank last fired.
    pub last_shot: i64,
    /// How long the tank waits between two shots, in milliseconds.
    pub shot_cooldown: i64,
    pub is_player: bool,
    /// The tank fires five lesser projectiles at once.
    pub scatter_shot: bool,
}

/// Where a move to `target` ends on one axis: at least `size` away from both ends of
/// `0..=extent`, the near end taking precedence.
pub open spec fn bounded(target: int, size: int, extent: int) -> int {
    if target - size < 0 {
        size
    } else if target + size > extent {
        extent - size
    } else {
        target
    }
}

/// Every obstacle of the field is well formed.
pub open spec fn field_wf(obstacles: Seq<Obstacle>) -> bool {
    forall|i: int| 0 <= i < obstacles.len() ==> #[trigger] obstacles[i].wf()
}

/// A square of half-width `size` around `(x, y)` overlaps the rectangle of `o`.
pub open spec fn blocks(o: Obstacle, x: int, y: int, size: int) -> bool {
    &&& abs(x - o.center_x()) < size + o.width / 2
    &&& abs(y - o.center_y()) < size + o.height / 2
}

/// Some obstacle of the field blocks an agent of half-width `size` at `(x, y)`.
pub open spec fn blocked(obstacles: Seq<Obstacle>, x: int, y: int, size: int) -> bool {
    exists|i: int| 0 <= i < obstacles.len() && blocks(#[trigger] obstacles[i], x, y, size)
}

impl Tank {
    /// Every number of the agent lies within its limit, and the health does not exceed
    /// its maximum.
    pub open spec fn wf(&self) -> bool {
        &&& abs(self.position.x as int) <= AGENT_MAX
        &&& abs(self.position.y as int) <= AGENT_MAX
        &&& self.velocity.wf()
        &&& self.angle.wf()
        &&& 0 <= self.health <= self.max_health
        &&& 0 <= self.size <= SIZE_MAX
        &&& 0 <= self.speed <= SPEED_MAX
        &&& 0 <= self.last_shot <= TIME_MAX
        &&& 0 <= self.shot_cooldown <= TIME_MAX
    }

    /// The agent lies in the arena, its whole radius away from every edge.
    pub open spec fn contained(&self, arena: &Arena) -> bool {
        arena.holds(self.position, self.size as int)
    }

    /// The cooldown since the last shot is over at `now`.
    pub open spec fn ready(&self, now: i64) -> bool {
        now - self.last_shot > self.shot_cooldown
    }

    /// X coordinate that the velocity reaches in `dt` milliseconds, before any bound.
    pub open spec fn target_x(&self, dt: i64) -> int {
        self.position.x + scaled(self.velocity.x as int, dt as int, UNIT as int)
    }

    /// Y coordinate that the velocity reaches in `dt` milliseconds, before any bound.
    pub open spec fn target_y(&self, dt: i64) -> int {
        self.position.y + scaled(self.velocity.y as int, dt as int, UNIT as int)
    }

    /// The agent with its shield dropped if that has expired at `now`.
    pub open spec fn shield_checked(&self, now: i64) -> Tank {
        match self.shield {
            Some(s) if s.expired(now) => Tank { shield: None, ..*self },
            _ => *self,
        }
    }

    /// The agent after `dt` milliseconds of movement bounded by the arena alone: an axis
    /// that meets an edge stops there and loses its velocity.
    pub open spec fn moved(&self, dt: i64, arena: &Arena, now: i64) -> Tank {
        let tx = self.target_x(dt);
        let ty = self.target_y(dt);
        let nx = bounded(tx, self.size as int, arena.width as int);
        let ny = bounded(ty, self.size as int, arena.height as int);
        Tank {
            position: Position { x: nx as i64, y: ny as i64 },
            velocity: Velocity {
                x: if nx == tx { self.velocity.x } else { 0 },
                y: if ny == ty { self.velocity.y } else { 0 },
            },
            ..self.shield_checked(now)
        }
    }

    /// The agent after `dt` milliseconds of movement bounded by the arena and the
    /// obstacles. Each axis moves by itself, x first; an axis that an obstacle blocks
    /// stays and loses its velocity. If neither axis moved, the diagonal move is taken
    /// where it is free.
    pub open spec fn moved_safely(&self, dt: i64, obstacles: Seq<Obstacle>, arena: &Arena) -> Tank {
        let size = self.size as int;
        let nx = bounded(self.target_x(dt), size, arena.width as int);
        let ny = bounded(self.target_y(dt), size, arena.height as int);
        let x_free = !blocked(obstacles, nx, self.position.y as int, size);
        let x1 = if x_free { nx } else { self.position.x as int };
        let y_free = !blocked(obstacles, x1, ny, size);
        let y1 = if y_free { ny } else { self.position.y as int };
        let diagonal = x1 == self.position.x && y1 == self.position.y && !blocked(
            obstacles,
            nx,
            ny,
            size,
        );
        Tank {
            position: if diagonal {
                Position { x: nx as i64, y: ny as i64 }
            } else {
                Position { x: x1 as i64, y: y1 as i64 }
            },
            velocity: Velocity {
                x: if x_free { self.velocity.x } else { 0 },
                y: if y_free { self.velocity.y } else { 0 },
            },
            ..*self
        }
    }

    /// The agent after a hit of `damage`: unchanged under a shield, and otherwise with
    /// that much less health, but never less than none.
    pub open spec fn damaged(&self, damage: i32) -> Tank {
        if self.shield.is_some() {
            *self
        } else {
            Tank { health: max(sat_i32(self.health - damage), 0) as i32, ..*self }
        }
    }

    /// A hit of `damage` brings the agent's health to zero or below.
    pub open spec fn destroyed_by(&self, damage: i32) -> bool {
        self.shield.is_none() && self.health - damage <= 0
    }

    /// The agent after the hits `damages`, applied in order.
    pub open spec fn after_hits(&self, damages: Seq<i32>) -> Tank
        decreases damages.len(),
    {
        if damages.len() == 0 {
            *self
        } else {
            self.after_hits(damages.drop_last()).damaged(damages.last())
        }
    }

    /// None of the hits `damages` destroys the agent.
    pub open spec fn withstands(&self, damages: Seq<i32>) -> bool
        decreases damages.len(),
    {
        if damages.len() == 0 {
            true
        } else {
            &&& self.withstands(damages.drop_last())
            &&& !self.after_hits(damages.drop_last()).destroyed_by(damages.last())
        }
    }

    /// The agent after gaining `amount` of health, which stays between none and the
    /// maximum.
    pub open spec fn healed(&self, amount: i32) -> Tank {
        Tank {
            health: clamp(sat_i32(self.health + amount), 0, self.max_health as int) as i32,
            ..*self
        }
    }

    /// The player's tank, new at `(x, y)`.
    pub open spec fn player_at(x: i64, y: i64) -> Tank {
        Tank {
            position: Position { x, y },
            velocity: Velocity { x: 0, y: 0 },
            angle: Angle { cos: UNIT, sin: 0 },
            health: 200,
            max_health: 200,
            size: 20_000,
            speed: 250_000,
            shield: None,
            last_shot: 0,
            shot_cooldown: 250,
            is_player: true,
            scatter_shot: false,
        }
    }

    /// A hostile tank, new at `(x, y)`, before any scaling by difficulty.
    pub open spec fn enemy_at(x: i64, y: i64) -> Tank {
        Tank {
            position: Position { x, y },
            velocity: Velocity { x: 0, y: 0 },
            angle: Angle { cos: UNIT, sin: 0 },
            health: 50,
            max_health: 50,
            size: 18_000,
            speed: 80_000,
            shield: None,
            last_shot: 0,
            shot_cooldown: 1000,
            is_player: false,
            scatter_shot: false,
        }
    }

    /// The player's tank, new at `(x, y)`.
    pub fn new_player(x: i64, y: i64) -> (t: Self)
        ensures
            t == Self::player_at(x, y),
    {
        Self {
            position: Position::new(x, y),
            velocity: Velocity::new(0, 0),
            angle: Angle::zero(),
            health: 200,
            max_health: 200,
            size: 20_000,
            speed: 250_000,
            shield: None,
            last_shot: 0,
            shot_cooldown: 250,
            is_player: true,
            scatter_shot: false,
        }
    }

    /// A hostile tank, new at `(x, y)`, before any scaling by difficulty.
    pub fn new_enemy(x: i64, y: i64) -> (t: Self)
        ensures
            t == Self::enemy_at(x, y),
    {
        Self {
            position: Position::new(x, y),
            velocity: Velocity::new(0, 0),
            angle: Angle::zero(),
            health: 50,
            max_health: 50,
            size: 18_000,
            speed: 80_000,
            shield: None,
            last_shot: 0,
            shot_cooldown: 1000,
            is_player: false,
            scatter_shot: false,
        }
    }

    /// Checks that every number lies within its limit.
    pub fn is_well_formed(&self) -> (b: bool)
        ensures
            b == self.wf(),
    {
        -AGENT_MAX <= self.position.x && self.position.x <= AGENT_MAX && -AGENT_MAX
            <= self.position.y && self.position.y <= AGENT_MAX && self.velocity.is_well_formed()
            && self.angle.is_well_formed() && 0 <= self.health && self.health <= self.max_health
            && 0 <= self.size
            && self.size <= SIZE_MAX && 0 <= self.speed && self.speed <= SPEED_MAX && 0
            <= self.last_shot && self.last_shot <= TIME_MAX && 0 <= self.shot_cooldown
            && self.shot_cooldown <= TIME_MAX
    }

    /// Drops the shield once more than its duration has passed since it was raised.
    pub fn expire_shield(&mut self, now: i64)
        ensures
            *final(self) == old(self).shield_checked(now),
    {
        if let Some(shield) = self.shield {
            if now as i128 - shield.start_time as i128 > shield.duration as i128 {
                self.shield = None;
            }
        }
    }

    /// Moves by the velocity for `dt` milliseconds inside the arena, then checks the shield.
    pub fn update(&mut self, dt: i64, arena: &Arena, now: i64)
        requires
            old(self).wf(),
            arena.wf(),
            0 <= dt <= DT_MAX,
        ensures
            *final(self) == old(self).moved(dt, arena, now),
            final(self).wf(),
            arena.width >= 2 * old(self).size ==> old(self).size <= final(self).position.x
                <= arena.width - old(self).size,
            arena.height >= 2 * old(self).size ==> old(self).size <= final(self).position.y
                <= arena.height - old(self).size,
    {
        proof {
            lemma_step_bound(self.velocity.x as int, dt as int);
            lemma_step_bound(self.velocity.y as int, dt as int);
        }
        let new_x = self.position.x + mul_div(self.velocity.x, dt, UNIT);
        let new_y = self.position.y + mul_div(self.velocity.y, dt, UNIT);
        let mut final_x = new_x;
        let mut final_y = new_y;
        if new_x - self.size < 0 {
            final_x = self.size;
            self.velocity.x = 0;
        } else if new_x + self.size > arena.width {
            final_x = arena.width - self.size;
            self.velocity.x = 0;
        }
        if new_y - self.size < 0 {
            final_y = self.size;
            self.velocity.y = 0;
        } else if new_y + self.size > arena.height {
            final_y = arena.height - self.size;
            self.velocity.y = 0;
        }
        self.position.x = final_x;
        self.position.y = final_y;
        self.expire_shield(now);
    }

    /// Would an agent of this size, placed at `(new_x, new_y)`, overlap an obstacle?
    pub fn would_collide_with_obstacles(&self, new_x: i64, new_y: i64, obstacles: &[Obstacle]) -> (b: bool)
        requires
            0 <= self.size <= SIZE_MAX,
            abs(new_x as int) <= OFFSET_MAX,
            abs(new_y as int) <= OFFSET_MAX,
            field_wf(obstacles@),
        ensures
            b == blocked(obstacles@, new_x as int, new_y as int, self.size as int),
    {
        let mut i: usize = 0;
        while i < obstacles.len()
            invariant
                0 <= i <= obstacles.len(),
                0 <= self.size <= SIZE_MAX,
                abs(new_x as int) <= OFFSET_MAX,
                abs(new_y as int) <= OFFSET_MAX,
                field_wf(obstacles@),
                forall|j: int| 0 <= j < i ==> !blocks(#[trigger] obstacles@[j], new_x as int, new_y as int, self.size as int),
            decreases obstacles.len() - i,
        {
            let obstacle = &obstacles[i];
            assert(obstacles@[i as int].wf());
            let distance_x = magnitude(new_x - (obstacle.position.x + obstacle.width / 2));
            let distance_y = magnitude(new_y - (obstacle.position.y + obstacle.height / 2));
            if distance_x < self.size + obstacle.width / 2 && distance_y < self.size
                + obstacle.height / 2 {
                return true;
            }
            i += 1;
        }
        false
    }

    /// Moves by the velocity for `dt` milliseconds without entering the arena's edge or
    /// any obstacle, sliding along what blocks one axis only.
    pub fn safe_move(&mut self, dt: i64, obstacles: &[Obstacle], arena: &Arena)
        requires
            old(self).wf(),
            arena.wf(),
            0 <= dt <= DT_MAX,
            field_wf(obstacles@),
        ensures
            *final(self) == old(self).moved_safely(dt, obstacles@, arena),
            final(self).wf(),
            old(self).contained(arena) ==> final(self).contained(arena),
    {
        proof {
            lemma_step_bound(self.velocity.x as int, dt as int);
            lemma_step_bound(self.velocity.y as int, dt as int);
        }
        let start_x = self.position.x;
        let start_y = self.position.y;
        let target_x = self.position.x + mul_div(self.velocity.x, dt, UNIT);
        let target_y = self.position.y + mul_div(self.velocity.y, dt, UNIT);
        let mut new_x = target_x;
        let mut new_y = target_y;
        if new_x - self.size < 0 {
            new_x = self.size;
        } else if new_x + self.size > arena.width {
            new_x = arena.width - self.size;
        }
        if new_y - self.size < 0 {
            new_y = self.size;
        } else if new_y + self.size > arena.height {
            new_y = arena.height - self.size;
        }
        if !self.would_collide_with_obstacles(new_x, start_y, obstacles) {
            self.position.x = new_x;
        } else {
            self.velocity.x = 0;
        }
        if !self.would_collide_with_obstacles(self.position.x, new_y, obstacles) {
            self.position.y = new_y;
        } else {
            self.velocity.y = 0;
        }
        if self.position.x == start_x && self.position.y == start_y {
            if !self.would_collide_with_obstacles(new_x, new_y, obstacles) {
                self.position.x = new_x;
                self.position.y = new_y;
            }
        }
    }

    /// Has the cooldown since the last shot passed?
    pub fn can_shoot(&self, now: i64) -> (b: bool)
        ensures
            b == self.ready(now),
    {
        now as i128 - self.last_shot as i128 > self.shot_cooldown as i128
    }

    /// Records a shot at `now`, which starts the cooldown.
    pub fn shoot(&mut self, now: i64)
        ensures
            *final(self) == (Tank { last_shot: now, ..*old(self) }),
    {
        self.last_shot = now;
    }

    /// Applies a hit and reports whether it destroyed the agent. A shield absorbs the hit.
    pub fn take_damage(&mut self, damage: i32) -> (destroyed: bool)
        ensures
            *final(self) == old(self).damaged(damage),
            destroyed == old(self).destroyed_by(damage),
            old(self).shield.is_some() ==> *final(self) == *old(self) && !destroyed,
            old(self).wf() && damage >= 0 ==> final(self).wf(),
    {
        if self.shield.is_some() {
            return false;
        }
        let left = saturate_i32(self.health as i64 - damage as i64);
        self.health = if left > 0 {
            left
        } else {
            0
        };
        self.health <= 0
    }

    /// Restores `amount` of health, up to the maximum.
    pub fn heal(&mut self, amount: i32)
        ensures
            *final(self) == old(self).healed(amount),
            old(self).max_health >= 0 ==> 0 <= final(self).health <= final(self).max_health,
            old(self).wf() ==> final(self).wf(),
    {
        let raised = saturate_i32(self.health as i64 + amount as i64);
        self.health = if raised < 0 {
            0
        } else if raised > self.max_health {
            self.max_health
        } else {
            raised
        };
    }

    /// Raises a shield at `now` that lasts for `duration` milliseconds.
    pub fn add_shield(&mut self, duration: i64, now: i64)
        ensures
            *final(self) == (Tank {
                shield: Some(Shield { duration, start_time: now }),
                ..*old(self)
            }),
    {
        self.shield = Some(Shield { duration, start_time: now });
    }
}

/// Hits change nothing of an agent but its health, which they never raise and never
/// bring below zero.
pub proof fn lemma_hits_touch_health_only(t: Tank, damages: Seq<i32>)
    requires
        forall|i: int| 0 <= i < damages.len() ==> #[trigger] damages[i] >= 0,
    ensures
        t.after_hits(damages) == (Tank { health: t.after_hits(damages).health, ..t }),
        t.health >= 0 ==> 0 <= t.after_hits(damages).health <= t.health,
        t.wf() ==> t.after_hits(damages).wf(),
    decreases damages.len(),
{
    if damages.len() > 0 {
        lemma_hits_touch_health_only(t, damages.drop_last());
    }
}

/// Hits of any size change nothing of an agent but its health.
pub proof fn lemma_hits_change_health_only(t: Tank, damages: Seq<i32>)
    ensures
        t.after_hits(damages) == (Tank { health: t.after_hits(damages).health, ..t }),
    decreases damages.len(),
{
    if damages.len() > 0 {
        lemma_hits_change_health_only(t, damages.drop_last());
    }
}

/// A shielded agent comes out of any sequence of hits unchanged and undestroyed.
pub proof fn lemma_shield_absorbs(t: Tank, damages: Seq<i32>)
    requires
        t.shield.is_some(),
    ensures
        t.after_hits(damages) == t,
        t.withstands(damages),
    decreases damages.len(),
{
    if damages.len() > 0 {
        lemma_shield_absorbs(t, damages.drop_last());
    }
}

} // verus!
