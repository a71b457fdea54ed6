//! Projectiles: short-lived points that fly straight and expire.
use super::{Angle, Arena, Position, Velocity};
use crate::fixed::{
    abs, lemma_trunc_div_bound, mul_div, scaled, DT_MAX, SIZE_MAX, TIME_MAX, UNIT, VELOCITY_MAX,
};
use vstd::prelude::*;

verus! {

/// Speed of an ordinary projectile.
pub const BULLET_SPEED: i64 = 300_000;

/// Speed of a projectile of a scatter shot.
pub const SCATTER_SPEED: i64 = 250_000;

/// A projectile: where it is and how it moves, what it does on impact, whose it is, and
/// how old it is and may become.
#[derive(Clone, Copy, Debug, PartialEq, Eq, Structural)]
pub struct Bullet {
    pub position: Position,
    pub velocity: Velocity,
    /// The health that a hit takes.
    pub damage: i32,
    /// The radius of the projectile.
    pub size: i64,
    /// The player fired it; otherwise a hostile agent did.
    pub from_player: bool,
    /// The age of the projectile, in milliseconds.
    pub lifetime: i64,
    /// The age at which the projectile expires.
    pub max_lifetime: i64,
}

/// Sum of the time steps `dts`.
pub open spec fn elapsed(dts: Seq<i64>) -> int
    decreases dts.len(),
{
    if dts.len() == 0 {
        0
    } else {
        elapsed(dts.drop_last()) + dts.last()
    }
}

impl Bullet {
    /// Every number of the projectile lies within its limit, and the damage is not negative.
    pub open spec fn wf(&self) -> bool {
        &&& self.position.wf()
        &&& self.velocity.wf()
        &&& self.damage >= 0
        &&& 0 <= self.size <= SIZE_MAX
        &&& 0 <= self.lifetime <= TIME_MAX
        &&& 0 <= self.max_lifetime <= TIME_MAX
    }

    /// The projectile after flying for `dt` milliseconds.
    pub open spec fn advanced(&self, dt: i64) -> Bullet {
        Bullet {
            position: Position {
                x: (self.position.x + scaled(self.velocity.x as int, dt as int, UNIT as int)) as i64,
                y: (self.position.y + scaled(self.velocity.y as int, dt as int, UNIT as int)) as i64,
            },
            lifetime: (self.lifetime + dt) as i64,
            ..*self
        }
    }

    /// The projectile is inside the arena, edges included, and younger than its maximum age.
    pub open spec fn active(&self, arena: &Arena) -> bool {
        &&& arena.holds(self.position, 0)
        &&& self.lifetime < self.max_lifetime
    }

    /// The projectile stays active through every one of the steps `dts`.
    pub open spec fn survives(&self, dts: Seq<i64>, arena: &Arena) -> bool
        decreases dts.len(),
    {
        if dts.len() == 0 {
            true
        } else {
            &&& self.survives(dts.drop_last(), arena)
            &&& self.flown(dts).active(arena)
        }
    }

    /// The projectile after all the steps `dts`.
    pub open spec fn flown(&self, dts: Seq<i64>) -> Bullet
        decreases dts.len(),
    {
        if dts.len() == 0 {
            *self
        } else {
            self.flown(dts.drop_last()).advanced(dts.last())
        }
    }

    /// The circle of `radius` around `pos` overlaps the projectile.
    pub open spec fn touches_circle(&self, pos: &Position, radius: int) -> bool {
        self.position.dist(pos) < self.size + radius
    }

    /// An ordinary projectile that leaves `(x, y)` along `angle`.
    pub open spec fn shot(x: i64, y: i64, angle: Angle, from_player: bool) -> Bullet {
        Bullet {
            position: Position { x, y },
            velocity: Velocity {
                x: scaled(angle.cos as int, BULLET_SPEED as int, UNIT as int) as i64,
                y: scaled(angle.sin as int, BULLET_SPEED as int, UNIT as int) as i64,
            },
            damage: 25,
            size: 3000,
            from_player,
            lifetime: 0,
            max_lifetime: 3000,
        }
    }

    /// One projectile of a scatter shot, which leaves `(x, y)` along `angle` turned by
    /// `spread`: slower, smaller, weaker and shorter-lived than an ordinary one.
    pub open spec fn scattered(x: i64, y: i64, angle: Angle, spread: Angle, from_player: bool) -> Bullet {
        Bullet {
            position: Position { x, y },
            velocity: Velocity {
                x: scaled(angle.turned(&spread).cos as int, SCATTER_SPEED as int, UNIT as int) as i64,
                y: scaled(angle.turned(&spread).sin as int, SCATTER_SPEED as int, UNIT as int) as i64,
            },
            damage: 15,
            size: 2500,
            from_player,
            lifetime: 0,
            max_lifetime: 2500,
        }
    }

    /// An ordinary projectile that leaves `(x, y)` along `angle`.
    pub fn new(x: i64, y: i64, angle: Angle, from_player: bool) -> (b: Self)
        requires
            angle.wf(),
        ensures
            b == Self::shot(x, y, angle, from_player),
            b.velocity.wf(),
            (Position { x, y }).wf() ==> b.wf(),
    {
        Self {
            position: Position::new(x, y),
            velocity: Velocity::from_angle(angle, BULLET_SPEED),
            damage: 25,
            size: 3000,
            from_player,
            lifetime: 0,
            max_lifetime: 3000,
        }
    }

    /// One projectile of a scatter shot, turned by `spread` from the facing `angle`.
    pub fn new_scatter(x: i64, y: i64, angle: Angle, spread: Angle, from_player: bool) -> (b: Self)
        requires
            angle.wf(),
            spread.wf(),
        ensures
            b == Self::scattered(x, y, angle, spread, from_player),
            b.velocity.wf(),
            (Position { x, y }).wf() ==> b.wf(),
    {
        let actual_angle = angle.rotated(&spread);
        Self {
            position: Position::new(x, y),
            velocity: Velocity::from_angle(actual_angle, SCATTER_SPEED),
            damage: 15,
            size: 2500,
            from_player,
            lifetime: 0,
            max_lifetime: 2500,
        }
    }

    /// Checks that every number lies within its limit.
    pub fn is_well_formed(&self) -> (b: bool)
        ensures
            b == self.wf(),
    {
        self.position.is_well_formed() && self.velocity.is_well_formed() && self.damage >= 0 && 0
            <= self.size && self.size <= SIZE_MAX && 0 <= self.lifetime && self.lifetime
            <= TIME_MAX && 0 <= self.max_lifetime && self.max_lifetime <= TIME_MAX
    }

    /// Moves and ages the projectile, and reports whether it stays in play.
    pub fn update(&mut self, dt: i64, arena: &Arena) -> (alive: bool)
        requires
            old(self).wf(),
            arena.wf(),
            0 <= dt <= DT_MAX,
        ensures
            *final(self) == old(self).advanced(dt),
            alive == final(self).active(arena),
            alive ==> final(self).wf(),
    {
        proof {
            lemma_step_bound(self.velocity.x as int, dt as int);
            lemma_step_bound(self.velocity.y as int, dt as int);
        }
        self.position.x = self.position.x + mul_div(self.velocity.x, dt, UNIT);
        self.position.y = self.position.y + mul_div(self.velocity.y, dt, UNIT);
        self.lifetime = self.lifetime + dt;
        self.position.x >= 0 && self.position.x <= arena.width && self.position.y >= 0
            && self.position.y <= arena.height && self.lifetime < self.max_lifetime
    }

    /// Does the circle of `radius` around `pos` overlap the projectile?
    pub fn collides_with_circle(&self, pos: &Position, radius: i64) -> (b: bool)
        requires
            self.wf(),
            pos.wf(),
        ensures
            b == self.touches_circle(pos, radius as int),
    {
        self.position.distance_to(pos) - self.size < radius
    }
}

/// A velocity component moves a point by at most two hundred million thousandths in one
/// tick.
pub proof fn lemma_step_bound(v: int, dt: int)
    requires
        -VELOCITY_MAX <= v <= VELOCITY_MAX,
        0 <= dt <= DT_MAX,
    ensures
        -200_000_000 <= scaled(v, dt, UNIT as int) <= 200_000_000,
{
    assert(abs(v * dt) <= 200_000_000 * 1000) by (nonlinear_arith)
        requires
            -20_000_000 <= v <= 20_000_000,
            0 <= dt <= 10_000,
    ;
    lemma_trunc_div_bound(v * dt, UNIT as int, 200_000_000);
}

/// A projectile is out of play once the time steps applied to it add up to what was left
/// of its maximum age, whatever its velocity.
pub proof fn lemma_projectile_expires(b: Bullet, dts: Seq<i64>, arena: Arena)
    requires
        b.wf(),
        arena.wf(),
        forall|i: int| 0 <= i < dts.len() ==> 0 <= #[trigger] dts[i] <= DT_MAX,
        dts.len() > 0,
        b.lifetime + elapsed(dts) >= b.max_lifetime,
    ensures
        !b.survives(dts, &arena),
    decreases dts.len(),
{
    let head = dts.drop_last();
    if b.survives(head, &arena) {
        lemma_survivor_age(b, head, arena);
        assert(b.flown(dts).lifetime == b.lifetime + elapsed(dts));
    }
}

/// While a projectile survives, its age is its first age plus the time elapsed, and
/// nothing but its position and age has changed.
pub proof fn lemma_survivor_age(b: Bullet, dts: Seq<i64>, arena: Arena)
    requires
        b.wf(),
        arena.wf(),
        forall|i: int| 0 <= i < dts.len() ==> 0 <= #[trigger] dts[i] <= DT_MAX,
        b.survives(dts, &arena),
    ensures
        b.flown(dts).lifetime == b.lifetime + elapsed(dts),
        b.flown(dts).max_lifetime == b.max_lifetime,
        b.flown(dts).wf(),
    decreases dts.len(),
{
    if dts.len() > 0 {
        let head = dts.drop_last();
        lemma_survivor_age(b, head, arena);
        let before = b.flown(head);
        lemma_step_bound(before.velocity.x as int, dts.last() as int);
        lemma_step_bound(before.velocity.y as int, dts.last() as int);
    }
}

} // verus!
