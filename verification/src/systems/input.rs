//! Turning the player's intent into movement, facing and shots.
use crate::entities::bullet::Bullet;
use crate::entities::tank::Tank;
use crate::entities::{direction_cos, direction_sin, Angle, Velocity};
use crate::fixed::{
    abs, align, aligned, lemma_aligned_within, lemma_scaled_within, lemma_trunc_div_bound,
    magnitude, min, mul_div, scaled, COORD_MAX, DT_MAX, SPEED_MAX, TIME_MAX, UNIT, VELOCITY_MAX,
};
use vstd::prelude::*;

verus! {

/// Gain of speed per second while the player speeds up.
pub const ACCELERATION: i64 = 1_200_000;

/// Loss of speed per second while the player slows down.
pub const DECELERATION: i64 = 1_500_000;

/// A velocity component this close to its target takes the target's value at once.
pub const SNAP: i64 = 100;

/// How far in front of an agent's centre its projectiles start, beyond its radius.
pub const MUZZLE_MARGIN: i64 = 5000;

/// What the player asks for in one tick.
#[derive(Clone, Copy, Debug, PartialEq, Eq)]
pub struct InputIntent {
    /// Desired movement along x, in thousandths, from -1000 (left) to 1000 (right).
    pub move_x: i64,
    /// Desired movement along y, in thousandths, from -1000 (up) to 1000 (down).
    pub move_y: i64,
    /// Where to face; without it the tank faces the way it is asked to move.
    pub aim: Option<Angle>,
    /// The fire control is held down.
    pub fire: bool,
}

impl InputIntent {
    /// Both axes lie between minus one and one, and an aim given is a valid angle.
    pub open spec fn wf(&self) -> bool {
        &&& -1000 <= self.move_x <= 1000
        &&& -1000 <= self.move_y <= 1000
        &&& match self.aim {
            Some(a) => a.wf(),
            None => true,
        }
    }

    /// Checks that every number lies within its limit.
    pub fn is_well_formed(&self) -> (b: bool)
        ensures
            b == self.wf(),
    {
        -1000 <= self.move_x && self.move_x <= 1000 && -1000 <= self.move_y && self.move_y
            <= 1000 && match self.aim {
            Some(a) => a.is_well_formed(),
            None => true,
        }
    }

    /// The intent of a player who touches nothing.
    pub fn idle() -> (i: Self)
        ensures
            i == (InputIntent { move_x: 0, move_y: 0, aim: None, fire: false }),
            i.wf(),
    {
        Self { move_x: 0, move_y: 0, aim: None, fire: false }
    }
}

/// The velocity that the intent asks for: the tank's full speed along the movement
/// axes, whatever their length, or rest where both are zero.
pub open spec fn target_velocity(t: Tank, intent: InputIntent) -> Velocity {
    if intent.move_x != 0 || intent.move_y != 0 {
        Velocity {
            x: aligned(intent.move_x as int, intent.move_y as int, t.speed as int).0 as i64,
            y: aligned(intent.move_x as int, intent.move_y as int, t.speed as int).1 as i64,
        }
    } else {
        Velocity { x: 0, y: 0 }
    }
}

/// No intent asks for more than the tank's speed, on a diagonal as little as along an
/// axis; and an intent along one axis asks for that speed exactly.
pub proof fn lemma_target_within_speed(t: Tank, intent: InputIntent)
    requires
        t.wf(),
    ensures
        target_velocity(t, intent).x * target_velocity(t, intent).x + target_velocity(
            t,
            intent,
        ).y * target_velocity(t, intent).y <= t.speed * t.speed,
        intent.move_y == 0 && intent.move_x > 0 ==> target_velocity(t, intent) == (Velocity {
            x: t.speed,
            y: 0,
        }),
        intent.move_y == 0 && intent.move_x < 0 ==> target_velocity(t, intent) == (Velocity {
            x: (-t.speed) as i64,
            y: 0,
        }),
        intent.move_x == 0 && intent.move_y > 0 ==> target_velocity(t, intent) == (Velocity {
            x: 0,
            y: t.speed,
        }),
        intent.move_x == 0 && intent.move_y < 0 ==> target_velocity(t, intent) == (Velocity {
            x: 0,
            y: (-t.speed) as i64,
        }),
{
    if intent.move_x != 0 || intent.move_y != 0 {
        lemma_aligned_within(intent.move_x as int, intent.move_y as int, t.speed as int);
    } else {
        assert(0 <= t.speed * t.speed) by (nonlinear_arith);
    }
}

/// A velocity component after `dt` milliseconds of easing toward `target`: it changes by
/// no more than the acceleration allows, or the deceleration where the target is the
/// slower, and never passes the target.
pub open spec fn eased(v: int, target: int, dt: int) -> int {
    let diff = target - v;
    if abs(diff) > SNAP {
        let rate = if abs(target) > abs(v) {
            ACCELERATION as int
        } else {
            DECELERATION as int
        };
        let change = min(scaled(rate, dt, UNIT as int), abs(diff));
        if diff > 0 {
            v + change
        } else {
            v - change
        }
    } else {
        target
    }
}

/// The way the tank faces after the intent: the aim if one is given, else the
/// direction of the movement axes, else the way it faced.
pub open spec fn facing(t: Tank, intent: InputIntent) -> Angle {
    match intent.aim {
        Some(a) => a,
        None => if intent.move_x != 0 || intent.move_y != 0 {
            Angle {
                cos: direction_cos(intent.move_x as int, intent.move_y as int) as i64,
                sin: direction_sin(intent.move_x as int, intent.move_y as int) as i64,
            }
        } else {
            t.angle
        },
    }
}

/// The tank fires in this tick: the fire control is down and the cooldown is over.
pub open spec fn fires(t: Tank, intent: InputIntent, now: i64) -> bool {
    intent.fire && t.ready(now)
}

/// The tank after the intent has acted on it for `dt` milliseconds.
pub open spec fn commanded(t: Tank, intent: InputIntent, dt: i64, now: i64) -> Tank {
    let target = target_velocity(t, intent);
    Tank {
        velocity: Velocity {
            x: eased(t.velocity.x as int, target.x as int, dt as int) as i64,
            y: eased(t.velocity.y as int, target.y as int, dt as int) as i64,
        },
        angle: facing(t, intent),
        last_shot: if fires(t, intent, now) {
            now
        } else {
            t.last_shot
        },
        ..t
    }
}

/// The turn, relative to the facing, of projectile `i` of a scatter shot: from 0.3
/// radians to one side over none to 0.3 radians to the other, in steps of 0.15.
pub open spec fn spread(i: int) -> Angle {
    if i == 0 {
        Angle { cos: 955, sin: -296i64 }
    } else if i == 1 {
        Angle { cos: 989, sin: -149i64 }
    } else if i == 2 {
        Angle { cos: 1000, sin: 0 }
    } else if i == 3 {
        Angle { cos: 989, sin: 149 }
    } else {
        Angle { cos: 955, sin: 296 }
    }
}

/// X coordinate of the point where the tank's projectiles start.
pub open spec fn muzzle_x(t: Tank) -> int {
    t.position.x + scaled(t.angle.cos as int, t.size + MUZZLE_MARGIN, UNIT as int)
}

/// Y coordinate of the point where the tank's projectiles start.
pub open spec fn muzzle_y(t: Tank) -> int {
    t.position.y + scaled(t.angle.sin as int, t.size + MUZZLE_MARGIN, UNIT as int)
}

/// The projectiles of one shot of the player's tank: five of a scatter shot, or one.
pub open spec fn volley(t: Tank) -> Seq<Bullet> {
    if t.scatter_shot {
        Seq::new(
            5,
            |i: int|
                Bullet::scattered(muzzle_x(t) as i64, muzzle_y(t) as i64, t.angle, spread(i), true),
        )
    } else {
        seq![Bullet::shot(muzzle_x(t) as i64, muzzle_y(t) as i64, t.angle, true)]
    }
}

/// Every projectile of the set is well formed.
pub open spec fn volley_wf(bullets: Seq<Bullet>) -> bool {
    forall|i: int| 0 <= i < bullets.len() ==> #[trigger] bullets[i].wf()
}

fn spread_angle(i: usize) -> (a: Angle)
    ensures
        a == spread(i as int),
        a.wf(),
{
    if i == 0 {
        Angle { cos: 955, sin: -296 }
    } else if i == 1 {
        Angle { cos: 989, sin: -149 }
    } else if i == 2 {
        Angle { cos: 1000, sin: 0 }
    } else if i == 3 {
        Angle { cos: 989, sin: 149 }
    } else {
        Angle { cos: 955, sin: 296 }
    }
}

/// Eases one velocity component toward its target.
fn ease(v: i64, target: i64, dt: i64) -> (r: i64)
    requires
        abs(v as int) <= VELOCITY_MAX,
        abs(target as int) <= SPEED_MAX,
        0 <= dt <= DT_MAX,
    ensures
        r == eased(v as int, target as int, dt as int),
        abs(r as int) <= VELOCITY_MAX,
{
    let vel_diff = target - v;
    if magnitude(vel_diff) > SNAP {
        let accel_rate = if magnitude(target) > magnitude(v) {
            ACCELERATION
        } else {
            DECELERATION
        };
        proof {
            assert(0 <= accel_rate * dt <= 15_000_000 * 1000) by (nonlinear_arith)
                requires
                    0 <= accel_rate <= 1_500_000,
                    0 <= dt <= 10_000,
            ;
            lemma_trunc_div_bound(accel_rate * dt, UNIT as int, 15_000_000);
        }
        let max_change = mul_div(accel_rate, dt, UNIT);
        let change = if max_change <= magnitude(vel_diff) {
            max_change
        } else {
            magnitude(vel_diff)
        };
        if vel_diff > 0 {
            v + change
        } else {
            v - change
        }
    } else {
        target
    }
}

/// Creates the projectiles of one shot of the player's tank.
pub fn fire_volley(tank: &Tank) -> (bullets: Vec<Bullet>)
    requires
        tank.wf(),
    ensures
        bullets@ == volley(*tank),
        volley_wf(bullets@),
{
    proof {
        lemma_scaled_within(tank.angle.cos as int, tank.size + MUZZLE_MARGIN, UNIT as int);
        lemma_scaled_within(tank.angle.sin as int, tank.size + MUZZLE_MARGIN, UNIT as int);
    }
    let bullet_x = tank.position.x + mul_div(tank.angle.cos, tank.size + MUZZLE_MARGIN, UNIT);
    let bullet_y = tank.position.y + mul_div(tank.angle.sin, tank.size + MUZZLE_MARGIN, UNIT);
    let mut bullets: Vec<Bullet> = Vec::new();
    if tank.scatter_shot {
        let mut i: usize = 0;
        while i < 5
            invariant
                0 <= i <= 5,
                tank.wf(),
                bullet_x == muzzle_x(*tank),
                bullet_y == muzzle_y(*tank),
                abs(bullet_x as int) <= COORD_MAX,
                abs(bullet_y as int) <= COORD_MAX,
                bullets@.len() == i,
                volley_wf(bullets@),
                forall|j: int|
                    0 <= j < i ==> #[trigger] bullets@[j] == Bullet::scattered(
                        bullet_x,
                        bullet_y,
                        tank.angle,
                        spread(j),
                        true,
                    ),
            decreases 5 - i,
        {
            bullets.push(
                Bullet::new_scatter(bullet_x, bullet_y, tank.angle, spread_angle(i), true),
            );
            i += 1;
        }
        proof {
            assert(bullets@ =~= volley(*tank));
        }
    } else {
        bullets.push(Bullet::new(bullet_x, bullet_y, tank.angle, true));
        proof {
            assert(bullets@ =~= volley(*tank));
        }
    }
    bullets
}

/// Applies the player's intent for one tick: eases the velocity toward what the
/// movement axes ask for, turns the tank, and fires if asked and ready. Returns the
/// projectiles fired, which is none, one, or the five of a scatter shot.
pub fn handle_player_input(player_tank: &mut Tank, intent: &InputIntent, dt: i64, now: i64) -> (bullets:
    Vec<Bullet>)
    requires
        old(player_tank).wf(),
        intent.wf(),
        0 <= dt <= DT_MAX,
        0 <= now <= TIME_MAX,
    ensures
        *final(player_tank) == commanded(*old(player_tank), *intent, dt, now),
        bullets@ == if fires(*old(player_tank), *intent, now) {
            volley(*final(player_tank))
        } else {
            Seq::<Bullet>::empty()
        },
        final(player_tank).wf(),
        volley_wf(bullets@),
{
    let move_x = intent.move_x;
    let move_y = intent.move_y;
    let moving = move_x != 0 || move_y != 0;
    let target_velocity_x;
    let target_velocity_y;
    if moving {
        let target = align(move_x, move_y, player_tank.speed);
        target_velocity_x = target.0;
        target_velocity_y = target.1;
    } else {
        target_velocity_x = 0;
        target_velocity_y = 0;
    }
    player_tank.velocity.x = ease(player_tank.velocity.x, target_velocity_x, dt);
    player_tank.velocity.y = ease(player_tank.velocity.y, target_velocity_y, dt);
    match intent.aim {
        Some(aim) => {
            player_tank.angle = aim;
        },
        None => {
            if moving {
                player_tank.angle = Angle::toward(move_x, move_y);
            }
        },
    }
    if intent.fire && player_tank.can_shoot(now) {
        player_tank.shoot(now);
        fire_volley(player_tank)
    } else {
        Vec::new()
    }
}

} // verus!
