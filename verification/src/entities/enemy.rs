//! The decision model of a hostile agent: how it steers, aims and decides to fire.
use super::bullet::BULLET_SPEED;
use super::obstacle::Obstacle;
use super::tank::{field_wf, Tank};
use super::{direction_cos, direction_sin, Angle, Arena, Position, Velocity};
use crate::fixed::{
    abs, align, aligned, clamp, clamp_to, grain, isqrt, lemma_aligned_within, lemma_isqrt_bounds,
    lemma_norm_dominates, lemma_norm_up_covers, lemma_scaled_shrinks, lemma_scaled_within,
    lemma_trunc_div_bound, max, mul_div, norm, norm_sq, norm_up, scaled, vector_length,
    vector_length_sq, vector_length_up, COORD_MAX, DT_MAX, SPEED_MAX, TIME_MAX, UNIT,
};
use crate::random::draw_range;
use vstd::prelude::*;

verus! {

/// Largest magnitude of a component of the estimate of the player's velocity.
pub const ESTIMATE_MAX: i64 = 2_000_000_000_000;

/// How near an arena edge or an obstacle an agent starts to steer away, beyond its radius.
pub const AVOID_MARGIN: i64 = 50_000;

/// What a hostile agent remembers from tick to tick.
#[derive(Clone, Copy, Debug, PartialEq, Eq)]
pub struct EnemyAI {
    /// A point to head for; no rule reads it yet.
    pub target_position: Position,
    /// When the agent last chose a direction of its own.
    pub last_direction_change: i64,
    /// How long the agent keeps a direction of its own, in milliseconds.
    pub direction_change_interval: i64,
    /// How eager the agent is to fire, in thousandths.
    pub aggression_level: i64,
    /// The difficulty of the session that the agent arrived in, in thousandths.
    pub difficulty: i64,
    /// Where the player was at the last decision.
    pub last_player_position: Position,
    /// The smoothed estimate of the player's velocity.
    pub player_velocity_estimate: (i64, i64),
}

/// The numbers that chance contributes to one decision of one agent.
#[derive(Clone, Copy, Debug, PartialEq, Eq)]
pub struct AiDraws {
    /// Decides whether the agent engages the player; in `0..1000`.
    pub pursue_roll: i64,
    /// Decides whether an agent of the easiest tier aims this tick; in `0..1000`.
    pub aim_roll: i64,
    /// A vector whose direction a random movement takes; each component in `-1000..=1000`.
    pub heading_x: i64,
    /// The other component of that vector.
    pub heading_y: i64,
    /// Share of the agent's speed that a random movement uses; in `300..1000`.
    pub speed_factor: i64,
    /// Side of a strafe: zero for one side, one for the other.
    pub side_roll: i64,
    /// How much a strafe closes in (positive) or backs off (negative); in `-300..300`.
    pub approach_factor: i64,
    /// Where in its range the next re-decision interval falls; in `0..1000`.
    pub interval_roll: i64,
    /// Decides whether the agent fires; in `0..1_000_000_000`.
    pub shoot_roll: i64,
}

impl AiDraws {
    /// Every number lies in its range.
    pub open spec fn wf(&self) -> bool {
        &&& 0 <= self.pursue_roll < 1000
        &&& 0 <= self.aim_roll < 1000
        &&& -1000 <= self.heading_x <= 1000
        &&& -1000 <= self.heading_y <= 1000
        &&& 300 <= self.speed_factor < 1000
        &&& 0 <= self.side_roll < 2
        &&& -300 <= self.approach_factor < 300
        &&& 0 <= self.interval_roll < 1000
        &&& 0 <= self.shoot_roll < 1_000_000_000
    }

    /// Checks that every number lies within its limit.
    pub fn is_well_formed(&self) -> (b: bool)
        ensures
            b == self.wf(),
    {
        0 <= self.pursue_roll && self.pursue_roll < 1000 && 0 <= self.aim_roll && self.aim_roll
            < 1000 && -1000 <= self.heading_x && self.heading_x <= 1000 && -1000
            <= self.heading_y && self.heading_y <= 1000 && 300 <= self.speed_factor
            && self.speed_factor < 1000 && 0 <= self.side_roll && self.side_roll < 2 && -300
            <= self.approach_factor && self.approach_factor < 300 && 0 <= self.interval_roll
            && self.interval_roll < 1000 && 0 <= self.shoot_roll && self.shoot_roll
            < 1_000_000_000
    }

    /// Draws the numbers for one decision.
    pub fn sample(rng: &mut rand::rngs::StdRng) -> (d: Self)
        ensures
            d.wf(),
    {
        let pursue_roll = draw_range(rng, 0, 1000);
        let aim_roll = draw_range(rng, 0, 1000);
        let heading_x = draw_range(rng, -1000, 1001);
        let heading_y = draw_range(rng, -1000, 1001);
        let speed_factor = draw_range(rng, 300, 1000);
        let side_roll = draw_range(rng, 0, 2);
        let approach_factor = draw_range(rng, -300, 300);
        let interval_roll = draw_range(rng, 0, 1000);
        let shoot_roll = draw_range(rng, 0, 1_000_000_000);
        Self {
            pursue_roll,
            aim_roll,
            heading_x,
            heading_y,
            speed_factor,
            side_roll,
            approach_factor,
            interval_roll,
            shoot_roll,
        }
    }
}

/// Below this distance to the player an agent of the given difficulty backs off.
pub open spec fn retreat_distance(difficulty: i64) -> int {
    if difficulty <= 1000 {
        150_000
    } else if difficulty <= 2000 {
        120_000
    } else {
        100_000
    }
}

/// Above this distance to the player an agent of the given difficulty closes in.
pub open spec fn approach_distance(difficulty: i64) -> int {
    if difficulty <= 1000 {
        300_000
    } else if difficulty <= 2000 {
        250_000
    } else {
        200_000
    }
}

/// Chance, in thousandths, that an agent of the given difficulty engages the player in
/// a tick.
pub open spec fn pursue_chance(difficulty: i64) -> int {
    if difficulty <= 1000 {
        800
    } else if difficulty <= 2000 {
        700
    } else {
        900
    }
}

/// Chance, in thousandths, that an agent of the given difficulty fires in a tick,
/// before aggression and distance scale it.
pub open spec fn base_shoot_chance(difficulty: i64) -> int {
    if difficulty <= 1000 {
        20
    } else if difficulty <= 2000 {
        15
    } else {
        25
    }
}

/// Share, in thousandths, of the chance to fire that is left at the given distance.
pub open spec fn distance_factor(distance: i64) -> int {
    if distance < 150_000 {
        1000
    } else if distance < 250_000 {
        700
    } else {
        300
    }
}

/// A point of the range `lo..hi` picked by a roll in `0..1000`.
pub open spec fn interval_in(lo: int, hi: int, roll: int) -> int {
    lo + scaled(hi - lo, roll, 1000)
}

/// Velocity of `speed` along the vector `(dx, dy)`, which is not zero.
pub open spec fn along(dx: int, dy: int, speed: int) -> Velocity {
    Velocity { x: aligned(dx, dy, speed).0 as i64, y: aligned(dx, dy, speed).1 as i64 }
}

/// The velocity cut to the share `factor`, in thousandths.
pub open spec fn damped(v: Velocity, factor: int) -> Velocity {
    Velocity {
        x: scaled(v.x as int, factor, UNIT as int) as i64,
        y: scaled(v.y as int, factor, UNIT as int) as i64,
    }
}

/// Velocity of an agent that backs off from the player at full speed; the velocity it
/// has if the two are at the same point.
pub open spec fn retreat_velocity(e: Tank, p: Tank) -> Velocity {
    let dx = e.position.x - p.position.x;
    let dy = e.position.y - p.position.y;
    if dx != 0 || dy != 0 {
        along(dx, dy, e.speed as int)
    } else {
        e.velocity
    }
}

/// Velocity of an agent that closes in on the player at 70% of its speed; the velocity
/// it has if the two are at the same point.
pub open spec fn approach_velocity(e: Tank, p: Tank) -> Velocity {
    let dx = p.position.x - e.position.x;
    let dy = p.position.y - e.position.y;
    if dx != 0 || dy != 0 {
        damped(along(dx, dy, e.speed as int), 700)
    } else {
        e.velocity
    }
}

/// Velocity of a random movement: the drawn share of the agent's speed along the
/// direction of the drawn heading.
pub open spec fn random_velocity(e: Tank, draws: AiDraws) -> Velocity {
    let c = direction_cos(draws.heading_x as int, draws.heading_y as int);
    let s = direction_sin(draws.heading_x as int, draws.heading_y as int);
    damped(
        Velocity {
            x: scaled(c, e.speed as int, UNIT as int) as i64,
            y: scaled(s, e.speed as int, UNIT as int) as i64,
        },
        draws.speed_factor as int,
    )
}

/// Direction, in thousandths, of a strafe round a player at `(dx, dy)` from the agent:
/// 80% of the unit vector square to the line toward the player, on the drawn side,
/// plus the drawn share of the unit vector toward the player.
pub open spec fn strafe_direction(dx: int, dy: int, draws: AiDraws) -> (int, int) {
    let toward = aligned(dx, dy, UNIT as int);
    let side_x = scaled(-toward.1, 800, UNIT as int);
    let side_y = scaled(toward.0, 800, UNIT as int);
    let approach_x = scaled(toward.0, draws.approach_factor as int, UNIT as int);
    let approach_y = scaled(toward.1, draws.approach_factor as int, UNIT as int);
    if draws.side_roll == 0 {
        (side_x + approach_x, side_y + approach_y)
    } else {
        (-side_x + approach_x, -side_y + approach_y)
    }
}

/// Velocity of a strafe around the player; the velocity the agent has if the two are at
/// the same point.
pub open spec fn tactical_velocity(e: Tank, p: Tank, draws: AiDraws) -> Velocity {
    let dx = p.position.x - e.position.x;
    let dy = p.position.y - e.position.y;
    if dx != 0 || dy != 0 {
        let dir = strafe_direction(dx, dy, draws);
        Velocity {
            x: scaled(dir.0, e.speed as int, UNIT as int) as i64,
            y: scaled(dir.1, e.speed as int, UNIT as int) as i64,
        }
    } else {
        e.velocity
    }
}

/// The direction from the agent to the player.
pub open spec fn direct_aim(e: Tank, p: Tank) -> Angle {
    Angle {
        cos: direction_cos(p.position.x - e.position.x, p.position.y - e.position.y) as i64,
        sin: direction_sin(p.position.x - e.position.x, p.position.y - e.position.y) as i64,
    }
}

/// One component of the smoothed estimate of the player's velocity after a tick in
/// which the player moved by `delta` in `dt` milliseconds: 70% of the estimate so far
/// and 30% of the velocity just seen. A tick of no duration leaves the estimate alone.
pub open spec fn blended(estimate: i64, delta: int, dt: i64) -> int {
    if dt > 0 {
        scaled(estimate as int, 700, UNIT as int) + scaled(
            scaled(delta, UNIT as int, dt as int),
            300,
            UNIT as int,
        )
    } else {
        estimate as int
    }
}

/// Time, in milliseconds, that a projectile needs for the given distance.
pub open spec fn flight_time(distance: int) -> int {
    scaled(distance, UNIT as int, BULLET_SPEED as int)
}

/// One coordinate of the point where the player is expected when a projectile fired
/// now arrives, kept within the range of coordinates.
pub open spec fn predicted(at: i64, estimate: i64, distance: int) -> int {
    clamp(
        at + scaled(estimate as int, flight_time(distance), UNIT as int),
        -COORD_MAX as int,
        COORD_MAX as int,
    )
}

impl EnemyAI {
    /// Times and the estimate lie within their limits, and the aggression is a share of one.
    pub open spec fn wf(&self) -> bool {
        &&& 0 <= self.last_direction_change <= TIME_MAX
        &&& 0 <= self.direction_change_interval <= TIME_MAX
        &&& 0 <= self.aggression_level <= 1000
        &&& self.last_player_position.wf()
        &&& abs(self.player_velocity_estimate.0 as int) <= ESTIMATE_MAX
        &&& abs(self.player_velocity_estimate.1 as int) <= ESTIMATE_MAX
    }

    /// The memory after it has seen where the player is at the end of a tick of `dt`
    /// milliseconds.
    pub open spec fn observed(&self, p: Tank, dt: i64) -> EnemyAI {
        EnemyAI {
            player_velocity_estimate: (
                blended(
                    self.player_velocity_estimate.0,
                    p.position.x - self.last_player_position.x,
                    dt,
                ) as i64,
                blended(
                    self.player_velocity_estimate.1,
                    p.position.y - self.last_player_position.y,
                    dt,
                ) as i64,
            ),
            last_player_position: p.position,
            ..*self
        }
    }

    /// The direction from the agent to where the player is expected when a projectile
    /// fired now arrives.
    pub open spec fn predictive_aim(&self, e: Tank, p: Tank) -> Angle {
        let distance = e.position.dist(&p.position) as int;
        let px = predicted(p.position.x, self.player_velocity_estimate.0, distance);
        let py = predicted(p.position.y, self.player_velocity_estimate.1, distance);
        Angle {
            cos: direction_cos(px - e.position.x, py - e.position.y) as i64,
            sin: direction_sin(px - e.position.x, py - e.position.y) as i64,
        }
    }

    /// Chance to fire in a tick, in parts of a thousand million: aggression times the
    /// share left at the distance times the base chance of the difficulty.
    pub open spec fn shoot_chance(&self, distance: i64) -> int {
        self.aggression_level * distance_factor(distance) * base_shoot_chance(self.difficulty)
    }

    /// Checks that every number lies within its limit.
    pub fn is_well_formed(&self) -> (b: bool)
        ensures
            b == self.wf(),
    {
        0 <= self.last_direction_change && self.last_direction_change <= TIME_MAX && 0
            <= self.direction_change_interval && self.direction_change_interval <= TIME_MAX && 0
            <= self.aggression_level && self.aggression_level <= 1000
            && self.last_player_position.is_well_formed() && -ESTIMATE_MAX
            <= self.player_velocity_estimate.0 && self.player_velocity_estimate.0 <= ESTIMATE_MAX
            && -ESTIMATE_MAX <= self.player_velocity_estimate.1
            && self.player_velocity_estimate.1 <= ESTIMATE_MAX
    }

    /// The memory of an agent that starts at `now` with the given aggression and
    /// re-decision interval.
    pub fn with_temper(difficulty: i64, now: i64, aggression_level: i64, interval: i64) -> (ai:
        Self)
        ensures
            ai == (EnemyAI {
                target_position: Position { x: 0, y: 0 },
                last_direction_change: now,
                direction_change_interval: interval,
                aggression_level,
                difficulty,
                last_player_position: Position { x: 0, y: 0 },
                player_velocity_estimate: (0, 0),
            }),
    {
        Self {
            target_position: Position::new(0, 0),
            last_direction_change: now,
            direction_change_interval: interval,
            aggression_level,
            difficulty,
            last_player_position: Position::new(0, 0),
            player_velocity_estimate: (0, 0),
        }
    }

    /// The memory is that of an agent which starts at `now` in a session of the given
    /// difficulty: it has seen nothing of the player, it keeps its first direction for
    /// two to five seconds, and its aggression lies in the range of its tier, which is
    /// 10% to 30% on the easiest tier, 30% to 60% up to difficulty two, and 60% to 90%
    /// above.
    pub open spec fn starting(&self, difficulty: i64, now: i64) -> bool {
        &&& self.difficulty == difficulty
        &&& self.last_direction_change == now
        &&& 2000 <= self.direction_change_interval < 5000
        &&& if difficulty <= 1000 {
            100 <= self.aggression_level < 300
        } else if difficulty <= 2000 {
            300 <= self.aggression_level < 600
        } else {
            600 <= self.aggression_level < 900
        }
        &&& self.player_velocity_estimate == (0i64, 0i64)
        &&& self.last_player_position == (Position { x: 0, y: 0 })
        &&& self.target_position == (Position { x: 0, y: 0 })
    }

    /// The memory of an agent of the easiest tier that starts at `now`.
    pub fn new(now: i64, rng: &mut rand::rngs::StdRng) -> (ai: Self)
        requires
            0 <= now <= TIME_MAX,
        ensures
            ai.starting(1000, now),
            ai.wf(),
    {
        Self::new_with_difficulty(1000, now, rng)
    }

    /// The memory of an agent that starts at `now`, with its aggression and its first
    /// re-decision interval drawn at random.
    pub fn new_with_difficulty(difficulty: i64, now: i64, rng: &mut rand::rngs::StdRng) -> (ai:
        Self)
        requires
            0 <= now <= TIME_MAX,
        ensures
            ai.starting(difficulty, now),
            ai.wf(),
    {
        let base_aggression = if difficulty <= 1000 {
            draw_range(rng, 100, 300)
        } else if difficulty <= 2000 {
            draw_range(rng, 300, 600)
        } else {
            draw_range(rng, 600, 900)
        };
        let interval = draw_range(rng, 2000, 5000);
        Self::with_temper(difficulty, now, base_aggression, interval)
    }
}

/// An agent that backs off never moves toward the player, and never faster than its
/// speed: its velocity and its offset from the player make no negative scalar product,
/// and a positive one if the speed is at least two thousandths. Below that both
/// components of the velocity round to zero.
pub proof fn lemma_retreat_points_away(e: Tank, p: Tank)
    requires
        e.wf(),
        p.wf(),
        e.position != p.position,
    ensures
        retreat_velocity(e, p).x * (e.position.x - p.position.x) + retreat_velocity(e, p).y * (
        e.position.y - p.position.y) >= 0,
        e.speed >= 2 ==> retreat_velocity(e, p).x * (e.position.x - p.position.x)
            + retreat_velocity(e, p).y * (e.position.y - p.position.y) > 0,
        retreat_velocity(e, p).x * retreat_velocity(e, p).x + retreat_velocity(e, p).y
            * retreat_velocity(e, p).y <= e.speed * e.speed,
{
    let dx = e.position.x - p.position.x;
    let dy = e.position.y - p.position.y;
    let speed = e.speed as int;
    lemma_aligned_within(dx, dy, speed);
    let vx = aligned(dx, dy, speed).0;
    let vy = aligned(dx, dy, speed).1;
    assert(vx == retreat_velocity(e, p).x && vy == retreat_velocity(e, p).y);
    assert(vx * dx >= 0) by (nonlinear_arith)
        requires
            (dx >= 0 && vx >= 0) || (dx <= 0 && vx <= 0),
    ;
    assert(vy * dy >= 0) by (nonlinear_arith)
        requires
            (dy >= 0 && vy >= 0) || (dy <= 0 && vy <= 0),
    ;
    if speed >= 2 {
        lemma_aligned_moves(dx, dy, speed);
        if abs(dx) >= abs(dy) {
            assert(vx * dx > 0) by (nonlinear_arith)
                requires
                    (dx > 0 && vx > 0) || (dx < 0 && vx < 0),
            ;
        } else {
            assert(vy * dy > 0) by (nonlinear_arith)
                requires
                    (dy > 0 && vy > 0) || (dy < 0 && vy < 0),
            ;
        }
    }
}

/// An agent that closes in never moves away from the player, and no component of its
/// velocity exceeds its speed.
pub proof fn lemma_approach_points_toward(e: Tank, p: Tank)
    requires
        e.wf(),
        p.wf(),
        e.position != p.position,
    ensures
        approach_velocity(e, p).x * (p.position.x - e.position.x) + approach_velocity(e, p).y * (
        p.position.y - e.position.y) >= 0,
        abs(approach_velocity(e, p).x as int) <= e.speed,
        abs(approach_velocity(e, p).y as int) <= e.speed,
{
    let dx = p.position.x - e.position.x;
    let dy = p.position.y - e.position.y;
    let speed = e.speed as int;
    lemma_aligned_within(dx, dy, speed);
    let full = aligned(dx, dy, speed);
    lemma_scaled_shrinks(full.0, 700, UNIT as int);
    lemma_scaled_shrinks(full.1, 700, UNIT as int);
    let vx = scaled(full.0, 700, UNIT as int);
    let vy = scaled(full.1, 700, UNIT as int);
    assert(full.0 >= 0 ==> full.0 * 700 >= 0);
    assert(full.0 <= 0 ==> full.0 * 700 <= 0);
    assert(full.1 >= 0 ==> full.1 * 700 >= 0);
    assert(full.1 <= 0 ==> full.1 * 700 <= 0);
    assert(vx == approach_velocity(e, p).x && vy == approach_velocity(e, p).y);
    assert(vx * dx >= 0) by (nonlinear_arith)
        requires
            (dx >= 0 && vx >= 0) || (dx <= 0 && vx <= 0),
    ;
    assert(vy * dy >= 0) by (nonlinear_arith)
        requires
            (dy >= 0 && vy >= 0) || (dy <= 0 && vy <= 0),
    ;
}

/// An agent that steers away from the edges moves on each axis toward the inside, or
/// not at all, and no component of its velocity exceeds its speed.
pub proof fn lemma_boundary_points_inward(e: Tank, arena: Arena)
    requires
        e.wf(),
        arena.wf(),
    ensures
        ({
            let margin = e.size + AVOID_MARGIN;
            let px = edge_depth(e.position.x as int, margin, arena.width as int);
            let py = edge_depth(e.position.y as int, margin, arena.height as int);
            &&& px >= 0 ==> boundary_velocity(e, arena).x >= 0
            &&& px <= 0 ==> boundary_velocity(e, arena).x <= 0
            &&& py >= 0 ==> boundary_velocity(e, arena).y >= 0
            &&& py <= 0 ==> boundary_velocity(e, arena).y <= 0
        }),
        abs(boundary_velocity(e, arena).x as int) <= e.speed,
        abs(boundary_velocity(e, arena).y as int) <= e.speed,
{
    let margin = e.size + AVOID_MARGIN;
    let px = edge_depth(e.position.x as int, margin, arena.width as int);
    let py = edge_depth(e.position.y as int, margin, arena.height as int);
    let speed = e.speed as int;
    if px != 0 || py != 0 {
        lemma_aligned_within(px, py, speed);
        let full = aligned(px, py, speed);
        lemma_scaled_shrinks(full.0, 800, UNIT as int);
        lemma_scaled_shrinks(full.1, 800, UNIT as int);
        assert(full.0 >= 0 ==> full.0 * 800 >= 0);
        assert(full.0 <= 0 ==> full.0 * 800 <= 0);
        assert(full.1 >= 0 ==> full.1 * 800 >= 0);
        assert(full.1 <= 0 ==> full.1 * 800 <= 0);
    }
}

/// A vector brought to a length of at least two keeps its larger component: rounding
/// does not lose it.
pub proof fn lemma_aligned_moves(dx: int, dy: int, length: int)
    requires
        dx != 0 || dy != 0,
        length >= 2,
    ensures
        abs(dx) >= abs(dy) && dx > 0 ==> aligned(dx, dy, length).0 > 0,
        abs(dx) >= abs(dy) && dx < 0 ==> aligned(dx, dy, length).0 < 0,
        abs(dy) >= abs(dx) && dy > 0 ==> aligned(dx, dy, length).1 > 0,
        abs(dy) >= abs(dx) && dy < 0 ==> aligned(dx, dy, length).1 < 0,
{
    let g = grain(dx, dy);
    let a = dx * g;
    let b = dy * g;
    let d = norm_up(a, b);
    lemma_norm_up_covers(a, b);
    lemma_isqrt_bounds(norm_sq(a, b));
    let r = norm(a, b) as int;
    let root = isqrt(norm_sq(a, b));
    assert(a * a + b * b >= 0) by (nonlinear_arith);
    assert(r * r == root * root);
    assert(r * r <= a * a + b * b);
    let big = if abs(a) >= abs(b) {
        abs(a)
    } else {
        abs(b)
    };
    assert(big >= 1);
    assert(a * a <= big * big) by (nonlinear_arith)
        requires
            abs(a) <= big,
    ;
    assert(b * b <= big * big) by (nonlinear_arith)
        requires
            abs(b) <= big,
    ;
    assert(r + 1 <= 2 * big) by (nonlinear_arith)
        requires
            r >= 0,
            big >= 1,
            r * r <= a * a + b * b,
            a * a <= big * big,
            b * b <= big * big,
    {
        if r + 1 > 2 * big {
            assert(r * r >= (2 * big) * (2 * big));
        }
    }
    assert(d <= 2 * big);
    if abs(dx) >= abs(dy) {
        assert(abs(a) >= abs(b)) by (nonlinear_arith)
            requires
                a == dx * g,
                b == dy * g,
                g > 0,
                abs(dx) >= abs(dy),
        ;
        lemma_share_moves(a, length, d);
    }
    if abs(dy) >= abs(dx) {
        assert(abs(b) >= abs(a)) by (nonlinear_arith)
            requires
                a == dx * g,
                b == dy * g,
                g > 0,
                abs(dy) >= abs(dx),
        ;
        lemma_share_moves(b, length, d);
    }
    assert(dx > 0 ==> a > 0) by (nonlinear_arith)
        requires
            a == dx * g,
            g > 0,
    ;
    assert(dx < 0 ==> a < 0) by (nonlinear_arith)
        requires
            a == dx * g,
            g > 0,
    ;
    assert(dy > 0 ==> b > 0) by (nonlinear_arith)
        requires
            b == dy * g,
            g > 0,
    ;
    assert(dy < 0 ==> b < 0) by (nonlinear_arith)
        requires
            b == dy * g,
            g > 0,
    ;
}

/// A component of at least half the length, scaled by at least two, is not lost to
/// rounding.
pub proof fn lemma_share_moves(c: int, length: int, d: int)
    requires
        d > 0,
        length >= 2,
        d <= 2 * abs(c),
    ensures
        c > 0 ==> scaled(c, length, d) > 0,
        c < 0 ==> scaled(c, length, d) < 0,
{
    let m = abs(c) * length;
    assert(m >= d) by (nonlinear_arith)
        requires
            m == abs(c) * length,
            length >= 2,
            d <= 2 * abs(c),
            d > 0,
    ;
    assert(m / d >= 1) by (nonlinear_arith)
        requires
            m >= d,
            d > 0,
    ;
    assert(c > 0 ==> c * length == m) by (nonlinear_arith)
        requires
            m == abs(c) * length,
    ;
    assert(c < 0 ==> -(c * length) == m) by (nonlinear_arith)
        requires
            m == abs(c) * length,
    ;
    assert(c < 0 ==> c * length < 0) by (nonlinear_arith)
        requires
            length >= 2,
    ;
    assert(c > 0 ==> c * length >= 0) by (nonlinear_arith)
        requires
            length >= 2,
    ;
}

impl EnemyAI {
    /// Steers the agent straight away from the player at full speed.
    pub fn retreat_from_player(&self, enemy_tank: &mut Tank, player_tank: &Tank)
        requires
            old(enemy_tank).wf(),
            player_tank.wf(),
        ensures
            *final(enemy_tank) == (Tank {
                velocity: retreat_velocity(*old(enemy_tank), *player_tank),
                ..*old(enemy_tank)
            }),
            final(enemy_tank).wf(),
    {
        let dx = enemy_tank.position.x - player_tank.position.x;
        let dy = enemy_tank.position.y - player_tank.position.y;
        if dx != 0 || dy != 0 {
            let v = align(dx, dy, enemy_tank.speed);
            enemy_tank.velocity.x = v.0;
            enemy_tank.velocity.y = v.1;
        }
    }

    /// Steers the agent straight toward the player at 70% of its speed.
    pub fn approach_player(&self, enemy_tank: &mut Tank, player_tank: &Tank)
        requires
            old(enemy_tank).wf(),
            player_tank.wf(),
        ensures
            *final(enemy_tank) == (Tank {
                velocity: approach_velocity(*old(enemy_tank), *player_tank),
                ..*old(enemy_tank)
            }),
            final(enemy_tank).wf(),
    {
        let dx = player_tank.position.x - enemy_tank.position.x;
        let dy = player_tank.position.y - enemy_tank.position.y;
        if dx != 0 || dy != 0 {
            let v = align(dx, dy, enemy_tank.speed);
            proof {
                lemma_scaled_shrinks(v.0 as int, 700, UNIT as int);
                lemma_scaled_shrinks(v.1 as int, 700, UNIT as int);
            }
            enemy_tank.velocity.x = mul_div(v.0, 700, UNIT);
            enemy_tank.velocity.y = mul_div(v.1, 700, UNIT);
        }
    }

    /// Steers the agent in the drawn direction at the drawn share of its speed.
    pub fn random_movement(&self, enemy_tank: &mut Tank, draws: &AiDraws)
        requires
            old(enemy_tank).wf(),
            draws.wf(),
        ensures
            *final(enemy_tank) == (Tank {
                velocity: random_velocity(*old(enemy_tank), *draws),
                ..*old(enemy_tank)
            }),
            final(enemy_tank).wf(),
    {
        let angle = Angle::toward(draws.heading_x, draws.heading_y);
        let full = Velocity::from_angle(angle, enemy_tank.speed);
        proof {
            lemma_scaled_shrinks(full.x as int, draws.speed_factor as int, UNIT as int);
            lemma_scaled_shrinks(full.y as int, draws.speed_factor as int, UNIT as int);
        }
        enemy_tank.velocity.x = mul_div(full.x, draws.speed_factor, UNIT);
        enemy_tank.velocity.y = mul_div(full.y, draws.speed_factor, UNIT);
    }

    /// Steers the agent sideways around the player, on the drawn side, closing in or
    /// backing off a little as drawn.
    pub fn tactical_movement(&self, enemy_tank: &mut Tank, player_tank: &Tank, draws: &AiDraws)
        requires
            old(enemy_tank).wf(),
            player_tank.wf(),
            draws.wf(),
        ensures
            *final(enemy_tank) == (Tank {
                velocity: tactical_velocity(*old(enemy_tank), *player_tank, *draws),
                ..*old(enemy_tank)
            }),
            final(enemy_tank).wf(),
    {
        let dx = player_tank.position.x - enemy_tank.position.x;
        let dy = player_tank.position.y - enemy_tank.position.y;
        if dx != 0 || dy != 0 {
            let toward = align(dx, dy, UNIT);
            proof {
                lemma_trunc_div_bound(-toward.1 * 800, UNIT as int, 800);
                lemma_trunc_div_bound(toward.0 * 800, UNIT as int, 800);
                lemma_scaled_within(toward.0 as int, draws.approach_factor as int, UNIT as int);
                lemma_scaled_within(toward.1 as int, draws.approach_factor as int, UNIT as int);
            }
            let side_x = mul_div(-toward.1, 800, UNIT);
            let side_y = mul_div(toward.0, 800, UNIT);
            let approach_x = mul_div(toward.0, draws.approach_factor, UNIT);
            let approach_y = mul_div(toward.1, draws.approach_factor, UNIT);
            let final_x = if draws.side_roll == 0 {
                side_x + approach_x
            } else {
                -side_x + approach_x
            };
            let final_y = if draws.side_roll == 0 {
                side_y + approach_y
            } else {
                -side_y + approach_y
            };
            proof {
                lemma_steer_bound(final_x as int, enemy_tank.speed as int);
                lemma_steer_bound(final_y as int, enemy_tank.speed as int);
            }
            enemy_tank.velocity.x = mul_div(final_x, enemy_tank.speed, UNIT);
            enemy_tank.velocity.y = mul_div(final_y, enemy_tank.speed, UNIT);
        }
    }

    /// Turns the agent to face the player.
    pub fn aim_at_player(&self, enemy_tank: &mut Tank, player_tank: &Tank)
        requires
            old(enemy_tank).wf(),
            player_tank.wf(),
        ensures
            *final(enemy_tank) == (Tank {
                angle: direct_aim(*old(enemy_tank), *player_tank),
                ..*old(enemy_tank)
            }),
            final(enemy_tank).wf(),
    {
        let dx = player_tank.position.x - enemy_tank.position.x;
        let dy = player_tank.position.y - enemy_tank.position.y;
        enemy_tank.angle = Angle::toward(dx, dy);
    }

    /// Takes note of where the player is after a tick of `dt` milliseconds, and blends
    /// the velocity that this shows into the estimate.
    pub fn update_player_velocity_estimate(&mut self, player_tank: &Tank, dt: i64)
        requires
            old(self).wf(),
            player_tank.wf(),
            0 <= dt <= DT_MAX,
        ensures
            *final(self) == old(self).observed(*player_tank, dt),
            final(self).wf(),
    {
        let dx = player_tank.position.x - self.last_player_position.x;
        let dy = player_tank.position.y - self.last_player_position.y;
        if dt > 0 {
            proof {
                lemma_trunc_div_bound(dx * UNIT, dt as int, ESTIMATE_MAX as int);
                lemma_trunc_div_bound(dy * UNIT, dt as int, ESTIMATE_MAX as int);
            }
            let seen_x = mul_div(dx, UNIT, dt);
            let seen_y = mul_div(dy, UNIT, dt);
            proof {
                lemma_trunc_div_bound(
                    self.player_velocity_estimate.0 * 700,
                    UNIT as int,
                    1_400_000_000_000,
                );
                lemma_trunc_div_bound(
                    self.player_velocity_estimate.1 * 700,
                    UNIT as int,
                    1_400_000_000_000,
                );
                lemma_trunc_div_bound(seen_x * 300, UNIT as int, 600_000_000_000);
                lemma_trunc_div_bound(seen_y * 300, UNIT as int, 600_000_000_000);
            }
            self.player_velocity_estimate.0 = mul_div(self.player_velocity_estimate.0, 700, UNIT)
                + mul_div(seen_x, 300, UNIT);
            self.player_velocity_estimate.1 = mul_div(self.player_velocity_estimate.1, 700, UNIT)
                + mul_div(seen_y, 300, UNIT);
        }
        self.last_player_position = player_tank.position;
    }

    /// Turns the agent to face the point where the player is expected when a projectile
    /// fired now arrives.
    pub fn aim_at_player_predictive(&self, enemy_tank: &mut Tank, player_tank: &Tank)
        requires
            self.wf(),
            old(enemy_tank).wf(),
            player_tank.wf(),
        ensures
            *final(enemy_tank) == (Tank {
                angle: self.predictive_aim(*old(enemy_tank), *player_tank),
                ..*old(enemy_tank)
            }),
            final(enemy_tank).wf(),
    {
        let distance = enemy_tank.position.distance_to(&player_tank.position);
        proof {
            lemma_trunc_div_bound(distance * UNIT, BULLET_SPEED as int, 10_000_000);
        }
        let flight = mul_div(distance, UNIT, BULLET_SPEED);
        proof {
            lemma_lead_bound(self.player_velocity_estimate.0 as int, flight as int);
            lemma_lead_bound(self.player_velocity_estimate.1 as int, flight as int);
        }
        let predicted_x = clamp_to(
            player_tank.position.x + mul_div(self.player_velocity_estimate.0, flight, UNIT),
            -COORD_MAX,
            COORD_MAX,
        );
        let predicted_y = clamp_to(
            player_tank.position.y + mul_div(self.player_velocity_estimate.1, flight, UNIT),
            -COORD_MAX,
            COORD_MAX,
        );
        let dx = predicted_x - enemy_tank.position.x;
        let dy = predicted_y - enemy_tank.position.y;
        enemy_tank.angle = Angle::toward(dx, dy);
    }

    /// Decides on a roll in `0..1_000_000_000` whether the agent fires at the given
    /// distance from the player.
    pub fn should_shoot(&self, _enemy_tank: &Tank, _player_tank: &Tank, distance: i64, roll: i64) -> (fire:
        bool)
        ensures
            fire == (roll < self.shoot_chance(distance)),
    {
        let base_shoot_chance: i128 = if self.difficulty <= 1000 {
            20
        } else if self.difficulty <= 2000 {
            15
        } else {
            25
        };
        let distance_factor: i128 = if distance < 150_000 {
            1000
        } else if distance < 250_000 {
            700
        } else {
            300
        };
        let aggression = self.aggression_level as i128;
        assert(-0x8000_0000_0000_0000 * 1000 <= aggression * distance_factor
            <= 0x8000_0000_0000_0000 * 1000) by (nonlinear_arith)
            requires
                -0x8000_0000_0000_0000 <= aggression <= 0x8000_0000_0000_0000,
                0 <= distance_factor <= 1000,
        ;
        let scaled_aggression: i128 = aggression * distance_factor;
        assert(-0x8000_0000_0000_0000 * 25000 <= scaled_aggression * base_shoot_chance
            <= 0x8000_0000_0000_0000 * 25000) by (nonlinear_arith)
            requires
                -0x8000_0000_0000_0000 * 1000 <= scaled_aggression <= 0x8000_0000_0000_0000
                    * 1000,
                0 <= base_shoot_chance <= 25,
        ;
        (roll as i128) < scaled_aggression * base_shoot_chance
    }
}

/// A steering direction of at most 1.1 gives a velocity within the bound on velocities.
pub proof fn lemma_steer_bound(direction: int, speed: int)
    requires
        abs(direction) <= 1100,
        0 <= speed <= SPEED_MAX,
    ensures
        abs(scaled(direction, speed, UNIT as int)) <= 11_000_000,
{
    assert(abs(direction * speed) <= 11_000_000 * 1000) by (nonlinear_arith)
        requires
            abs(direction) <= 1100,
            0 <= speed <= 10_000_000,
    ;
    lemma_trunc_div_bound(direction * speed, UNIT as int, 11_000_000);
}

/// The lead of a predictive aim fits the machine's integers.
pub proof fn lemma_lead_bound(estimate: int, flight: int)
    requires
        abs(estimate) <= ESTIMATE_MAX,
        0 <= flight <= 10_000_000,
    ensures
        abs(scaled(estimate, flight, UNIT as int)) <= 20_000_000_000_000_000,
{
    assert(abs(estimate * flight) <= 20_000_000_000_000_000 * 1000) by (nonlinear_arith)
        requires
            abs(estimate) <= 2_000_000_000_000,
            0 <= flight <= 10_000_000,
    ;
    lemma_trunc_div_bound(estimate * flight, UNIT as int, 20_000_000_000_000_000);
}

/// How deep an agent at coordinate `at` is inside the margins of the two edges of one
/// axis: the depth inside the margin of the near edge, less the depth inside that of
/// the far edge.
pub open spec fn edge_depth(at: int, margin: int, extent: int) -> int {
    (if at < margin {
        margin - at
    } else {
        0
    }) - (if at > extent - margin {
        at - (extent - margin)
    } else {
        0
    })
}

/// The agent is within its avoidance margin of some edge of the arena.
pub open spec fn near_edge(e: Tank, arena: Arena) -> bool {
    let margin = e.size + AVOID_MARGIN;
    ||| e.position.x < margin
    ||| e.position.x > arena.width - margin
    ||| e.position.y < margin
    ||| e.position.y > arena.height - margin
}

/// Velocity of an agent that steers away from the edges: 80% of its speed along the
/// vector of its depths inside the margins, which points inward. Where the depths
/// cancel on both axes, as they can in an arena narrower than two margins, the agent
/// stops.
pub open spec fn boundary_velocity(e: Tank, arena: Arena) -> Velocity {
    let margin = e.size + AVOID_MARGIN;
    let px = edge_depth(e.position.x as int, margin, arena.width as int);
    let py = edge_depth(e.position.y as int, margin, arena.height as int);
    if px != 0 || py != 0 {
        damped(along(px, py, e.speed as int), 800)
    } else {
        Velocity { x: 0, y: 0 }
    }
}

/// An agent inside the margin of exactly one edge of the arena steers straight away
/// from that edge at 80% of its speed, however little it is inside; and no other rule
/// of the decision has a say.
pub proof fn lemma_single_edge_steers_inward(
    ai: EnemyAI,
    e: Tank,
    p: Tank,
    obstacles: Seq<Obstacle>,
    arena: Arena,
    now: i64,
    dt: i64,
    draws: AiDraws,
)
    requires
        e.wf(),
        arena.wf(),
    ensures
        near_edge(e, arena) ==> decided(ai, e, p, obstacles, arena, now, dt, draws).1.velocity
            == boundary_velocity(e, arena),
        ({
            let margin = e.size + AVOID_MARGIN;
            let pace = scaled(e.speed as int, 800, UNIT as int);
            let left = e.position.x < margin;
            let right = e.position.x > arena.width - margin;
            let top = e.position.y < margin;
            let bottom = e.position.y > arena.height - margin;
            &&& left && !right && !top && !bottom ==> boundary_velocity(e, arena) == (Velocity {
                x: pace as i64,
                y: 0,
            })
            &&& right && !left && !top && !bottom ==> boundary_velocity(e, arena) == (Velocity {
                x: (-pace) as i64,
                y: 0,
            })
            &&& top && !bottom && !left && !right ==> boundary_velocity(e, arena) == (Velocity {
                x: 0,
                y: pace as i64,
            })
            &&& bottom && !top && !left && !right ==> boundary_velocity(e, arena) == (Velocity {
                x: 0,
                y: (-pace) as i64,
            })
        }),
{
    let margin = e.size + AVOID_MARGIN;
    let px = edge_depth(e.position.x as int, margin, arena.width as int);
    let py = edge_depth(e.position.y as int, margin, arena.height as int);
    let speed = e.speed as int;
    lemma_trunc_div_bound(speed * 800, UNIT as int, speed);
    if px != 0 || py != 0 {
        lemma_aligned_within(px, py, speed);
    }
}

/// Distance from the agent to the centre of the obstacle.
pub open spec fn hazard_distance(e: Tank, o: Obstacle) -> int {
    norm(o.center_x() - e.position.x, o.center_y() - e.position.y) as int
}

/// Radius of the circle that stands for the obstacle: a quarter of width plus height.
pub open spec fn hazard_radius(o: Obstacle) -> int {
    (o.width + o.height) / 4
}

/// The obstacle is close enough for the agent to steer away from it.
pub open spec fn in_detection(e: Tank, o: Obstacle) -> bool {
    hazard_distance(e, o) - hazard_radius(o) < e.size + AVOID_MARGIN
}

/// Squared distance from the agent to the centre of the obstacle.
pub open spec fn hazard_distance_sq(e: Tank, o: Obstacle) -> int {
    norm_sq(o.center_x() - e.position.x, o.center_y() - e.position.y) as int
}

/// Index, among the first `n` obstacles, of the one within detection whose centre is
/// nearest to the agent, the first of them if several are equally near; -1 if none is
/// within detection.
pub open spec fn nearest_hazard(e: Tank, obstacles: Seq<Obstacle>, n: int) -> int
    decreases n,
{
    if n <= 0 {
        -1
    } else {
        let before = nearest_hazard(e, obstacles, n - 1);
        if in_detection(e, obstacles[n - 1]) && (before < 0 || hazard_distance_sq(
            e,
            obstacles[n - 1],
        ) < hazard_distance_sq(e, obstacles[before])) {
            n - 1
        } else {
            before
        }
    }
}

/// Share, in thousandths, of the avoidance that is left at the agent's distance from
/// the obstacle: all of it at the obstacle's circle, none at the end of detection.
pub open spec fn proximity(e: Tank, o: Obstacle) -> int {
    UNIT - max(
        scaled(hazard_distance(e, o) - hazard_radius(o), UNIT as int, e.size + AVOID_MARGIN),
        0,
    )
}

/// Direction, in thousandths, in which an agent at `(dx, dy)` from the centre of an
/// obstacle avoids it: 70% straight away from the centre and 30% along the tangent.
pub open spec fn avoid_direction(dx: int, dy: int) -> (int, int) {
    let away = aligned(dx, dy, UNIT as int);
    (
        scaled(away.0, 700, UNIT as int) + scaled(-away.1, 300, UNIT as int),
        scaled(away.1, 700, UNIT as int) + scaled(away.0, 300, UNIT as int),
    )
}

/// Velocity of an agent that steers around the obstacle: 60% of its speed, scaled by
/// the proximity, along the avoidance direction.
pub open spec fn hazard_velocity(e: Tank, o: Obstacle) -> Velocity {
    let dx = e.position.x - o.center_x();
    let dy = e.position.y - o.center_y();
    let dir = avoid_direction(dx, dy);
    damped(
        damped(
            Velocity {
                x: scaled(dir.0, e.speed as int, UNIT as int) as i64,
                y: scaled(dir.1, e.speed as int, UNIT as int) as i64,
            },
            proximity(e, o),
        ),
        600,
    )
}

/// The agent steers around an obstacle: one is within detection, and the agent is not
/// at the centre of the nearest such.
pub open spec fn avoids_hazard(e: Tank, obstacles: Seq<Obstacle>) -> bool {
    let k = nearest_hazard(e, obstacles, obstacles.len() as int);
    k >= 0 && hazard_distance(e, obstacles[k]) > 0
}

/// The nearest hazard is one of the obstacles looked at, or none.
pub proof fn lemma_nearest_hazard_range(e: Tank, obstacles: Seq<Obstacle>, n: int)
    requires
        0 <= n <= obstacles.len(),
    ensures
        -1 <= nearest_hazard(e, obstacles, n) < n,
        nearest_hazard(e, obstacles, n) >= 0 ==> in_detection(
            e,
            obstacles[nearest_hazard(e, obstacles, n)],
        ),
    decreases n,
{
    if n > 0 {
        lemma_nearest_hazard_range(e, obstacles, n - 1);
    }
}

impl EnemyAI {
    /// Steers the agent away from the edges of the arena if it is within its margin of
    /// one, and reports whether it did.
    pub fn check_and_avoid_boundaries(&self, enemy_tank: &mut Tank, arena: &Arena) -> (avoiding:
        bool)
        requires
            old(enemy_tank).wf(),
            arena.wf(),
        ensures
            avoiding == near_edge(*old(enemy_tank), *arena),
            *final(enemy_tank) == if avoiding {
                Tank { velocity: boundary_velocity(*old(enemy_tank), *arena), ..*old(enemy_tank) }
            } else {
                *old(enemy_tank)
            },
            final(enemy_tank).wf(),
    {
        let boundary_margin = enemy_tank.size + AVOID_MARGIN;
        let mut avoid_x: i64 = 0;
        let mut avoid_y: i64 = 0;
        let mut needs_avoidance = false;
        if enemy_tank.position.x < boundary_margin {
            avoid_x = avoid_x + (boundary_margin - enemy_tank.position.x);
            needs_avoidance = true;
        }
        if enemy_tank.position.x > arena.width - boundary_margin {
            avoid_x = avoid_x - (enemy_tank.position.x - (arena.width - boundary_margin));
            needs_avoidance = true;
        }
        if enemy_tank.position.y < boundary_margin {
            avoid_y = avoid_y + (boundary_margin - enemy_tank.position.y);
            needs_avoidance = true;
        }
        if enemy_tank.position.y > arena.height - boundary_margin {
            avoid_y = avoid_y - (enemy_tank.position.y - (arena.height - boundary_margin));
            needs_avoidance = true;
        }
        if needs_avoidance {
            if avoid_x != 0 || avoid_y != 0 {
                let v = align(avoid_x, avoid_y, enemy_tank.speed);
                proof {
                    lemma_scaled_shrinks(v.0 as int, 800, UNIT as int);
                    lemma_scaled_shrinks(v.1 as int, 800, UNIT as int);
                }
                enemy_tank.velocity.x = mul_div(v.0, 800, UNIT);
                enemy_tank.velocity.y = mul_div(v.1, 800, UNIT);
            } else {
                enemy_tank.velocity.x = 0;
                enemy_tank.velocity.y = 0;
            }
            return true;
        }
        false
    }

    /// Steers the agent around the nearest obstacle within detection, if there is one,
    /// and reports whether it did.
    pub fn check_and_avoid_obstacles(&self, enemy_tank: &mut Tank, obstacles: &[Obstacle]) -> (avoiding:
        bool)
        requires
            old(enemy_tank).wf(),
            field_wf(obstacles@),
        ensures
            avoiding == avoids_hazard(*old(enemy_tank), obstacles@),
            *final(enemy_tank) == if avoiding {
                Tank {
                    velocity: hazard_velocity(
                        *old(enemy_tank),
                        obstacles@[nearest_hazard(
                            *old(enemy_tank),
                            obstacles@,
                            obstacles@.len() as int,
                        )],
                    ),
                    ..*old(enemy_tank)
                }
            } else {
                *old(enemy_tank)
            },
            final(enemy_tank).wf(),
    {
        let detection_distance = enemy_tank.size + AVOID_MARGIN;
        let mut closest: Option<usize> = None;
        let mut closest_distance: i64 = 0;
        let mut closest_sq: u64 = 0;
        let mut i: usize = 0;
        while i < obstacles.len()
            invariant
                0 <= i <= obstacles.len(),
                *enemy_tank == *old(enemy_tank),
                enemy_tank.wf(),
                field_wf(obstacles@),
                detection_distance == enemy_tank.size + AVOID_MARGIN,
                match closest {
                    Some(k) => k < i && nearest_hazard(*enemy_tank, obstacles@, i as int) == k
                        && closest_distance == hazard_distance(*enemy_tank, obstacles@[k as int])
                        && closest_sq == hazard_distance_sq(*enemy_tank, obstacles@[k as int]),
                    None => nearest_hazard(*enemy_tank, obstacles@, i as int) == -1,
                },
            decreases obstacles.len() - i,
        {
            let obstacle = &obstacles[i];
            assert(obstacles@[i as int].wf());
            let dx = obstacle.position.x + obstacle.width / 2 - enemy_tank.position.x;
            let dy = obstacle.position.y + obstacle.height / 2 - enemy_tank.position.y;
            let distance = vector_length(dx, dy);
            let distance_sq = vector_length_sq(dx, dy);
            let obstacle_radius = (obstacle.width + obstacle.height) / 4;
            if distance - obstacle_radius < detection_distance && (closest.is_none() || distance_sq
                < closest_sq) {
                closest_distance = distance;
                closest_sq = distance_sq;
                closest = Some(i);
            }
            i += 1;
        }
        if let Some(k) = closest {
            let obstacle = &obstacles[k];
            assert(obstacles@[k as int].wf());
            proof {
                lemma_nearest_hazard_range(*enemy_tank, obstacles@, obstacles@.len() as int);
            }
            let center_x = obstacle.position.x + obstacle.width / 2;
            let center_y = obstacle.position.y + obstacle.height / 2;
            let dx = enemy_tank.position.x - center_x;
            let dy = enemy_tank.position.y - center_y;
            let distance = closest_distance;
            if distance > 0 {
                let obstacle_radius = (obstacle.width + obstacle.height) / 4;
                proof {
                    let back_x = center_x - enemy_tank.position.x;
                    let back_y = center_y - enemy_tank.position.y;
                    lemma_norm_dominates(back_x, back_y);
                    lemma_trunc_div_bound(
                        (distance - obstacle_radius) * UNIT,
                        detection_distance as int,
                        100_000_000_000,
                    );
                    if distance - obstacle_radius >= 0 {
                        lemma_trunc_div_bound(
                            (distance - obstacle_radius) * UNIT,
                            detection_distance as int,
                            UNIT as int,
                        );
                    }
                }
                let closeness = mul_div(distance - obstacle_radius, UNIT, detection_distance);
                let distance_factor = UNIT - if closeness > 0 {
                    closeness
                } else {
                    0
                };
                let away = align(dx, dy, UNIT);
                let avoid_x = away.0;
                let avoid_y = away.1;
                let tangent_x = -away.1;
                let tangent_y = away.0;
                proof {
                    lemma_trunc_div_bound(avoid_x * 700, UNIT as int, 700);
                    lemma_trunc_div_bound(avoid_y * 700, UNIT as int, 700);
                    lemma_trunc_div_bound(tangent_x * 300, UNIT as int, 300);
                    lemma_trunc_div_bound(tangent_y * 300, UNIT as int, 300);
                }
                let final_x = mul_div(avoid_x, 700, UNIT) + mul_div(tangent_x, 300, UNIT);
                let final_y = mul_div(avoid_y, 700, UNIT) + mul_div(tangent_y, 300, UNIT);
                proof {
                    lemma_scaled_within(final_x as int, enemy_tank.speed as int, UNIT as int);
                    lemma_scaled_within(final_y as int, enemy_tank.speed as int, UNIT as int);
                }
                let vx = mul_div(final_x, enemy_tank.speed, UNIT);
                let vy = mul_div(final_y, enemy_tank.speed, UNIT);
                proof {
                    lemma_scaled_shrinks(vx as int, distance_factor as int, UNIT as int);
                    lemma_scaled_shrinks(vy as int, distance_factor as int, UNIT as int);
                }
                let near_x = mul_div(vx, distance_factor, UNIT);
                let near_y = mul_div(vy, distance_factor, UNIT);
                proof {
                    lemma_scaled_shrinks(near_x as int, 600, UNIT as int);
                    lemma_scaled_shrinks(near_y as int, 600, UNIT as int);
                }
                enemy_tank.velocity.x = mul_div(near_x, 600, UNIT);
                enemy_tank.velocity.y = mul_div(near_y, 600, UNIT);
                return true;
            }
        }
        false
    }
}

/// The agent with another velocity.
pub open spec fn heading(e: Tank, velocity: Velocity) -> Tank {
    Tank { velocity, ..e }
}

/// The memory after a new direction was chosen at `now`, with the next interval picked
/// from `lo..hi` by the drawn roll.
pub open spec fn redecided(ai: EnemyAI, now: i64, lo: int, hi: int, draws: AiDraws) -> EnemyAI {
    EnemyAI {
        last_direction_change: now,
        direction_change_interval: interval_in(lo, hi, draws.interval_roll as int) as i64,
        ..ai
    }
}

/// Memory and agent after the movement decision of one tick. Distances are compared
/// as the true distances compare: the one rounded down against the retreat distance,
/// the one rounded up against the approach distance. In order of precedence:
/// steer away from the arena's edges; steer around the nearest obstacle; engage the
/// player, which is to back off when too near, close in when too far, and in between to
/// strafe (easiest tier) or wander (other tiers) whenever a new direction is due;
/// wander whenever a new direction is due. Where none applies the velocity stays.
pub open spec fn steered(
    ai: EnemyAI,
    e: Tank,
    p: Tank,
    obstacles: Seq<Obstacle>,
    arena: Arena,
    now: i64,
    draws: AiDraws,
) -> (EnemyAI, Tank) {
    let near = e.position.dist(&p.position) as int;
    let far = norm_up(e.position.x - p.position.x, e.position.y - p.position.y);
    let due = now - ai.last_direction_change > ai.direction_change_interval;
    if near_edge(e, arena) {
        (ai, heading(e, boundary_velocity(e, arena)))
    } else if avoids_hazard(e, obstacles) {
        (
            ai,
            heading(
                e,
                hazard_velocity(e, obstacles[nearest_hazard(e, obstacles, obstacles.len() as int)]),
            ),
        )
    } else if draws.pursue_roll < pursue_chance(ai.difficulty) {
        if near < retreat_distance(ai.difficulty) {
            (ai, heading(e, retreat_velocity(e, p)))
        } else if far > approach_distance(ai.difficulty) {
            (ai, heading(e, approach_velocity(e, p)))
        } else if due {
            if ai.difficulty <= 1000 {
                (redecided(ai, now, 2000, 4000, draws), heading(e, tactical_velocity(e, p, draws)))
            } else {
                (redecided(ai, now, 1000, 3000, draws), heading(e, random_velocity(e, draws)))
            }
        } else {
            (ai, e)
        }
    } else if due {
        (redecided(ai, now, 2000, 5000, draws), heading(e, random_velocity(e, draws)))
    } else {
        (ai, e)
    }
}

/// The agent after the aiming of one tick: an agent of the easiest tier aims ahead of
/// the player, in four ticks of five; every other agent aims straight at the player.
pub open spec fn aimed(ai: EnemyAI, e: Tank, p: Tank, draws: AiDraws) -> Tank {
    if ai.difficulty <= 1000 {
        if draws.aim_roll < 800 {
            Tank { angle: ai.predictive_aim(e, p), ..e }
        } else {
            e
        }
    } else {
        Tank { angle: direct_aim(e, p), ..e }
    }
}

/// Memory and agent after the whole decision of one tick, and whether the agent fires.
/// It fires when its cooldown is over and the drawn roll falls below its chance to
/// fire; firing starts the cooldown anew.
pub open spec fn decided(
    ai: EnemyAI,
    e: Tank,
    p: Tank,
    obstacles: Seq<Obstacle>,
    arena: Arena,
    now: i64,
    dt: i64,
    draws: AiDraws,
) -> (EnemyAI, Tank, bool) {
    let distance = e.position.dist(&p.position) as i64;
    let moved = steered(ai.observed(p, dt), e, p, obstacles, arena, now, draws);
    let turned = aimed(moved.0, moved.1, p, draws);
    let fire = turned.ready(now) && draws.shoot_roll < moved.0.shoot_chance(distance);
    (
        moved.0,
        if fire {
            Tank { last_shot: now, ..turned }
        } else {
            turned
        },
        fire,
    )
}

/// A decision moves no agent and changes neither its size nor its health.
pub proof fn lemma_decision_keeps_body(
    ai: EnemyAI,
    e: Tank,
    p: Tank,
    obstacles: Seq<Obstacle>,
    arena: Arena,
    now: i64,
    dt: i64,
    draws: AiDraws,
)
    ensures
        decided(ai, e, p, obstacles, arena, now, dt, draws).1 == (Tank {
            velocity: decided(ai, e, p, obstacles, arena, now, dt, draws).1.velocity,
            angle: decided(ai, e, p, obstacles, arena, now, dt, draws).1.angle,
            last_shot: decided(ai, e, p, obstacles, arena, now, dt, draws).1.last_shot,
            ..e
        }),
        decided(ai, e, p, obstacles, arena, now, dt, draws).0.difficulty == ai.difficulty,
        decided(ai, e, p, obstacles, arena, now, dt, draws).0.aggression_level
            == ai.aggression_level,
{
}

impl EnemyAI {
    /// Picks the next re-decision interval from `lo..hi` and notes that a direction was
    /// chosen at `now`.
    fn redecide(&mut self, now: i64, lo: i64, hi: i64, draws: &AiDraws)
        requires
            old(self).wf(),
            draws.wf(),
            0 <= now <= TIME_MAX,
            0 <= lo <= hi <= 10_000,
        ensures
            *final(self) == redecided(*old(self), now, lo as int, hi as int, *draws),
            final(self).wf(),
    {
        proof {
            lemma_scaled_shrinks((hi - lo) as int, draws.interval_roll as int, UNIT as int);
        }
        self.last_direction_change = now;
        self.direction_change_interval = lo + mul_div(hi - lo, draws.interval_roll, UNIT);
    }

    /// Makes the decision of one tick with the numbers `draws` standing for chance:
    /// takes note of the player, steers, aims, and decides whether to fire.
    pub fn decide(
        &mut self,
        enemy_tank: &mut Tank,
        player_tank: &Tank,
        obstacles: &[Obstacle],
        arena: &Arena,
        now: i64,
        dt: i64,
        draws: &AiDraws,
    ) -> (fire: bool)
        requires
            old(self).wf(),
            old(enemy_tank).wf(),
            player_tank.wf(),
            field_wf(obstacles@),
            arena.wf(),
            draws.wf(),
            0 <= now <= TIME_MAX,
            0 <= dt <= DT_MAX,
        ensures
            (*final(self), *final(enemy_tank), fire) == decided(
                *old(self),
                *old(enemy_tank),
                *player_tank,
                obstacles@,
                *arena,
                now,
                dt,
                *draws,
            ),
            final(self).wf(),
            final(enemy_tank).wf(),
    {
        self.update_player_velocity_estimate(player_tank, dt);
        let distance_to_player = enemy_tank.position.distance_to(&player_tank.position);
        self.steer(enemy_tank, player_tank, obstacles, arena, now, draws);
        self.take_aim(enemy_tank, player_tank, draws);
        let fire = enemy_tank.can_shoot(now) && self.should_shoot(
            enemy_tank,
            player_tank,
            distance_to_player,
            draws.shoot_roll,
        );
        if fire {
            enemy_tank.shoot(now);
        }
        fire
    }

    /// Makes the movement decision of one tick.
    pub fn steer(
        &mut self,
        enemy_tank: &mut Tank,
        player_tank: &Tank,
        obstacles: &[Obstacle],
        arena: &Arena,
        now: i64,
        draws: &AiDraws,
    )
        requires
            old(self).wf(),
            old(enemy_tank).wf(),
            player_tank.wf(),
            field_wf(obstacles@),
            arena.wf(),
            draws.wf(),
            0 <= now <= TIME_MAX,
        ensures
            (*final(self), *final(enemy_tank)) == steered(
                *old(self),
                *old(enemy_tank),
                *player_tank,
                obstacles@,
                *arena,
                now,
                *draws,
            ),
            final(self).wf(),
            final(enemy_tank).wf(),
    {
        let distance_to_player = enemy_tank.position.distance_to(&player_tank.position);
        let distance_up = vector_length_up(
            enemy_tank.position.x - player_tank.position.x,
            enemy_tank.position.y - player_tank.position.y,
        );
        let (retreat_distance, approach_distance): (i64, i64) = if self.difficulty <= 1000 {
            (150_000, 300_000)
        } else if self.difficulty <= 2000 {
            (120_000, 250_000)
        } else {
            (100_000, 200_000)
        };
        let should_pursue = if self.difficulty <= 1000 {
            draws.pursue_roll < 800
        } else if self.difficulty <= 2000 {
            draws.pursue_roll < 700
        } else {
            draws.pursue_roll < 900
        };
        let due = now - self.last_direction_change > self.direction_change_interval;
        if self.check_and_avoid_boundaries(enemy_tank, arena) {
        } else if self.check_and_avoid_obstacles(enemy_tank, obstacles) {
        } else if should_pursue {
            if distance_to_player < retreat_distance {
                self.retreat_from_player(enemy_tank, player_tank);
            } else if distance_up > approach_distance {
                self.approach_player(enemy_tank, player_tank);
            } else if due {
                if self.difficulty <= 1000 {
                    self.tactical_movement(enemy_tank, player_tank, draws);
                    self.redecide(now, 2000, 4000, draws);
                } else {
                    self.random_movement(enemy_tank, draws);
                    self.redecide(now, 1000, 3000, draws);
                }
            }
        } else if due {
            self.random_movement(enemy_tank, draws);
            self.redecide(now, 2000, 5000, draws);
        }
    }

    /// Makes the aiming decision of one tick.
    pub fn take_aim(&self, enemy_tank: &mut Tank, player_tank: &Tank, draws: &AiDraws)
        requires
            self.wf(),
            old(enemy_tank).wf(),
            player_tank.wf(),
        ensures
            *final(enemy_tank) == aimed(*self, *old(enemy_tank), *player_tank, *draws),
            final(enemy_tank).wf(),
    {
        if self.difficulty <= 1000 {
            if draws.aim_roll < 800 {
                self.aim_at_player_predictive(enemy_tank, player_tank);
            }
        } else {
            self.aim_at_player(enemy_tank, player_tank);
        }
    }

    /// Makes the decision of one tick, with chance drawn from `rng`.
    pub fn update(
        &mut self,
        enemy_tank: &mut Tank,
        player_tank: &Tank,
        obstacles: &[Obstacle],
        arena: &Arena,
        now: i64,
        dt: i64,
        rng: &mut rand::rngs::StdRng,
    ) -> (fire: bool)
        requires
            old(self).wf(),
            old(enemy_tank).wf(),
            player_tank.wf(),
            field_wf(obstacles@),
            arena.wf(),
            0 <= now <= TIME_MAX,
            0 <= dt <= DT_MAX,
        ensures
            exists|draws: AiDraws|
                draws.wf() && (*final(self), *final(enemy_tank), fire) == #[trigger] decided(
                    *old(self),
                    *old(enemy_tank),
                    *player_tank,
                    obstacles@,
                    *arena,
                    now,
                    dt,
                    draws,
                ),
            final(self).wf(),
            final(enemy_tank).wf(),
            final(enemy_tank).position == old(enemy_tank).position,
            final(enemy_tank).size == old(enemy_tank).size,
            final(enemy_tank).health == old(enemy_tank).health,
    {
        let draws = AiDraws::sample(rng);
        proof {
            lemma_decision_keeps_body(
                *self,
                *enemy_tank,
                *player_tank,
                obstacles@,
                *arena,
                now,
                dt,
                draws,
            );
        }
        self.decide(enemy_tank, player_tank, obstacles, arena, now, dt, &draws)
    }
}

} // verus!
