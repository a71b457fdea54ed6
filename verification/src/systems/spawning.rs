//! The spawn director: timed arrival of hostile agents and pickups at safe places.
use crate::entities::obstacle::Obstacle;
use crate::entities::powerup::{PowerUp, PowerUpType};
use crate::entities::tank::{field_wf, Tank};
use crate::entities::{Arena, Position};
use crate::fixed::{
    abs, lemma_trunc_div_bound, max, min, mul_div, scaled, AGENT_MAX, TIME_MAX, UNIT,
};
use crate::random::draw_range;
use crate::systems::collision::{powerups_wf, tanks_wf};
use vstd::prelude::*;

verus! {

/// Largest difficulty multiplier, in thousandths: the largest at which the speed of a
/// recruit, 80 units a second grown by half of what the multiplier exceeds one by,
/// does not pass `SPEED_MAX`. The multiplier stops rising there.
pub const DIFFICULTY_MAX: i64 = 249_000;

/// How far from every edge of the arena a spawn position lies at least.
pub const SPAWN_INSET: i64 = 50_000;

/// No obstacle may reach into the circle of this radius around a spawn position.
pub const SPAWN_CLEARANCE: i64 = 30_000;

/// How many positions a search for a spawn position samples.
pub const SPAWN_ATTEMPTS: usize = 20;

/// Shortest time between the arrivals of two hostile agents, in milliseconds.
pub const SPAWN_INTERVAL_FLOOR: i64 = 500;

/// Number of hostile agents that may be in play at once.
pub const ENEMY_CAP: usize = 4;

/// The spawn director: when the last agent and pickup arrived, how long it waits
/// between arrivals, how many hostile agents it admits, and how hard the session is.
pub struct SpawnSystem {
    /// When the last hostile agent arrived.
    pub last_enemy_spawn: i64,
    /// The time between two hostile arrivals, in milliseconds.
    pub enemy_spawn_interval: i64,
    /// When the last pickup arrived.
    pub last_powerup_spawn: i64,
    /// The time between two pickups, in milliseconds.
    pub powerup_spawn_interval: i64,
    /// How many hostile agents may be in play at once.
    pub max_enemies: usize,
    /// How hard the session has become, in thousandths.
    pub difficulty_multiplier: i64,
}

/// Time between the arrivals of two hostile agents at the given difficulty, before any
/// floor: three seconds divided by the multiplier.
pub open spec fn spawn_interval(difficulty: i64) -> int {
    3_000_000int / (difficulty as int)
}

/// The hostile agent that arrives at `(x, y)` at the given difficulty multiplier. Its
/// health is 50 times the multiplier. On the easiest tier it has twice the basic speed
/// and a cooldown of 0.6 seconds; above, its speed grows by half of what the
/// multiplier exceeds one by.
pub open spec fn recruit(x: i64, y: i64, multiplier: i64) -> Tank {
    let health = scaled(50, multiplier as int, UNIT as int) as i32;
    if multiplier <= 1000 {
        Tank {
            health,
            max_health: health,
            speed: 160_000,
            shot_cooldown: 600,
            ..Tank::enemy_at(x, y)
        }
    } else {
        Tank {
            health,
            max_health: health,
            speed: scaled(80_000, 1000 + (multiplier - 1000) / 2, UNIT as int) as i64,
            ..Tank::enemy_at(x, y)
        }
    }
}

/// The position lies in the arena, at least `SPAWN_INSET` away from every edge.
pub open spec fn interior(p: Position, arena: Arena) -> bool {
    &&& SPAWN_INSET <= p.x < arena.width - SPAWN_INSET
    &&& SPAWN_INSET <= p.y < arena.height - SPAWN_INSET
}

/// No obstacle of the field reaches into the clearance around the position.
pub open spec fn clear_of(p: Position, obstacles: Seq<Obstacle>) -> bool {
    forall|i: int|
        0 <= i < obstacles.len() ==> !(#[trigger] obstacles[i]).touches_circle(
            &p,
            SPAWN_CLEARANCE as int,
        )
}

/// The first of the sampled positions that is clear of the obstacles, if any is.
pub open spec fn first_clear(samples: Seq<Position>, obstacles: Seq<Obstacle>) -> Option<Position>
    decreases samples.len(),
{
    if samples.len() == 0 {
        None
    } else if clear_of(samples[0], obstacles) {
        Some(samples[0])
    } else {
        first_clear(samples.skip(1), obstacles)
    }
}

/// Every sampled position lies in the interior of the arena.
pub open spec fn all_interior(samples: Seq<Position>, arena: Arena) -> bool {
    forall|i: int| 0 <= i < samples.len() ==> interior(#[trigger] samples[i], arena)
}

/// The position that a search returns is one of the samples.
pub proof fn lemma_first_clear_is_sample(samples: Seq<Position>, obstacles: Seq<Obstacle>)
    ensures
        match first_clear(samples, obstacles) {
            Some(p) => samples.contains(p) && clear_of(p, obstacles),
            None => forall|i: int| 0 <= i < samples.len() ==> !clear_of(#[trigger] samples[i], obstacles),
        },
    decreases samples.len(),
{
    if samples.len() > 0 {
        if clear_of(samples[0], obstacles) {
            assert(samples[0] == samples[0]);
        } else {
            let rest = samples.skip(1);
            lemma_first_clear_is_sample(rest, obstacles);
            match first_clear(rest, obstacles) {
                Some(p) => {
                    let at = choose|at: int| 0 <= at < rest.len() && rest[at] == p;
                    assert(samples[at + 1] == p);
                },
                None => {
                    assert forall|i: int| 0 <= i < samples.len() implies !clear_of(
                        #[trigger] samples[i],
                        obstacles,
                    ) by {
                        if i > 0 {
                            assert(rest[i - 1] == samples[i]);
                        }
                    }
                },
            }
        }
    }
}

/// Is the position clear of every obstacle?
pub fn is_clear(pos: &Position, obstacles: &[Obstacle]) -> (safe: bool)
    requires
        pos.wf(),
        field_wf(obstacles@),
    ensures
        safe == clear_of(*pos, obstacles@),
{
    let mut i: usize = 0;
    while i < obstacles.len()
        invariant
            0 <= i <= obstacles.len(),
            pos.wf(),
            field_wf(obstacles@),
            forall|j: int|
                0 <= j < i ==> !(#[trigger] obstacles@[j]).touches_circle(
                    pos,
                    SPAWN_CLEARANCE as int,
                ),
        decreases obstacles.len() - i,
    {
        assert(obstacles@[i as int].wf());
        if obstacles[i].collides_with_circle(pos, SPAWN_CLEARANCE) {
            return false;
        }
        i += 1;
    }
    true
}

/// Picks the first of the sampled positions that is clear of every obstacle.
pub fn pick_first_clear(samples: &Vec<Position>, obstacles: &[Obstacle]) -> (found: Option<Position>)
    requires
        forall|i: int| 0 <= i < samples.len() ==> (#[trigger] samples@[i]).wf(),
        field_wf(obstacles@),
    ensures
        found == first_clear(samples@, obstacles@),
{
    let mut i: usize = 0;
    proof {
        assert(samples@.skip(0) =~= samples@);
    }
    while i < samples.len()
        invariant
            0 <= i <= samples.len(),
            forall|j: int| 0 <= j < samples.len() ==> (#[trigger] samples@[j]).wf(),
            field_wf(obstacles@),
            first_clear(samples@, obstacles@) == first_clear(samples@.skip(i as int), obstacles@),
        decreases samples.len() - i,
    {
        let pos = samples[i];
        proof {
            assert(samples@[i as int].wf());
            assert(samples@.skip(i as int)[0] == pos);
            assert(samples@.skip(i as int).skip(1) =~= samples@.skip(i as int + 1));
        }
        if is_clear(&pos, obstacles) {
            return Some(pos);
        }
        i += 1;
    }
    None
}

/// The positions are what one search samples in the arena: `SPAWN_ATTEMPTS` positions
/// in the interior, or none at all where the arena has no interior.
pub open spec fn sampled(samples: Seq<Position>, arena: Arena) -> bool {
    &&& all_interior(samples, arena)
    &&& samples.len() == if arena.width > 2 * SPAWN_INSET && arena.height > 2 * SPAWN_INSET {
        SPAWN_ATTEMPTS as int
    } else {
        0
    }
}

/// `found` is what a search for a spawn position finds for some samples: the first of
/// them that is clear of every obstacle, if one is.
pub open spec fn search_result(found: Option<Position>, obstacles: Seq<Obstacle>, arena: Arena) -> bool {
    exists|samples: Seq<Position>|
        sampled(samples, arena) && found == #[trigger] first_clear(samples, obstacles)
}

/// What a tick of the director does to the hostile agents. Where none is due, nothing.
/// Where one is due, a search takes place: a position found receives a recruit, and
/// the time is noted; without one nothing changes, so that the search takes place
/// again at the next tick. `last` is the time of the last arrival afterwards.
pub open spec fn enemy_arrival(
    s: SpawnSystem,
    before: Seq<Tank>,
    after: Seq<Tank>,
    last: i64,
    obstacles: Seq<Obstacle>,
    arena: Arena,
    now: i64,
) -> bool {
    if s.enemy_due(before.len(), now) {
        exists|found: Option<Position>| #[trigger]
            search_result(found, obstacles, arena) && match found {
                Some(p) => after == before.push(recruit(p.x, p.y, s.difficulty_multiplier))
                    && last == now,
                None => after == before && last == s.last_enemy_spawn,
            }
    } else {
        after == before && last == s.last_enemy_spawn
    }
}

/// What a tick of the director does to the pickups. Where none is due, nothing. Where
/// one is due, a search takes place: a position found receives a fresh pickup of some
/// kind, and the time is noted; without one nothing changes. `last` is the time of the
/// last arrival afterwards.
pub open spec fn powerup_arrival(
    s: SpawnSystem,
    before: Seq<PowerUp>,
    after: Seq<PowerUp>,
    last: i64,
    obstacles: Seq<Obstacle>,
    arena: Arena,
    now: i64,
) -> bool {
    if s.powerup_due(now) {
        exists|found: Option<Position>, index: int|
            #![trigger search_result(found, obstacles, arena), PowerUpType::of_index(index)]
            search_result(found, obstacles, arena) && 0 <= index < 5 && match found {
                Some(p) => after == before.push(
                    PowerUp::fresh(p.x, p.y, PowerUpType::of_index(index)),
                ) && last == now,
                None => after == before && last == s.last_powerup_spawn,
            }
    } else {
        after == before && last == s.last_powerup_spawn
    }
}

/// A position that a search finds lies in the interior of the arena, clear of every
/// obstacle.
pub proof fn lemma_search_result_is_safe(found: Option<Position>, obstacles: Seq<Obstacle>, arena: Arena)
    requires
        search_result(found, obstacles, arena),
    ensures
        match found {
            Some(p) => interior(p, arena) && clear_of(p, obstacles),
            None => true,
        },
{
    let samples = choose|samples: Seq<Position>|
        sampled(samples, arena) && found == #[trigger] first_clear(samples, obstacles);
    lemma_first_clear_is_sample(samples, obstacles);
    match found {
        Some(p) => {
            let at = choose|at: int| 0 <= at < samples.len() && samples[at] == p;
            assert(interior(samples[at], arena));
        },
        None => {},
    }
}

impl SpawnSystem {
    /// Times lie within their limits, and the multiplier is positive and at most
    /// `DIFFICULTY_MAX`.
    pub open spec fn wf(&self) -> bool {
        &&& 0 <= self.last_enemy_spawn <= TIME_MAX
        &&& 0 <= self.enemy_spawn_interval <= TIME_MAX
        &&& 0 <= self.last_powerup_spawn <= TIME_MAX
        &&& 0 <= self.powerup_spawn_interval <= TIME_MAX
        &&& 0 < self.difficulty_multiplier <= DIFFICULTY_MAX
    }

    /// A hostile agent is due at `now`, given how many are in play.
    pub open spec fn enemy_due(&self, in_play: nat, now: i64) -> bool {
        now - self.last_enemy_spawn > self.enemy_spawn_interval && in_play < self.max_enemies
    }

    /// A pickup is due at `now`.
    pub open spec fn powerup_due(&self, now: i64) -> bool {
        now - self.last_powerup_spawn > self.powerup_spawn_interval
    }

    /// The director at the start of a session of the given difficulty.
    pub open spec fn fresh(difficulty: i64) -> SpawnSystem {
        SpawnSystem {
            last_enemy_spawn: 0,
            enemy_spawn_interval: spawn_interval(difficulty) as i64,
            last_powerup_spawn: 0,
            powerup_spawn_interval: 8000,
            max_enemies: ENEMY_CAP,
            difficulty_multiplier: difficulty,
        }
    }

    /// The director after one rise of the difficulty: the multiplier grows by a tenth,
    /// up to `DIFFICULTY_MAX`; the interval between hostile arrivals follows it, down
    /// to half a second; the cap on hostile agents is four.
    pub open spec fn harder(&self) -> SpawnSystem {
        let multiplier = min(self.difficulty_multiplier + 100, DIFFICULTY_MAX as int) as i64;
        SpawnSystem {
            difficulty_multiplier: multiplier,
            enemy_spawn_interval: max(spawn_interval(multiplier), SPAWN_INTERVAL_FLOOR as int) as i64,
            max_enemies: ENEMY_CAP,
            ..*self
        }
    }

    /// Checks that every number lies within its limit.
    pub fn is_well_formed(&self) -> (b: bool)
        ensures
            b == self.wf(),
    {
        0 <= self.last_enemy_spawn && self.last_enemy_spawn <= TIME_MAX && 0
            <= self.enemy_spawn_interval && self.enemy_spawn_interval <= TIME_MAX && 0
            <= self.last_powerup_spawn && self.last_powerup_spawn <= TIME_MAX && 0
            <= self.powerup_spawn_interval && self.powerup_spawn_interval <= TIME_MAX && 0
            < self.difficulty_multiplier && self.difficulty_multiplier <= DIFFICULTY_MAX
    }

    /// The director of a session of the given difficulty, in thousandths.
    pub fn new(difficulty: i64) -> (s: Self)
        requires
            0 < difficulty <= DIFFICULTY_MAX,
        ensures
            s == Self::fresh(difficulty),
            s.wf(),
    {
        Self {
            last_enemy_spawn: 0,
            enemy_spawn_interval: 3_000_000 / difficulty,
            last_powerup_spawn: 0,
            powerup_spawn_interval: 8000,
            max_enemies: ENEMY_CAP,
            difficulty_multiplier: difficulty,
        }
    }

    /// Creates the hostile agent that arrives at `(x, y)` at this difficulty.
    pub fn recruit_at(&self, x: i64, y: i64) -> (t: Tank)
        requires
            self.wf(),
        ensures
            t == recruit(x, y, self.difficulty_multiplier),
            (Position { x, y }).wf() && abs(x as int) <= AGENT_MAX
                && abs(y as int) <= AGENT_MAX ==> t.wf(),
            t.size == 18_000,
    {
        let mut enemy = Tank::new_enemy(x, y);
        proof {
            lemma_trunc_div_bound(50 * self.difficulty_multiplier, UNIT as int, 12_450);
            lemma_trunc_div_bound(
                80_000 * (1000 + (self.difficulty_multiplier - 1000) / 2),
                UNIT as int,
                10_000_000,
            );
        }
        enemy.health = mul_div(50, self.difficulty_multiplier, UNIT) as i32;
        enemy.max_health = enemy.health;
        if self.difficulty_multiplier <= 1000 {
            enemy.speed = 160_000;
            enemy.shot_cooldown = 600;
        } else {
            enemy.speed = mul_div(80_000, 1000 + (self.difficulty_multiplier - 1000) / 2, UNIT);
        }
        enemy
    }

    /// Samples `SPAWN_ATTEMPTS` positions in the interior of the arena and returns the
    /// first that is clear of every obstacle. An arena without interior gives none.
    pub fn find_safe_spawn_position(&self, obstacles: &[Obstacle], arena: &Arena, rng: &mut rand::rngs::StdRng) -> (found:
        Option<Position>)
        requires
            arena.wf(),
            field_wf(obstacles@),
        ensures
            search_result(found, obstacles@, *arena),
            match found {
                Some(p) => interior(p, *arena) && clear_of(p, obstacles@),
                None => true,
            },
    {
        let mut samples: Vec<Position> = Vec::new();
        if arena.width > 2 * SPAWN_INSET && arena.height > 2 * SPAWN_INSET {
            let mut i: usize = 0;
            while i < SPAWN_ATTEMPTS
                invariant
                    0 <= i <= SPAWN_ATTEMPTS,
                    arena.wf(),
                    arena.width > 2 * SPAWN_INSET,
                    arena.height > 2 * SPAWN_INSET,
                    samples@.len() == i,
                    all_interior(samples@, *arena),
                decreases SPAWN_ATTEMPTS - i,
            {
                let x = draw_range(rng, SPAWN_INSET, arena.width - SPAWN_INSET);
                let y = draw_range(rng, SPAWN_INSET, arena.height - SPAWN_INSET);
                samples.push(Position::new(x, y));
                i += 1;
            }
        }
        proof {
            assert(sampled(samples@, *arena));
            assert(search_result(first_clear(samples@, obstacles@), obstacles@, *arena));
            lemma_search_result_is_safe(first_clear(samples@, obstacles@), obstacles@, *arena);
            assert forall|i: int| 0 <= i < samples.len() implies (#[trigger] samples@[i]).wf() by {
                assert(interior(samples@[i], *arena));
            }
        }
        pick_first_clear(&samples, obstacles)
    }

    /// Lets a hostile agent and a pickup arrive, each if it is due and a safe position
    /// is found for it. A search that finds none is tried again at the next tick.
    pub fn update(
        &mut self,
        enemies: &mut Vec<Tank>,
        powerups: &mut Vec<PowerUp>,
        obstacles: &[Obstacle],
        arena: &Arena,
        now: i64,
        rng: &mut rand::rngs::StdRng,
    )
        requires
            old(self).wf(),
            tanks_wf(old(enemies)@),
            powerups_wf(old(powerups)@),
            field_wf(obstacles@),
            arena.wf(),
            0 <= now <= TIME_MAX,
        ensures
            enemy_arrival(
                *old(self),
                old(enemies)@,
                final(enemies)@,
                final(self).last_enemy_spawn,
                obstacles@,
                *arena,
                now,
            ),
            powerup_arrival(
                *old(self),
                old(powerups)@,
                final(powerups)@,
                final(self).last_powerup_spawn,
                obstacles@,
                *arena,
                now,
            ),
            final(self).enemy_spawn_interval == old(self).enemy_spawn_interval,
            final(self).powerup_spawn_interval == old(self).powerup_spawn_interval,
            final(self).max_enemies == old(self).max_enemies,
            final(self).difficulty_multiplier == old(self).difficulty_multiplier,
            final(self).wf(),
            tanks_wf(final(enemies)@),
            powerups_wf(final(powerups)@),
    {
        if now - self.last_enemy_spawn > self.enemy_spawn_interval && enemies.len()
            < self.max_enemies {
            let found = self.find_safe_spawn_position(obstacles, arena, rng);
            if let Some(spawn_pos) = found {
                let enemy = self.recruit_at(spawn_pos.x, spawn_pos.y);
                enemies.push(enemy);
                self.last_enemy_spawn = now;
                proof {
                    assert forall|i: int| 0 <= i < enemies@.len() implies (#[trigger] enemies@[i]).wf() by {
                        if i < old(enemies)@.len() {
                            assert(old(enemies)@[i].wf());
                        }
                    }
                }
            }
            proof {
                assert(search_result(found, obstacles@, *arena));
            }
        }
        if now - self.last_powerup_spawn > self.powerup_spawn_interval {
            let found = self.find_safe_spawn_position(obstacles, arena, rng);
            let ghost mut index: int = 0;
            if let Some(spawn_pos) = found {
                let powerup = PowerUp::new_random(spawn_pos.x, spawn_pos.y, rng);
                powerups.push(powerup);
                self.last_powerup_spawn = now;
                proof {
                    index = choose|index: int|
                        0 <= index < 5 && powerup == PowerUp::fresh(
                            spawn_pos.x,
                            spawn_pos.y,
                            PowerUpType::of_index(index),
                        );
                    assert forall|i: int| 0 <= i < powerups@.len() implies (#[trigger] powerups@[i]).wf() by {
                        if i < old(powerups)@.len() {
                            assert(old(powerups)@[i].wf());
                        }
                    }
                }
            }
            proof {
                assert(search_result(found, obstacles@, *arena) && 0 <= index < 5 && match found {
                    Some(p) => powerups@ == old(powerups)@.push(
                        PowerUp::fresh(p.x, p.y, PowerUpType::of_index(index)),
                    ),
                    None => powerups@ == old(powerups)@,
                });
            }
        }
    }

    /// Raises the difficulty by one step.
    pub fn increase_difficulty(&mut self)
        requires
            old(self).wf(),
        ensures
            *final(self) == old(self).harder(),
            final(self).wf(),
    {
        self.difficulty_multiplier = if self.difficulty_multiplier + 100 <= DIFFICULTY_MAX {
            self.difficulty_multiplier + 100
        } else {
            DIFFICULTY_MAX
        };
        let interval = 3_000_000 / self.difficulty_multiplier;
        self.enemy_spawn_interval = if interval >= SPAWN_INTERVAL_FLOOR {
            interval
        } else {
            SPAWN_INTERVAL_FLOOR
        };
        self.max_enemies = ENEMY_CAP;
    }
}

} // verus!
