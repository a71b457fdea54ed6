//! The simulation tick: its steps in order, and what holds after it.
use super::{ais_wf, FrameInput, Game, GameState};
use crate::entities::enemy::EnemyAI;
use crate::entities::{Arena, Position};
use crate::fixed::{sat_i32, DT_MAX, TIME_MAX};
use crate::math_challenge::MathChallenge;
use crate::systems::input::InputIntent;
use crate::systems::spawning::{
    enemy_arrival, lemma_search_result_is_safe, powerup_arrival, recruit, search_result,
};
use super::removal::{kept, lemma_fallen_ascending, lemma_survivors, rising, without};
use super::turns::{enemies_driven, enemy_moved};
use crate::entities::enemy::{decided, AiDraws};
use crate::entities::tank::{lemma_hits_change_health_only, Tank};
use crate::systems::collision::{battered, fallen, hits_on};
use crate::systems::input::commanded;
use vstd::prelude::*;

verus! {

/// Time between two rises of the difficulty, in milliseconds.
pub const ESCALATION_PERIOD: i64 = 30_000;

impl Game {
    /// The wave is cleared: its quota of kills is met and no hostile agent is left.
    pub open spec fn wave_cleared(&self) -> bool {
        self.enemies_killed_this_wave >= self.enemies_per_wave && self.enemy_tanks@.len() == 0
    }

    /// A rise of the difficulty is due at `now`.
    pub open spec fn escalation_due(&self, now: i64) -> bool {
        now - self.last_difficulty_increase > ESCALATION_PERIOD
    }

    /// This session is `before` after the bookkeeping of a tick at `now`, but for the
    /// challenge it may hold. A cleared wave starts the next one; a due rise of the
    /// difficulty takes place; and a player without health left goes to the revival
    /// challenge.
    #[verifier::opaque]
    pub open spec fn booked(&self, before: &Game, now: i64) -> bool {
        let cleared = before.wave_cleared();
        let director = if cleared {
            before.spawn_system.harder()
        } else {
            before.spawn_system
        };
        &&& self.wave == if cleared {
            sat_i32(before.wave + 1) as i32
        } else {
            before.wave
        }
        &&& self.enemies_killed_this_wave == if cleared {
            0
        } else {
            before.enemies_killed_this_wave
        }
        &&& self.enemies_per_wave == if cleared {
            sat_i32(before.enemies_per_wave + 2) as i32
        } else {
            before.enemies_per_wave
        }
        &&& self.score == if cleared {
            sat_i32(before.score + self.wave * 50) as i32
        } else {
            before.score
        }
        &&& self.player_tank == if cleared {
            before.player_tank.healed(25)
        } else {
            before.player_tank
        }
        &&& self.spawn_system == if before.escalation_due(now) {
            director.harder()
        } else {
            director
        }
        &&& self.last_difficulty_increase == if before.escalation_due(now) {
            now
        } else {
            before.last_difficulty_increase
        }
        &&& self.state == if self.player_tank.health <= 0 {
            GameState::MathChallenge
        } else {
            before.state
        }
        &&& self.player_tank.health <= 0 ==> self.math_challenge.is_some()
            && self.math_challenge.unwrap().fresh()
        &&& self.player_tank.health > 0 ==> self.math_challenge == before.math_challenge
        &&& self.enemy_tanks == before.enemy_tanks
        &&& self.enemy_ais == before.enemy_ais
        &&& self.bullets == before.bullets
        &&& self.obstacles == before.obstacles
        &&& self.powerups == before.powerups
        &&& self.high_score == before.high_score
        &&& self.difficulty == before.difficulty
    }

    /// This session is what the six steps of a tick make of `before`, one after the
    /// other: the player's turn, the turns of the hostile agents, the flight of
    /// projectiles and pickups, the collisions, the arrivals, and the bookkeeping.
    pub open spec fn ticked(
        &self,
        before: &Game,
        intent: InputIntent,
        arena: Arena,
        now: i64,
        dt: i64,
    ) -> bool {
        exists|g1: Game, g2: Game, g3: Game, g4: Game, g5: Game|
            #![trigger
                g1.player_commanded(before, intent, arena, now, dt),
                g2.enemies_turned(&g1, arena, now, dt),
                g3.flown(&g2, dt, arena),
                g4.collisions_resolved(&g3, now),
                g5.reinforced(&g4, arena, now)]
            g1.player_commanded(before, intent, arena, now, dt) && g2.enemies_turned(
                &g1,
                arena,
                now,
                dt,
            ) && g3.flown(&g2, dt, arena) && g4.collisions_resolved(&g3, now) && g5.reinforced(
                &g4,
                arena,
                now,
            ) && self.booked(&g5, now)
    }

    /// This session is what one frame of play makes of `before`. Escape pauses and
    /// changes nothing else. Otherwise the six steps of a tick take place, after which
    /// every agent that was inside the arena is inside it, every projectile in play
    /// is inside the arena and younger than its maximum age, every hostile agent has
    /// its memory, and the session is in the revival challenge exactly if the tick
    /// has left the player without health.
    pub open spec fn tick_handled(
        &self,
        before: &Game,
        input: FrameInput,
        arena: Arena,
        now: i64,
        dt: i64,
    ) -> bool {
        if input.escape {
            self.moved_to(before, GameState::Paused)
        } else {
            &&& self.ticked(before, input.intent, arena, now, dt)
            &&& before.agents_contained(&arena) ==> self.agents_contained(&arena)
            &&& self.bullets_active(&arena)
            &&& self.enemy_tanks@.len() == self.enemy_ais@.len()
            &&& self.state == if self.player_tank.health <= 0 {
                GameState::MathChallenge
            } else {
                before.state
            }
            &&& self.player_tank.health <= 0 ==> self.math_challenge.is_some()
                && self.math_challenge.unwrap().fresh()
            &&& self.player_tank.health > 0 ==> self.math_challenge == before.math_challenge
            &&& self.high_score == before.high_score
            &&& self.difficulty == before.difficulty
        }
    }

    /// This session is `before` after the director has brought in what was due at
    /// `now`, whatever chance has contributed: at most one hostile agent and one
    /// pickup have arrived, and an agent that arrived has its memory.
    #[verifier::opaque]
    pub open spec fn reinforced(&self, before: &Game, arena: Arena, now: i64) -> bool {
        &&& enemy_arrival(
            before.spawn_system,
            before.enemy_tanks@,
            self.enemy_tanks@,
            self.spawn_system.last_enemy_spawn,
            before.obstacles@,
            arena,
            now,
        )
        &&& powerup_arrival(
            before.spawn_system,
            before.powerups@,
            self.powerups@,
            self.spawn_system.last_powerup_spawn,
            before.obstacles@,
            arena,
            now,
        )
        &&& self.spawn_system.enemy_spawn_interval == before.spawn_system.enemy_spawn_interval
        &&& self.spawn_system.powerup_spawn_interval
            == before.spawn_system.powerup_spawn_interval
        &&& self.spawn_system.max_enemies == before.spawn_system.max_enemies
        &&& self.spawn_system.difficulty_multiplier == before.spawn_system.difficulty_multiplier
        &&& self.enemy_ais@.len() == self.enemy_tanks@.len()
        &&& self.enemy_ais@.take(before.enemy_ais@.len() as int) == before.enemy_ais@
        &&& forall|i: int|
            before.enemy_ais@.len() <= i < self.enemy_ais@.len() ==> (
            #[trigger] self.enemy_ais@[i]).starting(before.difficulty, now)
        &&& self.player_tank == before.player_tank
        &&& self.bullets == before.bullets
        &&& self.obstacles == before.obstacles
        &&& self.same_counters(before)
        &&& self.state == before.state
        &&& self.high_score == before.high_score
        &&& self.math_challenge == before.math_challenge
    }

    /// Lets the director bring in a hostile agent and a pickup where they are due, and
    /// gives every hostile agent that arrived its memory.
    pub fn reinforce(&mut self, arena: &Arena, now: i64, rng: &mut rand::rngs::StdRng)
        requires
            old(self).wf(),
            arena.wf(),
            0 <= now <= TIME_MAX,
        ensures
            final(self).reinforced(old(self), *arena, now),
            final(self).steady(old(self)),
            final(self).bullets == old(self).bullets,
            final(self).wf(),
            old(self).agents_contained(arena) ==> final(self).agents_contained(arena),
    {
        reveal(Game::reinforced);
        let ghost t0 = self.enemy_tanks@;
        let ghost a0 = self.enemy_ais@;
        self.spawn_system.update(
            &mut self.enemy_tanks,
            &mut self.powerups,
            self.obstacles.as_slice(),
            arena,
            now,
            rng,
        );
        let ghost t1 = self.enemy_tanks@;
        let ghost w1 = self.powerups@;
        let ghost s1 = self.spawn_system;
        proof {
            if self.enemy_tanks@ != t0 {
                let multiplier = old(self).spawn_system.difficulty_multiplier;
                let found = choose|found: Option<Position>| #[trigger]
                    search_result(found, self.obstacles@, *arena) && match found {
                        Some(p) => self.enemy_tanks@ == t0.push(recruit(p.x, p.y, multiplier)),
                        None => self.enemy_tanks@ == t0,
                    };
                lemma_search_result_is_safe(found, self.obstacles@, *arena);
                assert(self.enemy_tanks@[t0.len() as int].contained(arena));
            }
            assert forall|i: int|
                0 <= i < self.enemy_tanks@.len() && old(self).agents_contained(arena) implies (
            #[trigger] self.enemy_tanks@[i]).contained(arena) by {
                if i < t0.len() {
                    assert(self.enemy_tanks@[i] == t0[i]);
                    assert(t0[i].contained(arena));
                }
            }
            assert(self.enemy_ais@.take(a0.len() as int) =~= a0);
        }
        while self.enemy_ais.len() < self.enemy_tanks.len()
            invariant
                0 <= now <= TIME_MAX,
                a0.len() <= self.enemy_ais@.len(),
                self.enemy_ais@.len() <= self.enemy_tanks@.len(),
                self.enemy_ais@.take(a0.len() as int) == a0,
                ais_wf(a0),
                forall|i: int|
                    a0.len() <= i < self.enemy_ais@.len() ==> (#[trigger] self.enemy_ais@[i]).starting(
                        self.difficulty,
                        now,
                    ) && self.enemy_ais@[i].wf(),
                self.enemy_tanks@ == t1,
                self.powerups@ == w1,
                self.spawn_system == s1,
                self.player_tank == old(self).player_tank,
                self.bullets == old(self).bullets,
                self.obstacles == old(self).obstacles,
                self.same_counters(old(self)),
                self.state == old(self).state,
                self.high_score == old(self).high_score,
                self.math_challenge == old(self).math_challenge,
            decreases self.enemy_tanks@.len() - self.enemy_ais@.len(),
        {
            let ghost held = self.enemy_ais@;
            let ai = EnemyAI::new_with_difficulty(self.difficulty, now, rng);
            self.enemy_ais.push(ai);
            proof {
                assert(self.enemy_ais@.take(a0.len() as int) =~= held.take(a0.len() as int));
            }
        }
        proof {
            assert forall|i: int| 0 <= i < self.enemy_ais@.len() implies (#[trigger] self.enemy_ais@[i]).wf() by {
                if i < a0.len() {
                    assert(self.enemy_ais@.take(a0.len() as int)[i] == self.enemy_ais@[i]);
                    assert(a0[i].wf());
                } else {
                    assert(self.enemy_ais@[i].starting(self.difficulty, now));
                }
            }
        }
    }

    /// The bookkeeping at the end of a tick: starts the next wave when the wave is
    /// cleared, raises the difficulty when that is due, and sends a player without
    /// health left to the revival challenge, with a new question.
    pub fn bookkeep(&mut self, now: i64, rng: &mut rand::rngs::StdRng)
        requires
            old(self).wf(),
            0 <= now <= TIME_MAX,
        ensures
            final(self).booked(old(self), now),
            final(self).state == if final(self).player_tank.health <= 0 {
                GameState::MathChallenge
            } else {
                old(self).state
            },
            final(self).player_tank.health <= 0 ==> final(self).math_challenge.is_some()
                && final(self).math_challenge.unwrap().fresh(),
            final(self).player_tank.health > 0 ==> final(self).math_challenge == old(
                self,
            ).math_challenge,
            final(self).high_score == old(self).high_score,
            final(self).difficulty == old(self).difficulty,
            final(self).enemy_tanks == old(self).enemy_tanks,
            final(self).enemy_ais == old(self).enemy_ais,
            final(self).bullets == old(self).bullets,
            final(self).player_tank.position == old(self).player_tank.position,
            final(self).player_tank.size == old(self).player_tank.size,
            final(self).wf(),
    {
        reveal(Game::booked);
        if self.enemies_killed_this_wave >= self.enemies_per_wave && self.enemy_tanks.len() == 0 {
            self.next_wave();
        }
        if now - self.last_difficulty_increase > ESCALATION_PERIOD {
            self.spawn_system.increase_difficulty();
            self.last_difficulty_increase = now;
        }
        if self.player_tank.health <= 0 {
            self.math_challenge = Some(MathChallenge::new_random(rng));
            self.state = GameState::MathChallenge;
        }
    }

    /// One tick of play. Escape pauses. Otherwise, in this order: the player's turn;
    /// the turns of the hostile agents; projectiles and pickups move, age and expire;
    /// collisions are resolved; the director brings in what is due; and the books are
    /// kept.
    pub fn update_playing(
        &mut self,
        input: &FrameInput,
        arena: &Arena,
        now: i64,
        dt: i64,
        rng: &mut rand::rngs::StdRng,
    )
        requires
            old(self).wf(),
            old(self).state == GameState::Playing,
            input.intent.wf(),
            arena.wf(),
            0 <= now <= TIME_MAX,
            0 <= dt <= DT_MAX,
        ensures
            final(self).tick_handled(old(self), *input, *arena, now, dt),
            final(self).wf(),
    {
        if input.escape {
            self.state = GameState::Paused;
            return ;
        }
        self.command_player(&input.intent, arena, now, dt);
        let ghost g1 = *self;
        self.drive_enemies(arena, now, dt, rng);
        let ghost g2 = *self;
        self.advance(dt, arena);
        let ghost g3 = *self;
        self.resolve_collisions(now);
        let ghost g4 = *self;
        self.reinforce(arena, now, rng);
        let ghost g5 = *self;
        self.bookkeep(now, rng);
        proof {
            assert(g1.player_commanded(old(self), input.intent, *arena, now, dt));
            assert(g2.enemies_turned(&g1, *arena, now, dt));
            assert(g3.flown(&g2, dt, *arena));
            assert(g4.collisions_resolved(&g3, now));
            assert(g5.reinforced(&g4, *arena, now));
            assert(self.booked(&g5, now));
            assert(self.ticked(old(self), input.intent, *arena, now, dt));
            if old(self).agents_contained(arena) {
                assert(g1.agents_contained(arena));
                assert(g2.agents_contained(arena));
                assert(g3.agents_contained(arena));
                assert(g4.agents_contained(arena));
                assert(g5.agents_contained(arena));
            }
            assert(g3.bullets_active(arena));
            assert(g4.bullets_active(arena));
            assert(g5.bullets_active(arena));
        }
    }
}

/// The hostile agents and memories of `after` are those of `before` that a tick has
/// left, pair by pair: place `j` holds the pair that stood at place `m[j]`, the memory
/// as the agent's decision on the draws `ds[m[j]]` has left it, and the agent as its
/// turn has left it but for the health that hits have taken. The places `m` rise
/// strictly, so no pair has passed another. Behind the pairs left stands at most one
/// pair that arrived in the tick, with a memory newly made for the session's
/// difficulty.
pub open spec fn pairs_follow(
    before: &Game,
    after: &Game,
    m: Seq<int>,
    ds: Seq<AiDraws>,
    intent: InputIntent,
    arena: Arena,
    now: i64,
    dt: i64,
) -> bool {
    let player = commanded(before.player_tank, intent, dt, now).shield_checked(
        now,
    ).moved_safely(dt, before.obstacles@, &arena);
    let obstacles = before.obstacles@;
    &&& rising(m, before.enemy_tanks@.len() as int)
    &&& ds.len() == before.enemy_tanks@.len()
    &&& m.len() <= after.enemy_tanks@.len() <= m.len() + 1
    &&& after.enemy_ais@.len() == after.enemy_tanks@.len()
    &&& forall|j: int|
        0 <= j < m.len() ==> #[trigger] after.enemy_ais@[j] == decided(
            before.enemy_ais@[m[j]],
            before.enemy_tanks@[m[j]],
            player,
            obstacles,
            arena,
            now,
            dt,
            ds[m[j]],
        ).0
    &&& forall|j: int|
        0 <= j < m.len() ==> #[trigger] after.enemy_tanks@[j] == (Tank {
            health: after.enemy_tanks@[j].health,
            ..enemy_moved(
                before.enemy_ais@[m[j]],
                before.enemy_tanks@[m[j]],
                player,
                obstacles,
                arena,
                now,
                dt,
                ds[m[j]],
            )
        })
    &&& forall|j: int|
        m.len() <= j < after.enemy_ais@.len() ==> (#[trigger] after.enemy_ais@[j]).starting(
            before.difficulty,
            now,
        )
}

/// What the player's turn leaves alone, and what it makes of the player.
proof fn lemma_turn_of_player(before: &Game, g: &Game, intent: InputIntent, arena: Arena, now: i64, dt: i64)
    requires
        g.player_commanded(before, intent, arena, now, dt),
    ensures
        g.enemy_tanks@ == before.enemy_tanks@,
        g.enemy_ais@ == before.enemy_ais@,
        g.obstacles@ == before.obstacles@,
        g.difficulty == before.difficulty,
        g.player_tank == commanded(before.player_tank, intent, dt, now).shield_checked(
            now,
        ).moved_safely(dt, before.obstacles@, &arena),
{
    reveal(Game::player_commanded);
}

/// The turns of the hostile agents go by some draws.
proof fn lemma_turns_of_enemies(before: &Game, g: &Game, arena: Arena, now: i64, dt: i64) -> (ds: Seq<
    AiDraws,
>)
    requires
        g.enemies_turned(before, arena, now, dt),
    ensures
        enemies_driven(before, g, arena, now, dt, ds),
        g.difficulty == before.difficulty,
{
    reveal(Game::enemies_turned);
    choose|ds: Seq<AiDraws>| #[trigger] enemies_driven(before, g, arena, now, dt, ds)
}

/// The flight leaves agents and memories alone.
proof fn lemma_flight_keeps_agents(before: &Game, g: &Game, dt: i64, arena: Arena)
    requires
        g.flown(before, dt, arena),
    ensures
        g.enemy_tanks@ == before.enemy_tanks@,
        g.enemy_ais@ == before.enemy_ais@,
        g.difficulty == before.difficulty,
{
    reveal(Game::flown);
}

/// The agents and memories that the collisions leave are those at the places `m`,
/// each agent but for its health.
pub open spec fn survivors_at(before: &Game, after: &Game, m: Seq<int>) -> bool {
    &&& rising(m, before.enemy_tanks@.len() as int)
    &&& after.enemy_tanks@.len() == m.len()
    &&& after.enemy_ais@.len() == m.len()
    &&& forall|j: int|
        0 <= j < m.len() ==> #[trigger] after.enemy_ais@[j] == before.enemy_ais@[m[j]]
    &&& forall|j: int|
        0 <= j < m.len() ==> #[trigger] after.enemy_tanks@[j] == (Tank {
            health: after.enemy_tanks@[j].health,
            ..before.enemy_tanks@[m[j]]
        })
}

/// The collisions of a tick remove agents and memories at the same places, and leave
/// the others in their order.
pub proof fn lemma_collisions_keep_pairs(before: &Game, after: &Game, now: i64) -> (m: Seq<int>)
    requires
        before.enemy_tanks@.len() == before.enemy_ais@.len(),
        before.enemy_tanks@.len() <= usize::MAX,
        after.collisions_resolved(before, now),
    ensures
        survivors_at(before, after, m),
        after.difficulty == before.difficulty,
{
    reveal(Game::collisions_resolved);
    let n = before.enemy_tanks@.len();
    let fell = fallen(n as int, before.bullets@, before.player_tank, before.enemy_tanks@);
    let hit = battered(n as int, before.bullets@, before.player_tank, before.enemy_tanks@);
    lemma_fallen_ascending(n as int, before.bullets@, before.player_tank, before.enemy_tanks@);
    let m = kept(n, fell);
    lemma_survivors(hit, fell);
    lemma_survivors(before.enemy_ais@, fell);
    assert forall|j: int| 0 <= j < m.len() implies #[trigger] after.enemy_tanks@[j] == (Tank {
        health: after.enemy_tanks@[j].health,
        ..before.enemy_tanks@[m[j]]
    }) by {
        let i = m[j];
        assert(after.enemy_tanks@[j] == hit[i]);
        lemma_hits_change_health_only(
            before.enemy_tanks@[i],
            hits_on(i, before.bullets@, before.player_tank, before.enemy_tanks@),
        );
    }
    assert forall|j: int| 0 <= j < m.len() implies #[trigger] after.enemy_ais@[j]
        == before.enemy_ais@[m[j]] by {
        assert(after.enemy_ais@[j] == without(before.enemy_ais@, fell)[j]);
    }
    m
}

/// The arrivals leave the pairs that were there where they were, and put at most one
/// new pair behind them.
proof fn lemma_arrivals_stand_last(before: &Game, g: &Game, arena: Arena, now: i64)
    requires
        before.enemy_tanks@.len() == before.enemy_ais@.len(),
        g.reinforced(before, arena, now),
    ensures
        g.enemy_ais@.len() == g.enemy_tanks@.len(),
        before.enemy_tanks@.len() <= g.enemy_tanks@.len() <= before.enemy_tanks@.len() + 1,
        forall|j: int|
            0 <= j < before.enemy_tanks@.len() ==> #[trigger] g.enemy_tanks@[j]
                == before.enemy_tanks@[j],
        forall|j: int|
            0 <= j < before.enemy_ais@.len() ==> #[trigger] g.enemy_ais@[j]
                == before.enemy_ais@[j],
        forall|j: int|
            before.enemy_ais@.len() <= j < g.enemy_ais@.len() ==> (#[trigger] g.enemy_ais@[j]).starting(
                before.difficulty,
                now,
            ),
        g.difficulty == before.difficulty,
{
    reveal(Game::reinforced);
    assert forall|j: int| 0 <= j < before.enemy_ais@.len() implies #[trigger] g.enemy_ais@[j]
        == before.enemy_ais@[j] by {
        assert(g.enemy_ais@.take(before.enemy_ais@.len() as int)[j] == g.enemy_ais@[j]);
    }
}

/// The bookkeeping leaves agents and memories alone.
proof fn lemma_books_keep_agents(before: &Game, g: &Game, now: i64)
    requires
        g.booked(before, now),
    ensures
        g.enemy_tanks@ == before.enemy_tanks@,
        g.enemy_ais@ == before.enemy_ais@,
{
    reveal(Game::booked);
}

/// Through a whole tick every hostile agent that is left keeps its own memory, and the
/// pairs keep their order; a pair that arrives stands last.
pub proof fn lemma_tick_keeps_pairs(
    before: &Game,
    after: &Game,
    intent: InputIntent,
    arena: Arena,
    now: i64,
    dt: i64,
)
    requires
        before.enemy_tanks@.len() == before.enemy_ais@.len(),
        before.enemy_tanks@.len() <= usize::MAX,
        after.ticked(before, intent, arena, now, dt),
    ensures
        exists|m: Seq<int>, ds: Seq<AiDraws>| #[trigger]
            pairs_follow(before, after, m, ds, intent, arena, now, dt),
{
    let (g1, g2, g3, g4, g5) = choose|g1: Game, g2: Game, g3: Game, g4: Game, g5: Game|
        #![trigger
            g1.player_commanded(before, intent, arena, now, dt),
            g2.enemies_turned(&g1, arena, now, dt),
            g3.flown(&g2, dt, arena),
            g4.collisions_resolved(&g3, now),
            g5.reinforced(&g4, arena, now)]
        g1.player_commanded(before, intent, arena, now, dt) && g2.enemies_turned(
            &g1,
            arena,
            now,
            dt,
        ) && g3.flown(&g2, dt, arena) && g4.collisions_resolved(&g3, now) && g5.reinforced(
            &g4,
            arena,
            now,
        ) && after.booked(&g5, now);
    lemma_turn_of_player(before, &g1, intent, arena, now, dt);
    let ds = lemma_turns_of_enemies(&g1, &g2, arena, now, dt);
    lemma_flight_keeps_agents(&g2, &g3, dt, arena);
    let m = lemma_collisions_keep_pairs(&g3, &g4, now);
    lemma_arrivals_stand_last(&g4, &g5, arena, now);
    lemma_books_keep_agents(&g5, after, now);
    assert forall|j: int| 0 <= j < m.len() implies #[trigger] after.enemy_ais@[j] == decided(
        before.enemy_ais@[m[j]],
        before.enemy_tanks@[m[j]],
        g1.player_tank,
        before.obstacles@,
        arena,
        now,
        dt,
        ds[m[j]],
    ).0 by {
        assert(after.enemy_ais@[j] == g4.enemy_ais@[j]);
        assert(g4.enemy_ais@[j] == g3.enemy_ais@[m[j]]);
        assert(g2.enemy_ais@[m[j]] == decided(
            g1.enemy_ais@[m[j]],
            g1.enemy_tanks@[m[j]],
            g1.player_tank,
            g1.obstacles@,
            arena,
            now,
            dt,
            ds[m[j]],
        ).0);
    }
    assert forall|j: int| 0 <= j < m.len() implies #[trigger] after.enemy_tanks@[j] == (Tank {
        health: after.enemy_tanks@[j].health,
        ..enemy_moved(
            before.enemy_ais@[m[j]],
            before.enemy_tanks@[m[j]],
            g1.player_tank,
            before.obstacles@,
            arena,
            now,
            dt,
            ds[m[j]],
        )
    }) by {
        assert(after.enemy_tanks@[j] == g4.enemy_tanks@[j]);
        assert(g2.enemy_tanks@[m[j]] == enemy_moved(
            g1.enemy_ais@[m[j]],
            g1.enemy_tanks@[m[j]],
            g1.player_tank,
            g1.obstacles@,
            arena,
            now,
            dt,
            ds[m[j]],
        ));
    }
    assert(pairs_follow(before, after, m, ds, intent, arena, now, dt));
}

} // verus!
