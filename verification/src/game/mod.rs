//! The session: the state machine around the simulation.
pub mod challenge;
pub mod flight;
pub mod removal;
pub mod resolution;
pub mod scoring;
pub mod setup;
pub mod tick;
pub mod turns;

pub use flight::{advance_bullets, advance_powerups};
pub use setup::{place_obstacle, scatter_obstacles};
pub use turns::fire_from_muzzle;

use crate::entities::Arena;
use crate::entities::bullet::Bullet;
use crate::entities::enemy::EnemyAI;
use crate::entities::obstacle::Obstacle;
use crate::entities::powerup::PowerUp;
use crate::entities::tank::{field_wf, Tank};
use crate::fixed::{DT_MAX, TIME_MAX};
use crate::math_challenge::MathChallenge;
use crate::systems::collision::{bullets_wf, powerups_wf, tanks_wf};
use crate::systems::input::InputIntent;
use crate::systems::spawning::{DIFFICULTY_MAX, SpawnSystem};
use vstd::prelude::*;

verus! {

/// Where the session stands. Only `Playing` runs the simulation.
#[derive(Clone, Copy, Debug, PartialEq, Eq, Structural)]
pub enum GameState {
    Menu,
    Playing,
    Paused,
    GameOver,
    MathChallenge,
}

/// What the outside world reports for one frame.
#[derive(Clone, Copy, Debug, PartialEq, Eq)]
pub struct FrameInput {
    /// What the player asks of the tank.
    pub intent: InputIntent,
    /// The keys 1, 2 and 3 were pressed: they start a session at difficulty 1, 1.5 and 2.
    pub key1: bool,
    pub key2: bool,
    pub key3: bool,
    /// Escape was pressed: it pauses, resumes, or gives the challenge up.
    pub escape: bool,
    /// The restart key was pressed.
    pub restart: bool,
    /// Enter was pressed: it hands the answer in.
    pub enter: bool,
    /// Backspace was pressed.
    pub backspace: bool,
    /// Which of the digit keys 0 to 9 were pressed.
    pub digits: [bool; 10],
}

/// A session: its state, everything in the arena, the director and the counters. The
/// memory at index `i` of `enemy_ais` belongs to the hostile agent at index `i` of
/// `enemy_tanks`.
pub struct Game {
    pub state: GameState,
    pub player_tank: Tank,
    pub enemy_tanks: Vec<Tank>,
    pub enemy_ais: Vec<EnemyAI>,
    pub bullets: Vec<Bullet>,
    pub obstacles: Vec<Obstacle>,
    pub powerups: Vec<PowerUp>,
    pub spawn_system: SpawnSystem,
    pub score: i32,
    pub high_score: i32,
    pub wave: i32,
    pub enemies_killed_this_wave: i32,
    /// The kills that clear the wave, once no hostile agent is left.
    pub enemies_per_wave: i32,
    /// The difficulty that the session started at, in thousandths.
    pub difficulty: i64,
    /// When the difficulty last rose by the clock.
    pub last_difficulty_increase: i64,
    /// The question of the revival challenge, while that is on.
    pub math_challenge: Option<MathChallenge>,
}

/// Every memory of the set is well formed.
pub open spec fn ais_wf(ais: Seq<EnemyAI>) -> bool {
    forall|i: int| 0 <= i < ais.len() ==> #[trigger] ais[i].wf()
}

impl GameState {
    /// One frame can take a session from this state to `next`: from the menu into play;
    /// from play into a pause, or into the revival challenge; from a pause back into
    /// play; from the challenge back into play, or to the end; from the end to the
    /// menu; and from every state to itself.
    pub open spec fn leads_to(self, next: GameState) -> bool {
        self == next || match self {
            GameState::Menu => next == GameState::Playing,
            GameState::Playing => next == GameState::Paused || next == GameState::MathChallenge,
            GameState::Paused => next == GameState::Playing,
            GameState::MathChallenge => next == GameState::Playing || next == GameState::GameOver,
            GameState::GameOver => next == GameState::Menu,
        }
    }
}

impl FrameInput {
    /// The input of a frame in which nothing is pressed.
    pub fn idle() -> (input: Self)
        ensures
            input.intent == (InputIntent { move_x: 0, move_y: 0, aim: None, fire: false }),
            !input.key1 && !input.key2 && !input.key3,
            !input.escape && !input.restart && !input.enter && !input.backspace,
            forall|i: int| 0 <= i < 10 ==> !input.digits@[i],
            input.intent.wf(),
    {
        Self {
            intent: InputIntent::idle(),
            key1: false,
            key2: false,
            key3: false,
            escape: false,
            restart: false,
            enter: false,
            backspace: false,
            digits: [false, false, false, false, false, false, false, false, false, false],
        }
    }
}

impl Game {
    /// The collections are well formed, every hostile agent has its memory, and a
    /// challenge is on record exactly in the challenge state.
    pub open spec fn wf(&self) -> bool {
        &&& self.player_tank.wf()
        &&& tanks_wf(self.enemy_tanks@)
        &&& ais_wf(self.enemy_ais@)
        &&& self.enemy_tanks@.len() == self.enemy_ais@.len()
        &&& bullets_wf(self.bullets@)
        &&& field_wf(self.obstacles@)
        &&& powerups_wf(self.powerups@)
        &&& self.spawn_system.wf()
        &&& 0 < self.difficulty <= DIFFICULTY_MAX
        &&& 0 <= self.last_difficulty_increase <= TIME_MAX
        &&& (self.state == GameState::MathChallenge) == self.math_challenge.is_some()
    }

    /// The player and every hostile agent lie in the arena, each its whole radius away
    /// from every edge.
    pub open spec fn agents_contained(&self, arena: &Arena) -> bool {
        &&& self.player_tank.contained(arena)
        &&& forall|i: int|
            0 <= i < self.enemy_tanks@.len() ==> (#[trigger] self.enemy_tanks@[i]).contained(arena)
    }

    /// Every projectile in play is inside the arena and younger than its maximum age.
    pub open spec fn bullets_active(&self, arena: &Arena) -> bool {
        forall|i: int| 0 <= i < self.bullets@.len() ==> (#[trigger] self.bullets@[i]).active(arena)
    }

    /// The two sessions hold the same entities and the same director.
    pub open spec fn same_entities(&self, other: &Game) -> bool {
        &&& self.player_tank == other.player_tank
        &&& self.enemy_tanks@ == other.enemy_tanks@
        &&& self.enemy_ais@ == other.enemy_ais@
        &&& self.bullets@ == other.bullets@
        &&& self.obstacles@ == other.obstacles@
        &&& self.powerups@ == other.powerups@
        &&& self.spawn_system == other.spawn_system
    }

    /// The two sessions are in the same state with the same player, high score and
    /// challenge.
    pub open spec fn untouched(&self, other: &Game) -> bool {
        &&& self.state == other.state
        &&& self.player_tank == other.player_tank
        &&& self.high_score == other.high_score
        &&& self.math_challenge == other.math_challenge
    }

    /// The two sessions are in the same state, with the same high score, difficulty
    /// and challenge.
    pub open spec fn steady(&self, before: &Game) -> bool {
        &&& self.state == before.state
        &&& self.high_score == before.high_score
        &&& self.difficulty == before.difficulty
        &&& self.math_challenge == before.math_challenge
    }

    /// The two sessions show the same counters: score, wave, kills and quota, and the
    /// same difficulty with the time of its last rise.
    pub open spec fn same_counters(&self, other: &Game) -> bool {
        &&& self.score == other.score
        &&& self.wave == other.wave
        &&& self.enemies_killed_this_wave == other.enemies_killed_this_wave
        &&& self.enemies_per_wave == other.enemies_per_wave
        &&& self.difficulty == other.difficulty
        &&& self.last_difficulty_increase == other.last_difficulty_increase
    }

    /// Resumes a paused session when Escape is pressed.
    pub fn update_paused(&mut self, escape: bool)
        ensures
            final(self).moved_to(
                old(self),
                if escape {
                    GameState::Playing
                } else {
                    old(self).state
                },
            ),
    {
        if escape {
            self.state = GameState::Playing;
        }
    }

    /// Returns to the menu from a finished session when the restart key is pressed.
    pub fn update_game_over(&mut self, restart: bool)
        ensures
            final(self).moved_to(
                old(self),
                if restart {
                    GameState::Menu
                } else {
                    old(self).state
                },
            ),
    {
        if restart {
            self.state = GameState::Menu;
        }
    }

    /// This session is `before` but for its state, which is `state`.
    pub open spec fn moved_to(&self, before: &Game, state: GameState) -> bool {
        &&& self.state == state
        &&& self.same_entities(before)
        &&& self.same_counters(before)
        &&& self.high_score == before.high_score
        &&& self.math_challenge == before.math_challenge
    }

    /// Advances the session by one frame, as its state asks: the menu waits for a
    /// start, play runs a tick, a paused or finished session waits for its key, and
    /// the revival challenge takes the keys of the answer.
    pub fn update(
        &mut self,
        input: &FrameInput,
        arena: &Arena,
        now: i64,
        dt: i64,
        rng: &mut rand::rngs::StdRng,
    )
        requires
            old(self).wf(),
            input.intent.wf(),
            arena.wf(),
            0 <= now <= TIME_MAX,
            0 <= dt <= DT_MAX,
        ensures
            match old(self).state {
                GameState::Menu => final(self).menu_handled(old(self), *input, *arena, now),
                GameState::Playing => final(self).tick_handled(old(self), *input, *arena, now, dt),
                GameState::Paused => final(self).moved_to(
                    old(self),
                    if input.escape {
                        GameState::Playing
                    } else {
                        GameState::Paused
                    },
                ),
                GameState::GameOver => final(self).moved_to(
                    old(self),
                    if input.restart {
                        GameState::Menu
                    } else {
                        GameState::GameOver
                    },
                ),
                GameState::MathChallenge => final(self).challenge_handled(old(self), *input),
            },
            old(self).state.leads_to(final(self).state),
            final(self).wf(),
    {
        match self.state {
            GameState::Menu => self.update_menu(input, arena, now, rng),
            GameState::Playing => self.update_playing(input, arena, now, dt, rng),
            GameState::Paused => self.update_paused(input.escape),
            GameState::GameOver => self.update_game_over(input.restart),
            GameState::MathChallenge => self.update_math_challenge(input),
        }
    }

    /// Checks that the session is well formed.
    pub fn is_well_formed(&self) -> (b: bool)
        ensures
            b == self.wf(),
    {
        if !self.player_tank.is_well_formed() || !self.spawn_system.is_well_formed()
            || self.enemy_tanks.len() != self.enemy_ais.len() || self.difficulty <= 0
            || self.difficulty > DIFFICULTY_MAX || self.last_difficulty_increase < 0
            || self.last_difficulty_increase > TIME_MAX {
            return false;
        }
        let in_challenge = match self.state {
            GameState::MathChallenge => true,
            _ => false,
        };
        if in_challenge != self.math_challenge.is_some() {
            return false;
        }
        let mut i: usize = 0;
        while i < self.enemy_tanks.len()
            invariant
                0 <= i <= self.enemy_tanks.len(),
                forall|j: int| 0 <= j < i ==> (#[trigger] self.enemy_tanks@[j]).wf(),
            decreases self.enemy_tanks.len() - i,
        {
            if !self.enemy_tanks[i].is_well_formed() {
                return false;
            }
            i += 1;
        }
        let mut i: usize = 0;
        while i < self.enemy_ais.len()
            invariant
                0 <= i <= self.enemy_ais.len(),
                forall|j: int| 0 <= j < i ==> (#[trigger] self.enemy_ais@[j]).wf(),
            decreases self.enemy_ais.len() - i,
        {
            if !self.enemy_ais[i].is_well_formed() {
                return false;
            }
            i += 1;
        }
        let mut i: usize = 0;
        while i < self.bullets.len()
            invariant
                0 <= i <= self.bullets.len(),
                forall|j: int| 0 <= j < i ==> (#[trigger] self.bullets@[j]).wf(),
            decreases self.bullets.len() - i,
        {
            if !self.bullets[i].is_well_formed() {
                return false;
            }
            i += 1;
        }
        let mut i: usize = 0;
        while i < self.obstacles.len()
            invariant
                0 <= i <= self.obstacles.len(),
                forall|j: int| 0 <= j < i ==> (#[trigger] self.obstacles@[j]).wf(),
            decreases self.obstacles.len() - i,
        {
            if !self.obstacles[i].is_well_formed() {
                return false;
            }
            i += 1;
        }
        let mut i: usize = 0;
        while i < self.powerups.len()
            invariant
                0 <= i <= self.powerups.len(),
                forall|j: int| 0 <= j < i ==> (#[trigger] self.powerups@[j]).wf(),
            decreases self.powerups.len() - i,
        {
            if !self.powerups[i].is_well_formed() {
                return false;
            }
            i += 1;
        }
        true
    }
}

} // verus!
