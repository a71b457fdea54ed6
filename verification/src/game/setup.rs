//! Setting a session up: the field of obstacles, and the start from the menu.
use super::{FrameInput, Game, GameState};
use crate::entities::obstacle::Obstacle;
use crate::entities::tank::{field_wf, Tank};
use crate::entities::{Arena, Position};
use crate::fixed::{abs, magnitude, COORD_MAX, TIME_MAX};
use crate::random::draw_range;
use crate::systems::spawning::{DIFFICULTY_MAX, SpawnSystem};
use vstd::prelude::*;

verus! {

/// Thickness of the four walls along the edges of the arena.
pub const WALL_THICKNESS: i64 = 20_000;

/// How many obstacles the arena setup tries to scatter.
pub const SCATTER_ATTEMPTS: usize = 15;

/// Half-width of the square around the arena's centre that stays free of obstacles.
pub const START_CLEARANCE: i64 = 100_000;

/// The four walls along the edges of the arena: top, bottom, left, right.
pub open spec fn boundary_walls(arena: Arena) -> Seq<Obstacle> {
    seq![
        steel(0, 0, arena.width, WALL_THICKNESS),
        steel(0, (arena.height - WALL_THICKNESS) as i64, arena.width, WALL_THICKNESS),
        steel(0, 0, WALL_THICKNESS, arena.height),
        steel((arena.width - WALL_THICKNESS) as i64, 0, WALL_THICKNESS, arena.height),
    ]
}

/// An indestructible block.
pub open spec fn steel(x: i64, y: i64, width: i64, height: i64) -> Obstacle {
    Obstacle {
        position: Position { x, y },
        width,
        height,
        health: 1000,
        max_health: 1000,
        destructible: false,
    }
}

/// A destructible wall.
pub open spec fn wall(x: i64, y: i64, width: i64, height: i64) -> Obstacle {
    Obstacle {
        position: Position { x, y },
        width,
        height,
        health: 100,
        max_health: 100,
        destructible: true,
    }
}

/// The corner `(x, y)` is more than `START_CLEARANCE` away from the arena's centre on
/// at least one axis.
pub open spec fn off_centre(x: i64, y: i64, arena: Arena) -> bool {
    abs(x - arena.width / 2) > START_CLEARANCE || abs(
        y - arena.height / 2,
    ) > START_CLEARANCE
}

/// The obstacle that the setup scatters for one set of draws, if any: none with its
/// corner near the arena's centre; otherwise a wall in four cases of five, else steel.
pub open spec fn scattered(x: i64, y: i64, width: i64, height: i64, kind_roll: i64, arena: Arena) -> Option<
    Obstacle,
> {
    if off_centre(x, y, arena) {
        if kind_roll < 800 {
            Some(wall(x, y, width, height))
        } else {
            Some(steel(x, y, width, height))
        }
    } else {
        None
    }
}

/// The numbers that chance contributes to one attempt to scatter an obstacle.
#[derive(Clone, Copy, Debug, PartialEq, Eq)]
pub struct ScatterDraw {
    pub x: i64,
    pub y: i64,
    pub width: i64,
    pub height: i64,
    /// Decides between wall and steel; in `0..1000`.
    pub kind_roll: i64,
}

impl ScatterDraw {
    /// The corner keeps 50 away from the near edges and 100 from the far ones, and the
    /// extents lie between 30 and 80.
    pub open spec fn fits(&self, arena: Arena) -> bool {
        &&& 50_000 <= self.x < arena.width - 100_000
        &&& 50_000 <= self.y < arena.height - 100_000
        &&& 30_000 <= self.width < 80_000
        &&& 30_000 <= self.height < 80_000
        &&& 0 <= self.kind_roll < 1000
    }
}

/// The draws are those of one setup of the arena: `SCATTER_ATTEMPTS` of them, each
/// fitting the arena, or none where the arena is too small to scatter in.
pub open spec fn draws_fit(draws: Seq<ScatterDraw>, arena: Arena) -> bool {
    &&& draws.len() == if arena.width > 150_000 && arena.height > 150_000 {
        SCATTER_ATTEMPTS as int
    } else {
        0
    }
    &&& forall|i: int| 0 <= i < draws.len() ==> (#[trigger] draws[i]).fits(arena)
}

/// The obstacles that the draws scatter, in the order of the draws.
pub open spec fn scattering(draws: Seq<ScatterDraw>, arena: Arena) -> Seq<Obstacle>
    decreases draws.len(),
{
    if draws.len() == 0 {
        Seq::empty()
    } else {
        let earlier = scattering(draws.drop_last(), arena);
        let d = draws.last();
        match scattered(d.x, d.y, d.width, d.height, d.kind_roll, arena) {
            Some(o) => earlier.push(o),
            None => earlier,
        }
    }
}

/// The field is what a setup of the arena produces for some draws: the obstacles that
/// they scatter, followed by the four boundary walls.
pub open spec fn field_of(obstacles: Seq<Obstacle>, arena: Arena) -> bool {
    exists|draws: Seq<ScatterDraw>|
        draws_fit(draws, arena) && obstacles == #[trigger] scattering(draws, arena)
            + boundary_walls(arena)
}

/// What fitting draws scatter is well formed, and no more than there are draws.
pub proof fn lemma_scattering_wf(draws: Seq<ScatterDraw>, arena: Arena)
    requires
        arena.wf(),
        forall|i: int| 0 <= i < draws.len() ==> (#[trigger] draws[i]).fits(arena),
    ensures
        field_wf(scattering(draws, arena)),
        scattering(draws, arena).len() <= draws.len(),
    decreases draws.len(),
{
    if draws.len() > 0 {
        lemma_scattering_wf(draws.drop_last(), arena);
        assert(draws[draws.len() - 1].fits(arena));
    }
}

/// Decides what one set of draws scatters in the arena.
pub fn place_obstacle(x: i64, y: i64, width: i64, height: i64, kind_roll: i64, arena: &Arena) -> (o:
    Option<Obstacle>)
    requires
        arena.wf(),
        abs(x as int) <= COORD_MAX,
        abs(y as int) <= COORD_MAX,
    ensures
        o == scattered(x, y, width, height, kind_roll, *arena),
{
    if magnitude(x - arena.width / 2) > START_CLEARANCE || magnitude(
        y - arena.height / 2,
    ) > START_CLEARANCE {
        if kind_roll < 800 {
            Some(Obstacle::new_wall(x, y, width, height))
        } else {
            Some(Obstacle::new_steel(x, y, width, height))
        }
    } else {
        None
    }
}

/// Sets the arena up: scatters obstacles of random place, size and kind away from the
/// centre, where the player starts, and closes the arena with four walls. An arena too
/// small to scatter in gets the walls alone.
pub fn scatter_obstacles(arena: &Arena, rng: &mut rand::rngs::StdRng) -> (obstacles: Vec<Obstacle>)
    requires
        arena.wf(),
    ensures
        field_of(obstacles@, *arena),
        field_wf(obstacles@),
{
    let mut obstacles: Vec<Obstacle> = Vec::new();
    let ghost mut draws: Seq<ScatterDraw> = Seq::empty();
    if arena.width > 150_000 && arena.height > 150_000 {
        let mut i: usize = 0;
        while i < SCATTER_ATTEMPTS
            invariant
                0 <= i <= SCATTER_ATTEMPTS,
                arena.wf(),
                arena.width > 150_000,
                arena.height > 150_000,
                draws.len() == i,
                forall|j: int| 0 <= j < draws.len() ==> (#[trigger] draws[j]).fits(*arena),
                obstacles@ == scattering(draws, *arena),
            decreases SCATTER_ATTEMPTS - i,
        {
            let x = draw_range(rng, 50_000, arena.width - 100_000);
            let y = draw_range(rng, 50_000, arena.height - 100_000);
            let width = draw_range(rng, 30_000, 80_000);
            let height = draw_range(rng, 30_000, 80_000);
            let kind_roll = draw_range(rng, 0, 1000);
            proof {
                let earlier = draws;
                draws = draws.push(ScatterDraw { x, y, width, height, kind_roll });
                assert(draws.drop_last() =~= earlier);
            }
            if let Some(obstacle) = place_obstacle(x, y, width, height, kind_roll, arena) {
                obstacles.push(obstacle);
            }
            i += 1;
        }
    }
    let ghost scattered_part = obstacles@;
    obstacles.push(Obstacle::new_steel(0, 0, arena.width, WALL_THICKNESS));
    obstacles.push(
        Obstacle::new_steel(0, arena.height - WALL_THICKNESS, arena.width, WALL_THICKNESS),
    );
    obstacles.push(Obstacle::new_steel(0, 0, WALL_THICKNESS, arena.height));
    obstacles.push(
        Obstacle::new_steel(arena.width - WALL_THICKNESS, 0, WALL_THICKNESS, arena.height),
    );
    proof {
        assert(obstacles@ =~= scattering(draws, *arena) + boundary_walls(*arena));
        assert(draws_fit(draws, *arena));
        lemma_scattering_wf(draws, *arena);
        assert forall|j: int| 0 <= j < obstacles@.len() implies (#[trigger] obstacles@[j]).wf() by {
            if j < scattered_part.len() {
                assert(obstacles@[j] == scattered_part[j]);
                assert(scattered_part[j].wf());
            }
        }
    }
    obstacles
}

impl Game {
    /// The session is as a start at the given difficulty leaves it: in play, the
    /// player's tank new at the arena's centre, no hostile agent, projectile or pickup,
    /// a new director, a field set up for the arena, and all counters at their start.
    pub open spec fn started(&self, difficulty: i64, arena: Arena, now: i64) -> bool {
        &&& self.state == GameState::Playing
        &&& self.player_tank == Tank::player_at(
            (arena.width / 2) as i64,
            (arena.height / 2) as i64,
        )
        &&& self.enemy_tanks@.len() == 0
        &&& self.enemy_ais@.len() == 0
        &&& self.bullets@.len() == 0
        &&& self.powerups@.len() == 0
        &&& field_of(self.obstacles@, arena)
        &&& self.spawn_system == SpawnSystem::fresh(difficulty)
        &&& self.score == 0
        &&& self.wave == 1
        &&& self.enemies_killed_this_wave == 0
        &&& self.enemies_per_wave == 5
        &&& self.difficulty == difficulty
        &&& self.last_difficulty_increase == now
        &&& self.math_challenge.is_none()
    }

    /// A session in the menu, with a field set up for the arena.
    pub fn new(arena: &Arena, rng: &mut rand::rngs::StdRng) -> (game: Self)
        requires
            arena.wf(),
        ensures
            game.wf(),
            game.state == GameState::Menu,
            game.player_tank == Tank::player_at(400_000, 300_000),
            game.spawn_system == SpawnSystem::fresh(1000),
            game.enemy_tanks@.len() == 0,
            game.enemy_ais@.len() == 0,
            game.bullets@.len() == 0,
            game.powerups@.len() == 0,
            field_of(game.obstacles@, *arena),
            game.score == 0,
            game.high_score == 0,
            game.wave == 1,
            game.enemies_killed_this_wave == 0,
            game.enemies_per_wave == 5,
            game.difficulty == 1000,
            game.last_difficulty_increase == 0,
            game.math_challenge.is_none(),
    {
        Self {
            state: GameState::Menu,
            player_tank: Tank::new_player(400_000, 300_000),
            enemy_tanks: Vec::new(),
            enemy_ais: Vec::new(),
            bullets: Vec::new(),
            obstacles: scatter_obstacles(arena, rng),
            powerups: Vec::new(),
            spawn_system: SpawnSystem::new(1000),
            score: 0,
            high_score: 0,
            wave: 1,
            enemies_killed_this_wave: 0,
            enemies_per_wave: 5,
            difficulty: 1000,
            last_difficulty_increase: 0,
            math_challenge: None,
        }
    }

    /// Sets the field up anew for the arena.
    pub fn generate_obstacles(&mut self, arena: &Arena, rng: &mut rand::rngs::StdRng)
        requires
            arena.wf(),
        ensures
            field_of(final(self).obstacles@, *arena),
            field_wf(final(self).obstacles@),
            final(self).state == old(self).state,
            final(self).player_tank == old(self).player_tank,
            final(self).enemy_tanks == old(self).enemy_tanks,
            final(self).enemy_ais == old(self).enemy_ais,
            final(self).bullets == old(self).bullets,
            final(self).powerups == old(self).powerups,
            final(self).spawn_system == old(self).spawn_system,
            final(self).same_counters(old(self)),
            final(self).high_score == old(self).high_score,
            final(self).math_challenge == old(self).math_challenge,
    {
        self.obstacles = scatter_obstacles(arena, rng);
    }

    /// Starts a session at the given difficulty, in thousandths. The high score stays.
    pub fn start_game(&mut self, difficulty: i64, arena: &Arena, now: i64, rng: &mut rand::rngs::StdRng)
        requires
            0 < difficulty <= DIFFICULTY_MAX,
            arena.wf(),
            0 <= now <= TIME_MAX,
        ensures
            final(self).started(difficulty, *arena, now),
            final(self).high_score == old(self).high_score,
            final(self).wf(),
            arena.width >= 40_000 && arena.height >= 40_000 ==> final(self).agents_contained(arena),
    {
        self.difficulty = difficulty;
        self.state = GameState::Playing;
        self.player_tank = Tank::new_player(arena.width / 2, arena.height / 2);
        self.enemy_tanks.clear();
        self.enemy_ais.clear();
        self.bullets.clear();
        self.powerups.clear();
        self.spawn_system = SpawnSystem::new(difficulty);
        self.score = 0;
        self.wave = 1;
        self.enemies_killed_this_wave = 0;
        self.enemies_per_wave = 5;
        self.last_difficulty_increase = now;
        self.math_challenge = None;
        self.generate_obstacles(arena, rng);
    }

    /// In the menu, starts a session when one of the keys 1, 2 and 3 is pressed: at
    /// difficulty 1, 1.5 or 2, the lowest key winning.
    pub fn update_menu(&mut self, input: &FrameInput, arena: &Arena, now: i64, rng: &mut rand::rngs::StdRng)
        requires
            arena.wf(),
            0 <= now <= TIME_MAX,
            old(self).wf(),
        ensures
            final(self).menu_handled(old(self), *input, *arena, now),
            final(self).wf(),
    {
        if input.key1 {
            self.start_game(1000, arena, now, rng);
        } else if input.key2 {
            self.start_game(1500, arena, now, rng);
        } else if input.key3 {
            self.start_game(2000, arena, now, rng);
        }
    }

    /// This session is what the keys of one frame make of `before` in the menu: a new
    /// session at difficulty 1, 1.5 or 2 for the keys 1, 2 and 3, the lowest key
    /// winning, and `before` itself without any of them.
    pub open spec fn menu_handled(&self, before: &Game, input: FrameInput, arena: Arena, now: i64) -> bool {
        &&& input.key1 ==> self.started(1000, arena, now)
        &&& !input.key1 && input.key2 ==> self.started(1500, arena, now)
        &&& !input.key1 && !input.key2 && input.key3 ==> self.started(2000, arena, now)
        &&& !input.key1 && !input.key2 && !input.key3 ==> self.moved_to(before, before.state)
        &&& self.high_score == before.high_score
    }
}

} // verus!
