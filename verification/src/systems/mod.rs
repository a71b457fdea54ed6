//! The systems that act on the entities once per tick.
pub mod collision;
pub mod input;
pub mod spawning;

pub use collision::{
    check_bullet_obstacle_collisions, check_bullet_tank_collisions, check_powerup_collisions,
    check_tank_obstacle_collisions,
};
pub use input::{handle_player_input, InputIntent};
pub use spawning::SpawnSystem;
