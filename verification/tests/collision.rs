use tank_battle::entities::{Angle, Bullet, Obstacle, Position, PowerUp, PowerUpType, Tank, Velocity};
use tank_battle::systems::{
    check_bullet_obstacle_collisions, check_bullet_tank_collisions, check_powerup_collisions,
    check_tank_obstacle_collisions,
};

fn bullet_at(x: i64, y: i64, from_player: bool) -> Bullet {
    Bullet::new(x, y, Angle::zero(), from_player)
}

#[test]
fn a_hostile_bullet_damages_the_player_and_is_spent() {
    let mut player = Tank::new_player(400_000, 300_000);
    let mut tanks = vec![Tank::new_enemy(100_000, 100_000)];
    let mut bullets = vec![bullet_at(410_000, 300_000, false), bullet_at(600_000, 300_000, false)];
    let destroyed = check_bullet_tank_collisions(&mut bullets, &mut tanks, &mut player);
    assert!(destroyed.is_empty());
    assert_eq!(player.health, 175);
    assert_eq!(bullets, vec![bullet_at(600_000, 300_000, false)]);
    assert_eq!(tanks, vec![Tank::new_enemy(100_000, 100_000)]);
}

#[test]
fn a_shielded_player_takes_no_damage_but_the_bullet_is_spent() {
    let mut player = Tank::new_player(400_000, 300_000);
    player.add_shield(30_000, 0);
    let before = player;
    let mut tanks = Vec::new();
    let mut heavy = bullet_at(400_000, 300_000, false);
    heavy.damage = 1_000_000;
    let mut bullets = vec![bullet_at(410_000, 300_000, false), heavy];
    let destroyed = check_bullet_tank_collisions(&mut bullets, &mut tanks, &mut player);
    assert!(destroyed.is_empty());
    assert_eq!(player, before);
    assert!(bullets.is_empty());
}

#[test]
fn the_players_own_bullet_passes_through_the_player() {
    let mut player = Tank::new_player(400_000, 300_000);
    let mut tanks = Vec::new();
    let mut bullets = vec![bullet_at(400_000, 300_000, true)];
    let destroyed = check_bullet_tank_collisions(&mut bullets, &mut tanks, &mut player);
    assert!(destroyed.is_empty());
    assert_eq!(player.health, 200);
    assert_eq!(bullets.len(), 1);
}

#[test]
fn a_hostile_bullet_passes_through_hostile_agents() {
    let mut player = Tank::new_player(400_000, 300_000);
    let mut tanks = vec![Tank::new_enemy(100_000, 100_000)];
    let mut bullets = vec![bullet_at(100_000, 100_000, false)];
    let destroyed = check_bullet_tank_collisions(&mut bullets, &mut tanks, &mut player);
    assert!(destroyed.is_empty());
    assert_eq!(tanks[0].health, 50);
    assert_eq!(bullets.len(), 1);
}

#[test]
fn a_players_bullet_strikes_the_first_overlapping_agent_only() {
    let mut player = Tank::new_player(400_000, 300_000);
    let mut tanks = vec![
        Tank::new_enemy(100_000, 100_000),
        Tank::new_enemy(110_000, 100_000),
        Tank::new_enemy(105_000, 100_000),
    ];
    let mut bullets = vec![bullet_at(112_000, 100_000, true)];
    let destroyed = check_bullet_tank_collisions(&mut bullets, &mut tanks, &mut player);
    assert!(destroyed.is_empty());
    assert_eq!(tanks[0].health, 25);
    assert_eq!(tanks[1].health, 50);
    assert_eq!(tanks[2].health, 50);
    assert!(bullets.is_empty());
}

#[test]
fn destroyed_agents_are_reported_once_each_in_rising_order() {
    let mut player = Tank::new_player(400_000, 300_000);
    let mut tanks = vec![
        Tank::new_enemy(100_000, 100_000),
        Tank::new_enemy(300_000, 100_000),
        Tank::new_enemy(500_000, 100_000),
    ];
    // Four bullets on agent 2, then two on agent 0, one on agent 1.
    let mut bullets = vec![
        bullet_at(500_000, 100_000, true),
        bullet_at(500_000, 100_000, true),
        bullet_at(500_000, 100_000, true),
        bullet_at(500_000, 100_000, true),
        bullet_at(100_000, 100_000, true),
        bullet_at(100_000, 100_000, true),
        bullet_at(300_000, 100_000, true),
        bullet_at(700_000, 500_000, true),
    ];
    let destroyed = check_bullet_tank_collisions(&mut bullets, &mut tanks, &mut player);
    assert_eq!(destroyed, vec![0, 2]);
    assert_eq!(tanks.len(), 3);
    assert_eq!(tanks[0].health, 0);
    assert_eq!(tanks[1].health, 25);
    assert_eq!(tanks[2].health, 0);
    assert_eq!(bullets, vec![bullet_at(700_000, 500_000, true)]);
}

#[test]
fn a_shielded_hostile_agent_is_not_destroyed() {
    let mut player = Tank::new_player(400_000, 300_000);
    let mut shielded = Tank::new_enemy(100_000, 100_000);
    shielded.add_shield(30_000, 0);
    let mut tanks = vec![shielded];
    let mut bullets = vec![
        bullet_at(100_000, 100_000, true),
        bullet_at(100_000, 100_000, true),
        bullet_at(100_000, 100_000, true),
    ];
    let destroyed = check_bullet_tank_collisions(&mut bullets, &mut tanks, &mut player);
    assert!(destroyed.is_empty());
    assert_eq!(tanks, vec![shielded]);
    assert!(bullets.is_empty());
}

#[test]
fn bullets_and_agents_that_do_not_meet_are_left_alone() {
    let mut player = Tank::new_player(400_000, 300_000);
    let mut tanks = vec![Tank::new_enemy(100_000, 100_000)];
    // 18 + 3 = 21 is the sum of radii: at 21 apart the circles only touch.
    let mut bullets = vec![bullet_at(121_000, 100_000, true), bullet_at(423_000, 300_000, false)];
    let kept = bullets.clone();
    let destroyed = check_bullet_tank_collisions(&mut bullets, &mut tanks, &mut player);
    assert!(destroyed.is_empty());
    assert_eq!(bullets, kept);
    assert_eq!(player.health, 200);
    assert_eq!(tanks[0].health, 50);
}

#[test]
fn a_wall_is_removed_by_the_hit_that_brings_its_health_to_zero() {
    let mut obstacles = vec![
        Obstacle::new_steel(0, 0, 800_000, 20_000),
        Obstacle::new_wall(100_000, 100_000, 50_000, 50_000),
    ];
    for round in 0..3 {
        let mut bullets = vec![bullet_at(120_000, 120_000, true)];
        check_bullet_obstacle_collisions(&mut bullets, &mut obstacles);
        assert!(bullets.is_empty());
        assert_eq!(obstacles.len(), 2);
        assert_eq!(obstacles[1].health, 75 - 25 * round);
    }
    let mut bullets = vec![bullet_at(120_000, 120_000, false)];
    check_bullet_obstacle_collisions(&mut bullets, &mut obstacles);
    assert!(bullets.is_empty());
    assert_eq!(obstacles, vec![Obstacle::new_steel(0, 0, 800_000, 20_000)]);
}

#[test]
fn a_wall_destroyed_in_mid_pass_still_stops_the_bullets_after() {
    let mut obstacles = vec![
        Obstacle::new_wall(100_000, 100_000, 50_000, 50_000),
        Obstacle::new_wall(300_000, 100_000, 50_000, 50_000),
    ];
    let mut bullets = Vec::new();
    for _ in 0..6 {
        bullets.push(bullet_at(120_000, 120_000, true));
    }
    bullets.push(bullet_at(320_000, 120_000, true));
    bullets.push(bullet_at(600_000, 400_000, true));
    check_bullet_obstacle_collisions(&mut bullets, &mut obstacles);
    assert_eq!(bullets, vec![bullet_at(600_000, 400_000, true)]);
    assert_eq!(obstacles.len(), 1);
    assert_eq!(obstacles[0].position, Position::new(300_000, 100_000));
    assert_eq!(obstacles[0].health, 75);
}

#[test]
fn steel_is_never_removed() {
    let mut obstacles = vec![Obstacle::new_steel(100_000, 100_000, 50_000, 50_000)];
    let mut bullets = Vec::new();
    for _ in 0..100 {
        let mut b = bullet_at(120_000, 120_000, true);
        b.damage = i32::MAX;
        bullets.push(b);
    }
    check_bullet_obstacle_collisions(&mut bullets, &mut obstacles);
    assert!(bullets.is_empty());
    assert_eq!(obstacles, vec![Obstacle::new_steel(100_000, 100_000, 50_000, 50_000)]);
}

#[test]
fn a_bullet_strikes_the_first_obstacle_it_overlaps() {
    let mut obstacles = vec![
        Obstacle::new_wall(100_000, 100_000, 50_000, 50_000),
        Obstacle::new_wall(140_000, 100_000, 50_000, 50_000),
    ];
    let mut bullets = vec![bullet_at(145_000, 120_000, true)];
    check_bullet_obstacle_collisions(&mut bullets, &mut obstacles);
    assert_eq!(obstacles[0].health, 75);
    assert_eq!(obstacles[1].health, 100);
}

#[test]
fn an_overlapping_agent_is_pushed_out_along_the_ray_from_the_centre() {
    // Centre of the obstacle is (125, 125); the agent is 3-4-5 away from it.
    let field = [Obstacle::new_wall(100_000, 100_000, 50_000, 50_000)];
    let mut t = Tank::new_player(128_000, 129_000);
    t.velocity = Velocity::new(100_000, 100_000);
    check_tank_obstacle_collisions(&mut t, &field);
    // 25 units from the centre: 3/5 and 4/5 of it.
    assert_eq!(t.position, Position::new(140_000, 145_000));
    assert_eq!(t.velocity, Velocity::new(0, 0));
}

#[test]
fn an_agent_at_the_very_centre_only_stops() {
    let field = [Obstacle::new_wall(100_000, 100_000, 50_000, 50_000)];
    let mut t = Tank::new_player(125_000, 125_000);
    t.velocity = Velocity::new(100_000, 100_000);
    check_tank_obstacle_collisions(&mut t, &field);
    assert_eq!(t.position, Position::new(125_000, 125_000));
    assert_eq!(t.velocity, Velocity::new(0, 0));
}

#[test]
fn an_agent_clear_of_every_obstacle_is_left_alone() {
    let field = [Obstacle::new_wall(100_000, 100_000, 50_000, 50_000)];
    let mut t = Tank::new_player(170_000, 125_000);
    t.velocity = Velocity::new(100_000, 100_000);
    let before = t;
    check_tank_obstacle_collisions(&mut t, &field);
    assert_eq!(t, before);
    check_tank_obstacle_collisions(&mut t, &[]);
    assert_eq!(t, before);
}

#[test]
fn overlapping_pickups_are_collected_in_order() {
    let mut player = Tank::new_player(400_000, 300_000);
    let before = player;
    let mut powerups = vec![
        PowerUp::new(400_000, 300_000, PowerUpType::Shield),
        PowerUp::new(100_000, 100_000, PowerUpType::Damage),
        PowerUp::new(431_999, 300_000, PowerUpType::Health),
        PowerUp::new(432_000, 300_000, PowerUpType::SpeedBoost),
    ];
    let collected = check_powerup_collisions(&mut player, &mut powerups);
    assert_eq!(collected, vec![PowerUpType::Shield, PowerUpType::Health]);
    assert_eq!(
        powerups,
        vec![
            PowerUp::new(100_000, 100_000, PowerUpType::Damage),
            PowerUp::new(432_000, 300_000, PowerUpType::SpeedBoost),
        ]
    );
    assert_eq!(player, before);
}

#[test]
fn a_pickup_already_collected_is_not_collected_again() {
    let mut player = Tank::new_player(400_000, 300_000);
    let mut taken = PowerUp::new(400_000, 300_000, PowerUpType::Health);
    taken.collect();
    let mut powerups = vec![taken];
    let collected = check_powerup_collisions(&mut player, &mut powerups);
    assert!(collected.is_empty());
    assert_eq!(powerups, vec![taken]);
}
