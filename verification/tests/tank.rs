use tank_battle::entities::{Angle, Arena, Obstacle, Position, Shield, Tank, Velocity};

fn arena() -> Arena {
    Arena::new(800_000, 600_000)
}

#[test]
fn new_player_has_the_documented_values() {
    let t = Tank::new_player(400_000, 300_000);
    assert_eq!(t.position, Position::new(400_000, 300_000));
    assert_eq!(t.velocity, Velocity::new(0, 0));
    assert_eq!(t.angle, Angle::zero());
    assert_eq!(t.health, 200);
    assert_eq!(t.max_health, 200);
    assert_eq!(t.size, 20_000);
    assert_eq!(t.speed, 250_000);
    assert_eq!(t.shield, None);
    assert_eq!(t.last_shot, 0);
    assert_eq!(t.shot_cooldown, 250);
    assert!(t.is_player);
    assert!(!t.scatter_shot);
    assert!(t.is_well_formed());
}

#[test]
fn new_enemy_has_the_documented_values() {
    let t = Tank::new_enemy(100_000, 50_000);
    assert_eq!(t.position, Position::new(100_000, 50_000));
    assert_eq!(t.health, 50);
    assert_eq!(t.max_health, 50);
    assert_eq!(t.size, 18_000);
    assert_eq!(t.speed, 80_000);
    assert_eq!(t.shot_cooldown, 1000);
    assert!(!t.is_player);
    assert!(t.is_well_formed());
}

#[test]
fn update_moves_by_velocity_times_time() {
    let mut t = Tank::new_player(400_000, 300_000);
    t.velocity = Velocity::new(250_000, -125_000);
    t.update(16, &arena(), 0);
    assert_eq!(t.position, Position::new(404_000, 298_000));
    assert_eq!(t.velocity, Velocity::new(250_000, -125_000));
}

#[test]
fn update_stops_at_each_edge_and_drops_the_velocity_there() {
    let mut t = Tank::new_player(21_000, 579_000);
    t.velocity = Velocity::new(-250_000, 250_000);
    t.update(16, &arena(), 0);
    assert_eq!(t.position, Position::new(20_000, 580_000));
    assert_eq!(t.velocity, Velocity::new(0, 0));

    let mut t = Tank::new_player(779_000, 21_000);
    t.velocity = Velocity::new(250_000, -250_000);
    t.update(16, &arena(), 0);
    assert_eq!(t.position, Position::new(780_000, 20_000));
    assert_eq!(t.velocity, Velocity::new(0, 0));
}

#[test]
fn update_keeps_the_tank_inside_the_arena_from_anywhere() {
    let a = arena();
    for (x, y, vx, vy) in [
        (-500_000i64, -500_000i64, -1_000_000i64, 0i64),
        (5_000_000, 5_000_000, 20_000_000, 20_000_000),
        (0, 600_000, 0, 0),
        (400_000, 300_000, -20_000_000, 20_000_000),
    ] {
        let mut t = Tank::new_enemy(x, y);
        t.velocity = Velocity::new(vx, vy);
        t.update(10_000, &a, 0);
        assert!(t.size <= t.position.x && t.position.x <= a.width - t.size);
        assert!(t.size <= t.position.y && t.position.y <= a.height - t.size);
    }
}

#[test]
fn update_drops_a_shield_only_after_its_duration() {
    let mut t = Tank::new_player(400_000, 300_000);
    t.add_shield(30_000, 1000);
    assert_eq!(t.shield, Some(Shield { duration: 30_000, start_time: 1000 }));
    t.update(16, &arena(), 31_000);
    assert!(t.shield.is_some());
    t.update(16, &arena(), 31_001);
    assert!(t.shield.is_none());
}

#[test]
fn expire_shield_leaves_a_tank_without_shield_alone() {
    let mut t = Tank::new_player(400_000, 300_000);
    let before = t;
    t.expire_shield(1_000_000);
    assert_eq!(t, before);
}

#[test]
fn would_collide_uses_the_half_extents_of_the_obstacle() {
    let t = Tank::new_player(0, 0);
    // Centre (125, 125), half extents 25: blocked while |d| < 20 + 25 on both axes.
    let field = [Obstacle::new_wall(100_000, 100_000, 50_000, 50_000)];
    assert!(t.would_collide_with_obstacles(125_000, 125_000, &field));
    assert!(t.would_collide_with_obstacles(169_999, 125_000, &field));
    assert!(!t.would_collide_with_obstacles(170_000, 125_000, &field));
    assert!(t.would_collide_with_obstacles(80_001, 80_001, &field));
    assert!(!t.would_collide_with_obstacles(80_000, 125_000, &field));
    assert!(!t.would_collide_with_obstacles(125_000, 170_000, &field));
    assert!(!t.would_collide_with_obstacles(125_000, 125_000, &[]));
}

#[test]
fn safe_move_moves_freely_in_the_open() {
    let mut t = Tank::new_player(400_000, 300_000);
    t.velocity = Velocity::new(250_000, 250_000);
    t.safe_move(16, &[], &arena());
    assert_eq!(t.position, Position::new(404_000, 304_000));
    assert_eq!(t.velocity, Velocity::new(250_000, 250_000));
}

#[test]
fn safe_move_slides_along_an_obstacle() {
    // A block to the right of the tank: x is blocked, y is free.
    let field = [Obstacle::new_steel(423_000, 200_000, 50_000, 200_000)];
    let mut t = Tank::new_player(400_000, 300_000);
    t.velocity = Velocity::new(250_000, 250_000);
    t.safe_move(16, &field, &arena());
    assert_eq!(t.position, Position::new(400_000, 304_000));
    assert_eq!(t.velocity, Velocity::new(0, 250_000));
}

#[test]
fn safe_move_stays_put_when_blocked_on_both_axes() {
    let field = [
        Obstacle::new_steel(423_000, 200_000, 50_000, 200_000),
        Obstacle::new_steel(300_000, 323_000, 200_000, 50_000),
    ];
    let mut t = Tank::new_player(400_000, 300_000);
    t.velocity = Velocity::new(250_000, 250_000);
    t.safe_move(16, &field, &arena());
    assert_eq!(t.position, Position::new(400_000, 300_000));
    assert_eq!(t.velocity, Velocity::new(0, 0));
}

#[test]
fn safe_move_is_bounded_by_the_arena() {
    let mut t = Tank::new_player(779_000, 579_000);
    t.velocity = Velocity::new(250_000, 250_000);
    t.safe_move(16, &[], &arena());
    assert_eq!(t.position, Position::new(780_000, 580_000));
}

#[test]
fn safe_move_keeps_a_contained_tank_contained() {
    let a = arena();
    let field = [Obstacle::new_wall(300_000, 250_000, 60_000, 60_000)];
    let mut t = Tank::new_enemy(20_000, 580_000);
    t.velocity = Velocity::new(-20_000_000, 20_000_000);
    for _ in 0..50 {
        t.safe_move(10_000, &field, &a);
        assert!(t.size <= t.position.x && t.position.x <= a.width - t.size);
        assert!(t.size <= t.position.y && t.position.y <= a.height - t.size);
        t.velocity = Velocity::new(20_000_000, -20_000_000);
    }
}

#[test]
fn can_shoot_only_after_the_cooldown() {
    let mut t = Tank::new_player(0, 0);
    assert!(!t.can_shoot(250));
    assert!(t.can_shoot(251));
    t.shoot(1000);
    assert_eq!(t.last_shot, 1000);
    assert!(!t.can_shoot(1250));
    assert!(t.can_shoot(1251));
}

#[test]
fn take_damage_lowers_health_and_reports_destruction() {
    let mut t = Tank::new_enemy(0, 0);
    assert!(!t.take_damage(25));
    assert_eq!(t.health, 25);
    assert!(t.take_damage(25));
    assert_eq!(t.health, 0);
    assert!(t.take_damage(25));
    assert_eq!(t.health, 0);
}

#[test]
fn health_never_goes_below_zero() {
    let mut t = Tank::new_player(0, 0);
    t.health = 10;
    assert!(t.take_damage(25));
    assert_eq!(t.health, 0);
    assert!(t.is_well_formed());
    let mut t = Tank::new_player(0, 0);
    assert!(t.take_damage(i32::MAX));
    assert_eq!(t.health, 0);
    let mut t = Tank::new_player(0, 0);
    assert!(!t.take_damage(199));
    assert_eq!(t.health, 1);
    t.health = -1;
    assert!(!t.is_well_formed());
}

#[test]
fn a_shield_absorbs_any_damage() {
    let mut t = Tank::new_player(0, 0);
    t.add_shield(30_000, 0);
    let before = t;
    for damage in [0, 1, 25, 200, 1_000_000, i32::MAX] {
        assert!(!t.take_damage(damage));
        assert_eq!(t, before);
    }
}

#[test]
fn take_damage_saturates_instead_of_overflowing() {
    let mut t = Tank::new_enemy(0, 0);
    t.health = i32::MIN + 5;
    assert!(t.take_damage(i32::MAX));
    assert_eq!(t.health, 0);
    let mut t = Tank::new_enemy(0, 0);
    t.max_health = i32::MAX;
    t.health = i32::MAX - 1;
    assert!(!t.take_damage(-5));
    assert_eq!(t.health, i32::MAX);
}

#[test]
fn heal_stops_at_the_maximum() {
    let mut t = Tank::new_player(0, 0);
    t.health = 100;
    t.heal(50);
    assert_eq!(t.health, 150);
    t.heal(50);
    assert_eq!(t.health, 200);
    t.heal(50);
    assert_eq!(t.health, 200);
    t.health = 190;
    t.heal(i32::MAX);
    assert_eq!(t.health, 200);
}

#[test]
fn tank_validity_checks_every_bound() {
    let good = Tank::new_player(0, 0);
    assert!(good.is_well_formed());
    let mut t = good;
    t.health = 201;
    assert!(!t.is_well_formed());
    let mut t = good;
    t.position.x = 950_000_001;
    assert!(!t.is_well_formed());
    let mut t = good;
    t.speed = 10_000_001;
    assert!(!t.is_well_formed());
    let mut t = good;
    t.size = -1;
    assert!(!t.is_well_formed());
    let mut t = good;
    t.angle = Angle { cos: 1001, sin: 0 };
    assert!(!t.is_well_formed());
    let mut t = good;
    t.last_shot = -1;
    assert!(!t.is_well_formed());
}

#[test]
fn healing_by_a_negative_amount_stops_at_zero() {
    let mut t = Tank::new_player(0, 0);
    t.health = 30;
    t.heal(-20);
    assert_eq!(t.health, 10);
    t.heal(-20);
    assert_eq!(t.health, 0);
    t.heal(i32::MIN);
    assert_eq!(t.health, 0);
    assert!(t.is_well_formed());
}
