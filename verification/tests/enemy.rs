use rand::rngs::StdRng;
use rand::SeedableRng;
use tank_battle::entities::{AiDraws, Angle, Arena, EnemyAI, Obstacle, Position, Tank, Velocity};

fn arena() -> Arena {
    Arena::new(800_000, 600_000)
}

fn draws() -> AiDraws {
    AiDraws {
        pursue_roll: 0,
        aim_roll: 999,
        heading_x: 600,
        heading_y: 800,
        speed_factor: 500,
        side_roll: 0,
        approach_factor: 200,
        interval_roll: 500,
        shoot_roll: 999_999_999,
    }
}

fn memory(difficulty: i64) -> EnemyAI {
    EnemyAI::with_temper(difficulty, 0, 300, 2000)
}

#[test]
fn draws_are_sampled_within_their_ranges() {
    let mut rng = StdRng::seed_from_u64(3);
    for _ in 0..1000 {
        let d = AiDraws::sample(&mut rng);
        assert!(d.is_well_formed());
    }
    let mut bad = draws();
    bad.speed_factor = 299;
    assert!(!bad.is_well_formed());
    let mut bad = draws();
    bad.shoot_roll = 1_000_000_000;
    assert!(!bad.is_well_formed());
}

#[test]
fn aggression_is_drawn_by_tier() {
    let mut rng = StdRng::seed_from_u64(5);
    for _ in 0..300 {
        let easy = EnemyAI::new_with_difficulty(1000, 77, &mut rng);
        assert!((100..300).contains(&easy.aggression_level));
        let normal = EnemyAI::new_with_difficulty(1500, 77, &mut rng);
        assert!((300..600).contains(&normal.aggression_level));
        let also_normal = EnemyAI::new_with_difficulty(2000, 77, &mut rng);
        assert!((300..600).contains(&also_normal.aggression_level));
        let hard = EnemyAI::new_with_difficulty(2001, 77, &mut rng);
        assert!((600..900).contains(&hard.aggression_level));
        for ai in [easy, normal, also_normal, hard] {
            assert!((2000..5000).contains(&ai.direction_change_interval));
            assert_eq!(ai.last_direction_change, 77);
            assert_eq!(ai.player_velocity_estimate, (0, 0));
            assert_eq!(ai.last_player_position, Position::new(0, 0));
            assert!(ai.is_well_formed());
        }
        assert_eq!(hard.difficulty, 2001);
    }
    let plain = EnemyAI::new(5, &mut rng);
    assert_eq!(plain.difficulty, 1000);
    assert!((100..300).contains(&plain.aggression_level));
}

#[test]
fn an_agent_too_near_the_player_steers_away_from_it() {
    // Distance 50 with a retreat threshold of 100.
    let mut ai = memory(3000);
    let mut enemy = Tank::new_enemy(400_000, 300_000);
    let player = Tank::new_player(430_000, 340_000);
    assert_eq!(enemy.position.distance_to(&player.position), 50_000);
    ai.decide(&mut enemy, &player, &[], &arena(), 100, 16, &draws());
    assert_eq!(enemy.velocity, Velocity::new(-48_000, -64_000));
    let away_x = enemy.position.x - player.position.x;
    let away_y = enemy.position.y - player.position.y;
    assert!(enemy.velocity.x * away_x + enemy.velocity.y * away_y > 0);
}

#[test]
fn retreat_thresholds_depend_on_the_tier() {
    // At distance 130 the easiest tier retreats, the others do not.
    let player = Tank::new_player(530_000, 300_000);
    let mut enemy = Tank::new_enemy(400_000, 300_000);
    memory(1000).decide(&mut enemy, &player, &[], &arena(), 100, 16, &draws());
    assert_eq!(enemy.velocity, Velocity::new(-80_000, 0));
    let mut enemy = Tank::new_enemy(400_000, 300_000);
    memory(1500).decide(&mut enemy, &player, &[], &arena(), 100, 16, &draws());
    assert_eq!(enemy.velocity, Velocity::new(0, 0));
    // At distance 110 the middle tier retreats too, the hardest does not.
    let player = Tank::new_player(510_000, 300_000);
    let mut enemy = Tank::new_enemy(400_000, 300_000);
    memory(2000).decide(&mut enemy, &player, &[], &arena(), 100, 16, &draws());
    assert_eq!(enemy.velocity, Velocity::new(-80_000, 0));
    let mut enemy = Tank::new_enemy(400_000, 300_000);
    memory(2001).decide(&mut enemy, &player, &[], &arena(), 100, 16, &draws());
    assert_eq!(enemy.velocity, Velocity::new(0, 0));
}

#[test]
fn an_agent_too_far_from_the_player_closes_in_at_70_percent() {
    let big = Arena::new(2_000_000, 2_000_000);
    let mut ai = memory(1000);
    let mut enemy = Tank::new_enemy(100_000, 100_000);
    let player = Tank::new_player(400_000, 500_000);
    ai.decide(&mut enemy, &player, &[], &big, 100, 16, &draws());
    assert_eq!(enemy.velocity, Velocity::new(33_600, 44_800));
}

#[test]
fn an_agent_that_does_not_pursue_keeps_its_course_until_a_change_is_due() {
    let mut ai = memory(1000);
    let mut enemy = Tank::new_enemy(400_000, 300_000);
    enemy.velocity = Velocity::new(10_000, -10_000);
    let player = Tank::new_player(430_000, 340_000);
    let mut d = draws();
    d.pursue_roll = 800;
    ai.decide(&mut enemy, &player, &[], &arena(), 2000, 16, &d);
    assert_eq!(enemy.velocity, Velocity::new(10_000, -10_000));
    assert_eq!(ai.last_direction_change, 0);
    ai.decide(&mut enemy, &player, &[], &arena(), 2001, 16, &d);
    // Half of the speed along (0.6, 0.8).
    assert_eq!(enemy.velocity, Velocity::new(24_000, 32_000));
    assert_eq!(ai.last_direction_change, 2001);
    assert_eq!(ai.direction_change_interval, 3500);
}

#[test]
fn pursuit_chance_depends_on_the_tier() {
    let player = Tank::new_player(430_000, 340_000);
    for (difficulty, roll, pursues) in [
        (1000, 799, true),
        (1000, 800, false),
        (1500, 699, true),
        (1500, 700, false),
        (3000, 899, true),
        (3000, 900, false),
    ] {
        let mut ai = memory(difficulty);
        let mut enemy = Tank::new_enemy(400_000, 300_000);
        let mut d = draws();
        d.pursue_roll = roll;
        ai.decide(&mut enemy, &player, &[], &arena(), 100, 16, &d);
        assert_eq!(enemy.velocity != Velocity::new(0, 0), pursues, "{} {}", difficulty, roll);
    }
}

#[test]
fn in_the_band_the_easiest_tier_strafes_when_a_change_is_due() {
    let mut ai = memory(1000);
    let mut enemy = Tank::new_enemy(400_000, 300_000);
    let player = Tank::new_player(600_000, 300_000);
    ai.decide(&mut enemy, &player, &[], &arena(), 2000, 16, &draws());
    assert_eq!(enemy.velocity, Velocity::new(0, 0));
    ai.decide(&mut enemy, &player, &[], &arena(), 2001, 16, &draws());
    assert_eq!(enemy.velocity, Velocity::new(16_000, 64_000));
    assert_eq!(ai.last_direction_change, 2001);
    assert_eq!(ai.direction_change_interval, 3000);

    let mut ai = memory(1000);
    let mut enemy = Tank::new_enemy(400_000, 300_000);
    let mut d = draws();
    d.side_roll = 1;
    d.approach_factor = -300;
    ai.decide(&mut enemy, &player, &[], &arena(), 2001, 16, &d);
    assert_eq!(enemy.velocity, Velocity::new(-24_000, -64_000));
}

#[test]
fn in_the_band_the_other_tiers_wander_when_a_change_is_due() {
    let mut ai = memory(1500);
    let mut enemy = Tank::new_enemy(400_000, 300_000);
    let player = Tank::new_player(600_000, 300_000);
    ai.decide(&mut enemy, &player, &[], &arena(), 2001, 16, &draws());
    assert_eq!(enemy.velocity, Velocity::new(24_000, 32_000));
    assert_eq!(ai.direction_change_interval, 2000);
}

#[test]
fn an_agent_near_an_edge_steers_inward_before_anything_else() {
    let mut ai = memory(3000);
    let mut enemy = Tank::new_enemy(30_000, 300_000);
    let player = Tank::new_player(40_000, 300_000);
    assert!(ai.check_and_avoid_boundaries(&mut enemy, &arena()));
    assert_eq!(enemy.velocity, Velocity::new(64_000, 0));
    // The decision gives the same, although the player is near enough to retreat from.
    let mut enemy = Tank::new_enemy(30_000, 300_000);
    ai.decide(&mut enemy, &player, &[], &arena(), 100, 16, &draws());
    assert_eq!(enemy.velocity, Velocity::new(64_000, 0));
}

#[test]
fn an_agent_in_a_corner_steers_along_the_diagonal() {
    let ai = memory(1000);
    let mut enemy = Tank::new_enemy(30_000, 30_000);
    assert!(ai.check_and_avoid_boundaries(&mut enemy, &arena()));
    assert_eq!(enemy.velocity, Velocity::new(45_254, 45_254));
    let mut enemy = Tank::new_enemy(770_000, 570_000);
    assert!(ai.check_and_avoid_boundaries(&mut enemy, &arena()));
    assert_eq!(enemy.velocity, Velocity::new(-45_254, -45_254));
}

#[test]
fn an_agent_away_from_the_edges_is_not_steered_by_them() {
    let ai = memory(1000);
    let mut enemy = Tank::new_enemy(68_000, 532_000);
    enemy.velocity = Velocity::new(5, 6);
    assert!(!ai.check_and_avoid_boundaries(&mut enemy, &arena()));
    assert_eq!(enemy.velocity, Velocity::new(5, 6));
    let mut enemy = Tank::new_enemy(67_999, 300_000);
    assert!(ai.check_and_avoid_boundaries(&mut enemy, &arena()));
}

#[test]
fn an_agent_steers_around_the_nearest_obstacle() {
    let ai = memory(1000);
    let field = [
        Obstacle::new_wall(100_000, 100_000, 40_000, 40_000),
        Obstacle::new_wall(430_000, 280_000, 40_000, 40_000),
        Obstacle::new_wall(330_000, 240_000, 40_000, 40_000),
    ];
    let mut enemy = Tank::new_enemy(400_000, 300_000);
    assert!(ai.check_and_avoid_obstacles(&mut enemy, &field));
    assert_eq!(enemy.velocity, Velocity::new(-18_782, -8049));
}

#[test]
fn obstacles_out_of_detection_do_not_steer_the_agent() {
    let ai = memory(1000);
    // Centre at distance 88 with a radius of 20: exactly at the end of detection.
    let field = [Obstacle::new_wall(468_000, 280_000, 40_000, 40_000)];
    let mut enemy = Tank::new_enemy(400_000, 300_000);
    enemy.velocity = Velocity::new(5, 6);
    assert!(!ai.check_and_avoid_obstacles(&mut enemy, &field));
    assert_eq!(enemy.velocity, Velocity::new(5, 6));
    assert!(!ai.check_and_avoid_obstacles(&mut enemy, &[]));
    let field = [Obstacle::new_wall(467_999, 280_000, 40_000, 40_000)];
    assert!(ai.check_and_avoid_obstacles(&mut enemy, &field));
}

#[test]
fn an_agent_at_the_centre_of_an_obstacle_is_not_steered_by_it() {
    let ai = memory(1000);
    let field = [Obstacle::new_wall(380_000, 280_000, 40_000, 40_000)];
    let mut enemy = Tank::new_enemy(400_000, 300_000);
    enemy.velocity = Velocity::new(5, 6);
    assert!(!ai.check_and_avoid_obstacles(&mut enemy, &field));
    assert_eq!(enemy.velocity, Velocity::new(5, 6));
}

#[test]
fn obstacle_avoidance_comes_before_engagement() {
    let mut ai = memory(3000);
    let field = [Obstacle::new_wall(430_000, 280_000, 40_000, 40_000)];
    let mut enemy = Tank::new_enemy(400_000, 300_000);
    let player = Tank::new_player(430_000, 340_000);
    ai.decide(&mut enemy, &player, &field, &arena(), 100, 16, &draws());
    assert_eq!(enemy.velocity, Velocity::new(-18_782, -8049));
}

#[test]
fn agents_above_the_easiest_tier_aim_straight_at_the_player() {
    let mut ai = memory(1500);
    let mut enemy = Tank::new_enemy(400_000, 300_000);
    let player = Tank::new_player(430_000, 340_000);
    ai.decide(&mut enemy, &player, &[], &arena(), 100, 16, &draws());
    assert_eq!(enemy.angle, Angle { cos: 600, sin: 800 });
}

#[test]
fn the_easiest_tier_aims_ahead_in_four_ticks_of_five() {
    let player = Tank::new_player(600_000, 300_000);
    let mut ai = memory(1000);
    ai.last_player_position = player.position;
    ai.player_velocity_estimate = (0, 100_000);
    let mut enemy = Tank::new_enemy(400_000, 300_000);
    let mut d = draws();
    d.aim_roll = 800;
    ai.decide(&mut enemy, &player, &[], &arena(), 100, 16, &d);
    assert_eq!(enemy.angle, Angle::zero());
    assert_eq!(ai.player_velocity_estimate, (0, 70_000));

    let mut ai = memory(1000);
    ai.last_player_position = player.position;
    ai.player_velocity_estimate = (0, 100_000);
    d.aim_roll = 799;
    ai.decide(&mut enemy, &player, &[], &arena(), 100, 16, &d);
    // The flight takes 666 ms, in which the player is expected 46.62 further down.
    assert_eq!(enemy.angle, Angle { cos: 973, sin: 227 });
}

#[test]
fn the_estimate_blends_the_velocity_seen() {
    let mut ai = memory(1000);
    let player = Tank::new_player(600_000, 300_000);
    ai.update_player_velocity_estimate(&player, 16);
    assert_eq!(ai.player_velocity_estimate, (11_250_000, 5_625_000));
    assert_eq!(ai.last_player_position, player.position);
    ai.update_player_velocity_estimate(&player, 16);
    assert_eq!(ai.player_velocity_estimate, (7_875_000, 3_937_500));
    // A tick without duration shows no velocity.
    let moved = Tank::new_player(610_000, 300_000);
    ai.update_player_velocity_estimate(&moved, 0);
    assert_eq!(ai.player_velocity_estimate, (7_875_000, 3_937_500));
    assert_eq!(ai.last_player_position, moved.position);
}

#[test]
fn aim_ahead_of_a_player_seen_for_the_first_time() {
    let mut ai = memory(1000);
    let mut enemy = Tank::new_enemy(400_000, 300_000);
    let player = Tank::new_player(600_000, 300_000);
    ai.update_player_velocity_estimate(&player, 16);
    ai.aim_at_player_predictive(&mut enemy, &player);
    assert_eq!(enemy.angle, Angle { cos: 899, sin: 437 });
    ai.aim_at_player(&mut enemy, &player);
    assert_eq!(enemy.angle, Angle::zero());
}

#[test]
fn the_chance_to_fire_scales_with_aggression_distance_and_tier() {
    let enemy = Tank::new_enemy(0, 0);
    let player = Tank::new_player(0, 0);
    let ai = memory(1000);
    assert!(ai.should_shoot(&enemy, &player, 149_999, 5_999_999));
    assert!(!ai.should_shoot(&enemy, &player, 149_999, 6_000_000));
    assert!(ai.should_shoot(&enemy, &player, 150_000, 4_199_999));
    assert!(!ai.should_shoot(&enemy, &player, 150_000, 4_200_000));
    assert!(ai.should_shoot(&enemy, &player, 250_000, 1_799_999));
    assert!(!ai.should_shoot(&enemy, &player, 250_000, 1_800_000));
    let ai = memory(1500);
    assert!(ai.should_shoot(&enemy, &player, 0, 4_499_999));
    assert!(!ai.should_shoot(&enemy, &player, 0, 4_500_000));
    let ai = memory(2500);
    assert!(ai.should_shoot(&enemy, &player, 0, 7_499_999));
    assert!(!ai.should_shoot(&enemy, &player, 0, 7_500_000));
    let mut calm = memory(1000);
    calm.aggression_level = 0;
    assert!(!calm.should_shoot(&enemy, &player, 0, 0));
}

#[test]
fn an_agent_fires_only_when_ready_and_lucky() {
    let player = Tank::new_player(600_000, 300_000);
    let mut d = draws();
    d.shoot_roll = 0;
    let mut ai = memory(1000);
    let mut enemy = Tank::new_enemy(400_000, 300_000);
    // The cooldown of one second is not over at 1000.
    assert!(!ai.decide(&mut enemy, &player, &[], &arena(), 1000, 16, &d));
    assert_eq!(enemy.last_shot, 0);
    assert!(ai.decide(&mut enemy, &player, &[], &arena(), 1001, 16, &d));
    assert_eq!(enemy.last_shot, 1001);
    assert!(!ai.decide(&mut enemy, &player, &[], &arena(), 1500, 16, &d));
    d.shoot_roll = 4_200_000;
    assert!(!ai.decide(&mut enemy, &player, &[], &arena(), 5000, 16, &d));
    assert_eq!(enemy.last_shot, 1001);
}

#[test]
fn a_decision_never_moves_the_agent() {
    let mut rng = StdRng::seed_from_u64(9);
    let field = [Obstacle::new_wall(430_000, 280_000, 40_000, 40_000)];
    let player = Tank::new_player(600_000, 300_000);
    let mut ai = EnemyAI::new_with_difficulty(1000, 0, &mut rng);
    let mut enemy = Tank::new_enemy(400_000, 300_000);
    for tick in 0..500 {
        let before = enemy;
        ai.update(&mut enemy, &player, &field, &arena(), tick * 16, 16, &mut rng);
        assert_eq!(enemy.position, before.position);
        assert_eq!(enemy.health, before.health);
        assert!(enemy.is_well_formed());
        assert!(ai.is_well_formed());
    }
}

#[test]
fn single_movement_rules() {
    let ai = memory(1000);
    let player = Tank::new_player(430_000, 340_000);
    let mut enemy = Tank::new_enemy(400_000, 300_000);
    ai.retreat_from_player(&mut enemy, &player);
    assert_eq!(enemy.velocity, Velocity::new(-48_000, -64_000));
    ai.approach_player(&mut enemy, &player);
    assert_eq!(enemy.velocity, Velocity::new(33_600, 44_800));
    ai.random_movement(&mut enemy, &draws());
    assert_eq!(enemy.velocity, Velocity::new(24_000, 32_000));
    ai.tactical_movement(&mut enemy, &player, &draws());
    // 0.8 * (-0.8, 0.6) + 0.2 * (0.6, 0.8) = (-0.52, 0.64)
    assert_eq!(enemy.velocity, Velocity::new(-41_600, 51_200));
    // An agent on top of the player keeps its velocity under every rule that needs a direction.
    let on_top = Tank::new_player(400_000, 300_000);
    ai.retreat_from_player(&mut enemy, &on_top);
    ai.approach_player(&mut enemy, &on_top);
    ai.tactical_movement(&mut enemy, &on_top, &draws());
    assert_eq!(enemy.velocity, Velocity::new(-41_600, 51_200));
}

#[test]
fn steering_and_aiming_are_the_two_halves_of_a_decision() {
    let player = Tank::new_player(600_000, 300_000);
    let mut whole_ai = memory(1500);
    let mut whole = Tank::new_enemy(400_000, 300_000);
    whole_ai.decide(&mut whole, &player, &[], &arena(), 2001, 0, &draws());

    let mut ai = memory(1500);
    let mut enemy = Tank::new_enemy(400_000, 300_000);
    ai.update_player_velocity_estimate(&player, 0);
    ai.steer(&mut enemy, &player, &[], &arena(), 2001, &draws());
    assert_eq!(enemy.velocity, Velocity::new(24_000, 32_000));
    assert_eq!(enemy.angle, Angle::zero());
    ai.take_aim(&mut enemy, &player, &draws());
    assert_eq!(enemy.angle, Angle { cos: 1000, sin: 0 });
    assert_eq!(enemy, whole);
    assert_eq!(ai, whole_ai);
}

#[test]
fn an_agent_barely_inside_a_margin_steers_inward_at_full_pace() {
    let ai = memory(1000);
    // The margin is 68; each agent is a thousandth inside that of one edge only.
    for (x, y, vx, vy) in [
        (67_999, 300_000, 64_000, 0),
        (732_001, 300_000, -64_000, 0),
        (400_000, 67_999, 0, 64_000),
        (400_000, 532_001, 0, -64_000),
    ] {
        let mut enemy = Tank::new_enemy(x, y);
        assert!(ai.check_and_avoid_boundaries(&mut enemy, &arena()));
        assert_eq!(enemy.velocity, Velocity::new(vx, vy));
    }
    // Deep inside one margin and barely inside another, the deep one prevails.
    let mut enemy = Tank::new_enemy(18_000, 67_999);
    assert!(ai.check_and_avoid_boundaries(&mut enemy, &arena()));
    assert_eq!(enemy.velocity, Velocity::new(63_999, 0));
}

#[test]
fn depths_that_cancel_in_a_narrow_arena_stop_the_agent() {
    let ai = memory(1000);
    let narrow = Arena::new(100_000, 600_000);
    let mut enemy = Tank::new_enemy(50_000, 300_000);
    enemy.velocity = Velocity::new(5, 6);
    assert!(ai.check_and_avoid_boundaries(&mut enemy, &narrow));
    assert_eq!(enemy.velocity, Velocity::new(0, 0));
}

#[test]
fn no_steering_rule_asks_for_more_than_the_speed() {
    let ai = memory(1000);
    for (dx, dy) in [(1, 1), (1, 2), (7, 3), (1000, 999), (123_456, 654_321), (1, 0), (0, -1)] {
        let player = Tank::new_player(400_000, 300_000);
        let mut enemy = Tank::new_enemy(400_000 + dx, 300_000 + dy);
        ai.retreat_from_player(&mut enemy, &player);
        let v = enemy.velocity;
        assert!(v.x * v.x + v.y * v.y <= 80_000 * 80_000, "{:?}", v);
        assert!(v.x * v.x + v.y * v.y >= 79_990 * 79_990, "{:?}", v);
        assert!(v.x * dx + v.y * dy > 0);
    }
}

#[test]
fn the_approach_distance_is_compared_with_the_true_distance() {
    let big = Arena::new(2_000_000, 2_000_000);
    // At exactly 300 the agent of the easiest tier is in the band; a hair beyond, the
    // distance rounds down to 300 and the agent still closes in.
    let player = Tank::new_player(1_000_000, 1_000_000);
    let mut enemy = Tank::new_enemy(700_000, 1_000_000);
    memory(1000).decide(&mut enemy, &player, &[], &big, 100, 16, &draws());
    assert_eq!(enemy.velocity, Velocity::new(0, 0));
    let mut enemy = Tank::new_enemy(700_000, 1_000_001);
    assert_eq!(enemy.position.distance_to(&player.position), 300_000);
    memory(1000).decide(&mut enemy, &player, &[], &big, 100, 16, &draws());
    assert_eq!(enemy.velocity, Velocity::new(55_999, 0));
}

#[test]
fn the_nearest_obstacle_is_nearest_by_the_true_distance() {
    let ai = memory(1000);
    // The centres are 2.83 and 2.24 thousandths away: both distances round down to 2,
    // and the second obstacle is the nearer one.
    let field = [
        Obstacle::new_wall(400_002 - 20_000, 300_002 - 20_000, 40_000, 40_000),
        Obstacle::new_wall(400_002 - 20_000, 299_999 - 20_000, 40_000, 40_000),
    ];
    let mut enemy = Tank::new_enemy(400_000, 300_000);
    assert!(ai.check_and_avoid_obstacles(&mut enemy, &field));
    // Away from (2, -1) the agent moves down; away from (2, 2) it would move up.
    assert!(enemy.velocity.x < 0 && enemy.velocity.y > 0, "{:?}", enemy.velocity);
}
