use tank_battle::entities::{Angle, Bullet, Position, Tank, Velocity};
use tank_battle::systems::input::fire_volley;
use tank_battle::systems::{handle_player_input, InputIntent};

fn intent(move_x: i64, move_y: i64, fire: bool) -> InputIntent {
    InputIntent { move_x, move_y, aim: None, fire }
}

#[test]
fn the_idle_intent_asks_for_nothing() {
    let i = InputIntent::idle();
    assert_eq!(i, intent(0, 0, false));
    assert!(i.is_well_formed());
    assert!(!intent(1001, 0, false).is_well_formed());
    assert!(!intent(0, -1001, false).is_well_formed());
    let mut bad = InputIntent::idle();
    bad.aim = Some(Angle { cos: 2000, sin: 0 });
    assert!(!bad.is_well_formed());
}

#[test]
fn the_tank_speeds_up_at_the_acceleration() {
    let mut t = Tank::new_player(400_000, 300_000);
    let bullets = handle_player_input(&mut t, &intent(1000, 0, false), 16, 0);
    assert!(bullets.is_empty());
    assert_eq!(t.velocity, Velocity::new(19_200, 0));
    assert_eq!(t.angle, Angle::zero());
    assert_eq!(t.position, Position::new(400_000, 300_000));
}

#[test]
fn the_tank_slows_down_at_the_deceleration() {
    let mut t = Tank::new_player(400_000, 300_000);
    t.velocity = Velocity::new(250_000, -250_000);
    t.angle = Angle { cos: 0, sin: 1000 };
    handle_player_input(&mut t, &InputIntent::idle(), 16, 0);
    assert_eq!(t.velocity, Velocity::new(226_000, -226_000));
    // Without movement the tank keeps facing the way it did.
    assert_eq!(t.angle, Angle { cos: 0, sin: 1000 });
}

#[test]
fn a_diagonal_is_no_faster_than_an_axis() {
    let mut t = Tank::new_player(400_000, 300_000);
    handle_player_input(&mut t, &intent(1000, 1000, false), 10_000, 0);
    assert_eq!(t.velocity, Velocity::new(176_776, 176_776));
    assert!(2 * 176_776i64 * 176_776 <= 250_000i64 * 250_000);
    assert!(2 * 176_777i64 * 176_777 > 250_000i64 * 250_000);
    assert_eq!(t.angle, Angle { cos: 707, sin: 707 });
    let mut t = Tank::new_player(400_000, 300_000);
    handle_player_input(&mut t, &intent(-1000, 0, false), 10_000, 0);
    assert_eq!(t.velocity, Velocity::new(-250_000, 0));
    assert_eq!(t.angle, Angle { cos: -1000, sin: 0 });
}

#[test]
fn a_velocity_close_to_its_target_snaps_to_it() {
    let mut t = Tank::new_player(400_000, 300_000);
    t.velocity = Velocity::new(249_900, 100);
    handle_player_input(&mut t, &intent(1000, 0, false), 0, 0);
    assert_eq!(t.velocity, Velocity::new(250_000, 0));
    let mut t = Tank::new_player(400_000, 300_000);
    t.velocity = Velocity::new(249_899, 101);
    handle_player_input(&mut t, &intent(1000, 0, false), 0, 0);
    assert_eq!(t.velocity, Velocity::new(249_899, 101));
}

#[test]
fn a_partial_axis_still_asks_for_full_speed() {
    let mut t = Tank::new_player(400_000, 300_000);
    handle_player_input(&mut t, &intent(0, 300, false), 10_000, 0);
    assert_eq!(t.velocity, Velocity::new(0, 250_000));
}

#[test]
fn an_aim_overrides_the_direction_of_movement() {
    let mut t = Tank::new_player(400_000, 300_000);
    let mut i = intent(1000, 0, false);
    i.aim = Some(Angle { cos: 0, sin: -1000 });
    handle_player_input(&mut t, &i, 16, 0);
    assert_eq!(t.angle, Angle { cos: 0, sin: -1000 });
}

#[test]
fn firing_gives_one_bullet_from_the_muzzle_and_starts_the_cooldown() {
    let mut t = Tank::new_player(400_000, 300_000);
    let bullets = handle_player_input(&mut t, &intent(0, 0, true), 16, 1000);
    assert_eq!(bullets, vec![Bullet::new(425_000, 300_000, Angle::zero(), true)]);
    assert_eq!(t.last_shot, 1000);
    let bullets = handle_player_input(&mut t, &intent(0, 0, true), 16, 1250);
    assert!(bullets.is_empty());
    assert_eq!(t.last_shot, 1000);
    let bullets = handle_player_input(&mut t, &intent(0, 0, true), 16, 1251);
    assert_eq!(bullets.len(), 1);
    assert_eq!(t.last_shot, 1251);
}

#[test]
fn the_bullet_leaves_along_the_new_facing() {
    let mut t = Tank::new_player(400_000, 300_000);
    let bullets = handle_player_input(&mut t, &intent(0, -1000, true), 16, 1000);
    assert_eq!(bullets, vec![Bullet::new(400_000, 275_000, Angle { cos: 0, sin: -1000 }, true)]);
    assert_eq!(bullets[0].velocity, Velocity::new(0, -300_000));
}

#[test]
fn no_fire_without_the_fire_control() {
    let mut t = Tank::new_player(400_000, 300_000);
    let bullets = handle_player_input(&mut t, &intent(0, 0, false), 16, 1000);
    assert!(bullets.is_empty());
    assert_eq!(t.last_shot, 0);
}

#[test]
fn a_scatter_shot_gives_five_bullets_fanned_out() {
    let mut t = Tank::new_player(400_000, 300_000);
    t.scatter_shot = true;
    let bullets = handle_player_input(&mut t, &intent(0, 0, true), 16, 1000);
    let spreads = [
        Angle { cos: 955, sin: -296 },
        Angle { cos: 989, sin: -149 },
        Angle { cos: 1000, sin: 0 },
        Angle { cos: 989, sin: 149 },
        Angle { cos: 955, sin: 296 },
    ];
    assert_eq!(bullets.len(), 5);
    for (b, s) in bullets.iter().zip(spreads) {
        assert_eq!(*b, Bullet::new_scatter(425_000, 300_000, Angle::zero(), s, true));
    }
    assert_eq!(bullets[0].velocity, Velocity::new(238_750, -74_000));
    assert_eq!(bullets[2].velocity, Velocity::new(250_000, 0));
    assert_eq!(bullets[4].velocity, Velocity::new(238_750, 74_000));
    assert_eq!(bullets[1].damage, 15);
}

#[test]
fn a_volley_is_always_the_players() {
    let mut t = Tank::new_player(400_000, 300_000);
    t.is_player = false;
    let bullets = fire_volley(&t);
    assert_eq!(bullets, vec![Bullet::new(425_000, 300_000, Angle::zero(), true)]);
}

#[test]
fn no_direction_of_the_axes_is_faster_than_the_speed() {
    for (mx, my) in [(1000, 1000), (1000, 1), (1, 1), (3, 4), (-1000, 999), (17, -1000), (500, 500)] {
        let mut t = Tank::new_player(400_000, 300_000);
        handle_player_input(&mut t, &intent(mx, my, false), 10_000, 0);
        let v = t.velocity;
        assert!(v.x * v.x + v.y * v.y <= 250_000i64 * 250_000, "{:?}", v);
        assert!(v.x * v.x + v.y * v.y >= 249_990i64 * 249_990, "{:?}", v);
    }
}
