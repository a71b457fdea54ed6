use tank_battle::entities::{Angle, Arena, Bullet, Position, Velocity};

fn arena() -> Arena {
    Arena::new(800_000, 600_000)
}

#[test]
fn new_bullet_has_the_documented_values() {
    let b = Bullet::new(100_000, 200_000, Angle { cos: 600, sin: 800 }, true);
    assert_eq!(b.position, Position::new(100_000, 200_000));
    assert_eq!(b.velocity, Velocity::new(180_000, 240_000));
    assert_eq!(b.damage, 25);
    assert_eq!(b.size, 3000);
    assert!(b.from_player);
    assert_eq!(b.lifetime, 0);
    assert_eq!(b.max_lifetime, 3000);
    assert!(b.is_well_formed());
}

#[test]
fn new_scatter_bullet_has_the_documented_values() {
    let b = Bullet::new_scatter(0, 0, Angle::zero(), Angle { cos: 955, sin: 296 }, false);
    // 250 * 0.955 and 250 * 0.296
    assert_eq!(b.velocity, Velocity::new(238_750, 74_000));
    assert_eq!(b.damage, 15);
    assert_eq!(b.size, 2500);
    assert!(!b.from_player);
    assert_eq!(b.max_lifetime, 2500);
}

#[test]
fn update_moves_and_ages() {
    let mut b = Bullet::new(100_000, 100_000, Angle::zero(), true);
    assert!(b.update(16, &arena()));
    assert_eq!(b.position, Position::new(104_800, 100_000));
    assert_eq!(b.lifetime, 16);
}

#[test]
fn a_bullet_at_rest_expires_when_its_age_reaches_the_maximum() {
    let mut b = Bullet::new(100_000, 100_000, Angle::zero(), true);
    b.velocity = Velocity::new(0, 0);
    let mut elapsed = 0;
    while elapsed + 16 < 3000 {
        assert!(b.update(16, &arena()));
        elapsed += 16;
    }
    assert_eq!(b.lifetime, 2992);
    assert!(!b.update(8, &arena()));
    assert_eq!(b.lifetime, 3000);
    assert_eq!(b.position, Position::new(100_000, 100_000));
}

#[test]
fn a_bullet_one_millisecond_short_of_its_maximum_age_is_alive() {
    let mut b = Bullet::new(100_000, 100_000, Angle::zero(), true);
    b.velocity = Velocity::new(0, 0);
    b.lifetime = 2998;
    assert!(b.update(1, &arena()));
    assert!(!b.update(1, &arena()));
}

#[test]
fn a_bullet_leaves_play_outside_the_arena() {
    let mut b = Bullet::new(799_000, 100_000, Angle::zero(), true);
    assert!(!b.update(16, &arena()));
    let mut b = Bullet::new(1000, 100_000, Angle { cos: -1000, sin: 0 }, true);
    assert!(!b.update(16, &arena()));
    let mut b = Bullet::new(100_000, 1000, Angle { cos: 0, sin: -1000 }, true);
    assert!(!b.update(16, &arena()));
    let mut b = Bullet::new(100_000, 599_000, Angle { cos: 0, sin: 1000 }, true);
    assert!(!b.update(16, &arena()));
}

#[test]
fn a_bullet_on_the_edge_is_still_inside() {
    let mut b = Bullet::new(800_000, 600_000, Angle::zero(), true);
    b.velocity = Velocity::new(0, 0);
    assert!(b.update(16, &arena()));
    let mut b = Bullet::new(0, 0, Angle::zero(), true);
    b.velocity = Velocity::new(0, 0);
    assert!(b.update(16, &arena()));
}

#[test]
fn bullet_collides_strictly_inside_the_sum_of_radii() {
    let b = Bullet::new(0, 0, Angle::zero(), true);
    assert!(b.collides_with_circle(&Position::new(22_999, 0), 20_000));
    assert!(!b.collides_with_circle(&Position::new(23_000, 0), 20_000));
    assert!(b.collides_with_circle(&Position::new(0, 0), 0));
    assert!(!b.collides_with_circle(&Position::new(0, 0), -3000));
    assert!(b.collides_with_circle(&Position::new(500_000, 500_000), i64::MAX));
}
