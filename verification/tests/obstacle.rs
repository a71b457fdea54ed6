use tank_battle::entities::{Obstacle, Position};

#[test]
fn new_wall_and_new_steel_have_the_documented_values() {
    let w = Obstacle::new_wall(10_000, 20_000, 30_000, 40_000);
    assert_eq!(w.position, Position::new(10_000, 20_000));
    assert_eq!((w.width, w.height), (30_000, 40_000));
    assert_eq!((w.health, w.max_health), (100, 100));
    assert!(w.destructible);
    let s = Obstacle::new_steel(10_000, 20_000, 30_000, 40_000);
    assert_eq!((s.health, s.max_health), (1000, 1000));
    assert!(!s.destructible);
    assert!(w.is_well_formed() && s.is_well_formed());
}

#[test]
fn a_wall_falls_exactly_when_the_damage_reaches_its_health() {
    let mut w = Obstacle::new_wall(0, 0, 10_000, 10_000);
    assert!(!w.take_damage(25));
    assert!(!w.take_damage(25));
    assert!(!w.take_damage(25));
    assert_eq!(w.health, 25);
    assert!(!w.take_damage(24));
    assert_eq!(w.health, 1);
    assert!(w.take_damage(1));
    assert_eq!(w.health, 0);
}

#[test]
fn a_wall_falls_to_a_single_hit_of_its_health() {
    let mut w = Obstacle::new_wall(0, 0, 10_000, 10_000);
    assert!(w.take_damage(100));
    let mut w = Obstacle::new_wall(0, 0, 10_000, 10_000);
    assert!(!w.take_damage(99));
}

#[test]
fn steel_ignores_every_hit() {
    let mut s = Obstacle::new_steel(0, 0, 10_000, 10_000);
    let before = s;
    for damage in [1, 25, 1000, 1_000_000, i32::MAX] {
        assert!(!s.take_damage(damage));
    }
    assert_eq!(s, before);
}

#[test]
fn contains_point_includes_the_edges() {
    let o = Obstacle::new_wall(10_000, 20_000, 30_000, 40_000);
    assert!(o.contains_point(10_000, 20_000));
    assert!(o.contains_point(40_000, 60_000));
    assert!(o.contains_point(25_000, 30_000));
    assert!(!o.contains_point(9_999, 30_000));
    assert!(!o.contains_point(40_001, 30_000));
    assert!(!o.contains_point(25_000, 19_999));
    assert!(!o.contains_point(25_000, 60_001));
}

#[test]
fn circle_against_rectangle_uses_the_nearest_point() {
    let o = Obstacle::new_wall(100_000, 100_000, 50_000, 50_000);
    // Inside the rectangle the distance is zero.
    assert!(o.collides_with_circle(&Position::new(120_000, 120_000), 1));
    assert!(!o.collides_with_circle(&Position::new(120_000, 120_000), 0));
    // Beside an edge.
    assert!(o.collides_with_circle(&Position::new(90_001, 120_000), 10_000));
    assert!(!o.collides_with_circle(&Position::new(90_000, 120_000), 10_000));
    // Off a corner: the nearest point is the corner (150, 150).
    assert!(o.collides_with_circle(&Position::new(153_000, 154_000), 5001));
    assert!(!o.collides_with_circle(&Position::new(153_000, 154_000), 5000));
}

#[test]
fn obstacle_validity_bounds_both_corners() {
    assert!(Obstacle::new_steel(-900_000_000, 0, 1_800_000_000, 20_000).is_well_formed());
    assert!(!Obstacle::new_steel(0, 0, 900_000_001, 20_000).is_well_formed());
    assert!(!Obstacle::new_steel(0, 0, -1, 20_000).is_well_formed());
    assert!(!Obstacle::new_steel(-900_000_001, 0, 10, 10).is_well_formed());
}
