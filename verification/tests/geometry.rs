use tank_battle::entities::{Angle, Arena, Position, Velocity};
use tank_battle::fixed::{clamp_to, int_sqrt, magnitude, mul_div, saturate_i32, vector_length};

#[test]
fn int_sqrt_rounds_down() {
    assert_eq!(int_sqrt(0), 0);
    assert_eq!(int_sqrt(1), 1);
    assert_eq!(int_sqrt(15), 3);
    assert_eq!(int_sqrt(16), 4);
    assert_eq!(int_sqrt(17), 4);
    assert_eq!(int_sqrt(999_999), 999);
    assert_eq!(int_sqrt(1_000_000), 1000);
    assert_eq!(int_sqrt(u64::MAX), 4_294_967_295);
}

#[test]
fn mul_div_rounds_toward_zero() {
    assert_eq!(mul_div(7, 1, 2), 3);
    assert_eq!(mul_div(-7, 1, 2), -3);
    assert_eq!(mul_div(250_000, 16, 1000), 4000);
    assert_eq!(mul_div(-250_000, 16, 1000), -4000);
    assert_eq!(mul_div(0, 5, 3), 0);
    // The product passes through 128 bits.
    assert_eq!(mul_div(4_000_000_000_000, 5_000_000, 1000), 20_000_000_000_000_000);
}

#[test]
fn clamp_and_saturate_hold_the_ends() {
    assert_eq!(clamp_to(5, 0, 10), 5);
    assert_eq!(clamp_to(-5, 0, 10), 0);
    assert_eq!(clamp_to(15, 0, 10), 10);
    assert_eq!(clamp_to(3, 10, 0), 10);
    assert_eq!(saturate_i32(i32::MAX as i64 + 1), i32::MAX);
    assert_eq!(saturate_i32(i32::MIN as i64 - 1), i32::MIN);
    assert_eq!(saturate_i32(-17), -17);
    assert_eq!(magnitude(-9), 9);
    assert_eq!(magnitude(9), 9);
}

#[test]
fn vector_length_of_a_3_4_5_triangle() {
    assert_eq!(vector_length(3000, 4000), 5000);
    assert_eq!(vector_length(-3000, 4000), 5000);
    assert_eq!(vector_length(0, 0), 0);
    assert_eq!(vector_length(1, 1), 1);
    assert_eq!(vector_length(2_000_000_000, 2_000_000_000), 2_828_427_124);
}

#[test]
fn distance_is_symmetric_and_rounded_down() {
    let a = Position::new(0, 0);
    let b = Position::new(30_000, 40_000);
    assert_eq!(a.distance_to(&b), 50_000);
    assert_eq!(b.distance_to(&a), 50_000);
    assert_eq!(a.distance_to(&a), 0);
    let c = Position::new(1000, 1000);
    assert_eq!(a.distance_to(&c), 1414);
}

#[test]
fn position_validity_ends_at_the_coordinate_limit() {
    assert!(Position::new(1_000_000_000, -1_000_000_000).is_well_formed());
    assert!(!Position::new(1_000_000_001, 0).is_well_formed());
    assert!(!Position::new(0, -1_000_000_001).is_well_formed());
}

#[test]
fn angle_toward_normalises_the_vector() {
    let a = Angle::toward(3000, 4000);
    assert_eq!(a, Angle { cos: 600, sin: 800 });
    let left = Angle::toward(-5, 0);
    assert_eq!(left, Angle { cos: -1000, sin: 0 });
    let up = Angle::toward(0, -70_000);
    assert_eq!(up, Angle { cos: 0, sin: -1000 });
    assert!(a.is_well_formed());
}

#[test]
fn angle_toward_the_zero_vector_is_the_angle_zero() {
    assert_eq!(Angle::toward(0, 0), Angle::zero());
    assert_eq!(Angle::zero(), Angle { cos: 1000, sin: 0 });
}

#[test]
fn rotation_follows_the_addition_formulas() {
    let east = Angle::zero();
    let quarter = Angle { cos: 0, sin: 1000 };
    assert_eq!(east.rotated(&quarter), quarter);
    assert_eq!(quarter.rotated(&quarter), Angle { cos: -1000, sin: 0 });
    let a = Angle { cos: 600, sin: 800 };
    assert_eq!(a.rotated(&Angle::zero()), a);
    // cos = 0.6 * 0.955 - 0.8 * 0.296, sin = 0.8 * 0.955 + 0.6 * 0.296
    assert_eq!(a.rotated(&Angle { cos: 955, sin: 296 }), Angle { cos: 573 - 236, sin: 764 + 177 });
}

#[test]
fn velocity_from_angle_scales_cosine_and_sine() {
    let v = Velocity::from_angle(Angle { cos: 600, sin: -800 }, 300_000);
    assert_eq!(v, Velocity::new(180_000, -240_000));
    assert_eq!(Velocity::from_angle(Angle::zero(), 0), Velocity::new(0, 0));
    assert!(v.is_well_formed());
    assert!(!Velocity::new(20_000_001, 0).is_well_formed());
}

#[test]
fn arena_validity() {
    assert!(Arena::new(800_000, 600_000).is_well_formed());
    assert!(Arena::new(0, 0).is_well_formed());
    assert!(!Arena::new(-1, 600_000).is_well_formed());
    assert!(!Arena::new(800_000, 900_000_001).is_well_formed());
}
