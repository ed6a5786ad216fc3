use click_to_move::numeric::clamp_to;
use click_to_move::numeric::ease_toward;
use click_to_move::numeric::isqrt;
use click_to_move::numeric::magnitude;
use click_to_move::numeric::mul_div_toward_zero;
use click_to_move::vector::FixedVec3;

#[test]
fn isqrt_of_small_numbers() {
    let expected: [u64; 17] = [0, 1, 1, 1, 2, 2, 2, 2, 2, 3, 3, 3, 3, 3, 3, 3, 4];
    for (n, root) in expected.iter().enumerate() {
        assert_eq!(isqrt(n as u128), *root);
    }
}

#[test]
fn isqrt_around_perfect_squares() {
    assert_eq!(isqrt(24_999_999_999_999), 4_999_999);
    assert_eq!(isqrt(25_000_000_000_000), 5_000_000);
    assert_eq!(isqrt(25_000_010_000_000), 5_000_000);
    assert_eq!(isqrt(25_000_010_000_001), 5_000_001);
}

#[test]
fn isqrt_of_the_largest_numbers() {
    assert_eq!(isqrt(u128::MAX), u64::MAX);
    assert_eq!(isqrt((u64::MAX as u128) * (u64::MAX as u128)), u64::MAX);
    assert_eq!(isqrt((u64::MAX as u128) * (u64::MAX as u128) - 1), u64::MAX - 1);
    assert_eq!(isqrt(1u128 << 126), 1u64 << 63);
}

#[test]
fn clamp_holds_to_the_interval() {
    assert_eq!(clamp_to(5, -3, 9), 5);
    assert_eq!(clamp_to(-4, -3, 9), -3);
    assert_eq!(clamp_to(10, -3, 9), 9);
    assert_eq!(clamp_to(-3, -3, 9), -3);
    assert_eq!(clamp_to(9, -3, 9), 9);
    assert_eq!(clamp_to(i128::MAX, i64::MIN, i64::MAX), i64::MAX);
    assert_eq!(clamp_to(i128::MIN, i64::MIN, i64::MAX), i64::MIN);
    assert_eq!(clamp_to(7, 7, 7), 7);
}

#[test]
fn magnitude_drops_the_sign() {
    assert_eq!(magnitude(0), 0);
    assert_eq!(magnitude(-5), 5);
    assert_eq!(magnitude(5), 5);
    assert_eq!(magnitude(i128::MIN + 1), i128::MAX as u128);
}

#[test]
fn scaled_products_round_toward_zero() {
    assert_eq!(mul_div_toward_zero(7, 1, 2), 3);
    assert_eq!(mul_div_toward_zero(-7, 1, 2), -3);
    assert_eq!(mul_div_toward_zero(7, 3, 2), 10);
    assert_eq!(mul_div_toward_zero(-7, 3, 2), -10);
    assert_eq!(mul_div_toward_zero(0, 3, 2), 0);
    assert_eq!(mul_div_toward_zero(-1, 1, 2), 0);
    assert_eq!(mul_div_toward_zero(3_000_000, 1_000_000, 5_000_000), 600_000);
    assert_eq!(
        mul_div_toward_zero(i64::MIN, u64::MAX, 1),
        (i64::MIN as i128) * (u64::MAX as i128)
    );
    assert_eq!(mul_div_toward_zero(i64::MAX, u64::MAX, u64::MAX), i64::MAX as i128);
}

#[test]
fn easing_rounds_the_step_away_from_zero() {
    assert_eq!(ease_toward(0, 10, 1), 1);
    assert_eq!(ease_toward(0, -10, 1), -1);
    assert_eq!(ease_toward(0, 10, 0), 0);
    assert_eq!(ease_toward(0, 10, 1_000_000), 10);
    assert_eq!(ease_toward(5, 5, 333_333), 5);
    assert_eq!(ease_toward(0, 3_000_000, 500_000), 1_500_000);
    assert_eq!(ease_toward(0, 3, 500_000), 2);
    assert_eq!(ease_toward(0, -3, 500_000), -2);
    assert_eq!(ease_toward(100, 0, 250_000), 75);
    assert_eq!(ease_toward(i64::MIN, i64::MAX, 1_000_000), i64::MAX);
    assert_eq!(ease_toward(i64::MAX, i64::MIN, 1_000_000), i64::MIN);
    assert_eq!(ease_toward(i64::MIN, i64::MAX, 500_000), 0);
}

#[test]
fn points_must_lie_in_the_world() {
    let limit: i64 = 1_000_000_000_000;
    assert_eq!(FixedVec3::new(1, -2, 3), Some(FixedVec3 { x: 1, y: -2, z: 3 }));
    assert_eq!(FixedVec3::new(limit, -limit, limit), Some(FixedVec3 { x: limit, y: -limit, z: limit }));
    assert_eq!(FixedVec3::new(limit + 1, 0, 0), None);
    assert_eq!(FixedVec3::new(0, -limit - 1, 0), None);
    assert_eq!(FixedVec3::new(0, 0, i64::MAX), None);
    assert!(FixedVec3 { x: limit, y: 0, z: 0 }.is_in_world());
    assert!(!FixedVec3 { x: 0, y: 0, z: limit + 1 }.is_in_world());
}

#[test]
fn clamped_points_are_held_to_the_world() {
    let limit: i64 = 1_000_000_000_000;
    assert_eq!(FixedVec3::clamped(1, -2, 3), FixedVec3 { x: 1, y: -2, z: 3 });
    assert_eq!(
        FixedVec3::clamped(i64::MAX, i64::MIN, limit + 1),
        FixedVec3 { x: limit, y: -limit, z: limit }
    );
}

#[test]
fn clamped_points_are_held_to_a_given_cube() {
    assert_eq!(FixedVec3::clamped_to(1, -2, 3, 5), FixedVec3 { x: 1, y: -2, z: 3 });
    assert_eq!(FixedVec3::clamped_to(6, -6, 5, 5), FixedVec3 { x: 5, y: -5, z: 5 });
    assert_eq!(FixedVec3::clamped_to(i64::MAX, i64::MIN, 0, 0), FixedVec3 { x: 0, y: 0, z: 0 });
    assert_eq!(
        FixedVec3::clamped_to(i64::MAX, i64::MIN, -1, i64::MAX),
        FixedVec3 { x: i64::MAX, y: -i64::MAX, z: -1 }
    );
}

#[test]
fn vectors_scale_to_unit_length() {
    let way = FixedVec3 { x: 3_000_000, y: 0, z: -4_000_000 };
    assert_eq!(way.scale_to_unit(5_000_000), FixedVec3 { x: 600_000, y: 0, z: -800_000 });
    let way = FixedVec3 { x: -1, y: 2, z: 2 };
    assert_eq!(way.scale_to_unit(3), FixedVec3 { x: -333_333, y: 666_666, z: 666_666 });
    let way = FixedVec3 { x: 0, y: 7, z: 0 };
    assert_eq!(way.scale_to_unit(7), FixedVec3 { x: 0, y: 1_000_000, z: 0 });
}

#[test]
fn directions_stretch_to_a_length() {
    let dir = FixedVec3 { x: 600_000, y: 0, z: -800_000 };
    assert_eq!(dir.stretch(500_000), FixedVec3 { x: 300_000, y: 0, z: -400_000 });
    assert_eq!(dir.stretch(0), FixedVec3 { x: 0, y: 0, z: 0 });
    assert_eq!(dir.stretch(1), FixedVec3 { x: 0, y: 0, z: 0 });
    assert_eq!(dir.stretch(2), FixedVec3 { x: 1, y: 0, z: -1 });
    let up = FixedVec3 { x: 0, y: 1_000_000, z: 0 };
    assert_eq!(up.stretch(i64::MAX as u64), FixedVec3 { x: 0, y: i64::MAX, z: 0 });
}
