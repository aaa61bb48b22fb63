use formicarium::maths::{
    calculate_attraction_strength, isqrt64, normalize_vector, target_distance_sq, SCALE,
};

#[test]
fn test_target_distance_sq_positive() {
    // (0,0) to (3,4) units: 25 square units
    assert_eq!(target_distance_sq(0, 0, 3_000, 4_000), 25_000_000);
}

#[test]
fn test_target_distance_sq_zero() {
    assert_eq!(target_distance_sq(0, 0, 0, 0), 0);
}

#[test]
fn test_calculate_attraction_strength_with_distance() {
    // 16 square units away, strength 50: 50 / (4 + 1) = 10
    let result = calculate_attraction_strength(16_000_000, 50_000);
    assert_eq!(result, 10_000);
}

#[test]
fn test_calculate_attraction_strength_zero_distance() {
    // strength 100 at distance zero: 100 / 1 = 100
    let result = calculate_attraction_strength(0, 100_000);
    assert_eq!(result, 100_000);
}

#[test]
fn test_normalize_vector_valid() {
    // (3,4) normalizes to (0.6, 0.8)
    let result = normalize_vector(3_000, 4_000);
    assert!(result.is_some());
    let (dx, dy) = result.unwrap();
    assert_eq!(dx, 600);
    assert_eq!(dy, 800);
}

#[test]
fn test_normalize_vector_zero() {
    let result = normalize_vector(0, 0);
    assert!(result.is_none());
}

#[test]
fn test_normalize_vector_very_small() {
    // a length below one sub-unit is the zero vector in fixed point
    let result = normalize_vector(0, 0);
    assert!(result.is_none());
}

#[test]
fn test_isqrt_exact_squares_and_between() {
    assert_eq!(isqrt64(0), 0);
    assert_eq!(isqrt64(1), 1);
    assert_eq!(isqrt64(2), 1);
    assert_eq!(isqrt64(144), 12);
    assert_eq!(isqrt64(200_000_000), 14_142);
    assert_eq!(isqrt64(u64::MAX), 4_294_967_295);
}

#[test]
fn test_normalize_vector_negative_components() {
    let (dx, dy) = normalize_vector(-3_000, 4_000).unwrap();
    assert_eq!(dx, -600);
    assert_eq!(dy, 800);
    let (dx, dy) = normalize_vector(0, -5_000).unwrap();
    assert_eq!(dx, 0);
    assert_eq!(dy, -SCALE);
}
