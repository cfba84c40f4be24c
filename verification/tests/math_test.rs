use media_gateway::math::{
    cosine_similarity, dot_product, isqrt, norm, normalize_vector, within_bounds, MAX_COMPONENT,
    UNIT,
};

/// A component as the library carries it: in millionths.
fn fixed(values: &[f64]) -> Vec<i64> {
    values.iter().map(|v| (v * 1_000_000.0).round() as i64).collect()
}

#[test]
fn normalize_three_four() {
    assert_eq!(normalize_vector(&fixed(&[3.0, 4.0])), fixed(&[0.6, 0.8]));
    assert_eq!(normalize_vector(&fixed(&[3.0, 4.0])), vec![600_000, 800_000]);
    assert_eq!(normalize_vector(&fixed(&[-3.0, 4.0])), vec![-600_000, 800_000]);
}

#[test]
fn normalizing_the_zero_vector_changes_nothing() {
    assert_eq!(normalize_vector(&vec![0, 0, 0]), vec![0, 0, 0]);
    assert_eq!(normalize_vector(&vec![]), Vec::<i64>::new());
}

#[test]
fn normalize_rounds_toward_zero() {
    // The length of (1, 1) is 1.414213 after rounding down, and
    // 1 / 1.414213 = 0.7071070...
    assert_eq!(norm(&fixed(&[1.0, 1.0])), 1_414_213);
    assert_eq!(normalize_vector(&fixed(&[1.0, 1.0])), vec![707_107, 707_107]);
    assert_eq!(normalize_vector(&fixed(&[-1.0, 1.0])), vec![-707_107, 707_107]);
    // 2 / 3 = 0.666666..., rounded toward zero on both sides of zero.
    assert_eq!(normalize_vector(&vec![2, 2, 1]), vec![666_666, 666_666, 333_333]);
    assert_eq!(normalize_vector(&vec![-2, 2, -1]), vec![-666_666, 666_666, -333_333]);
    assert_eq!(normalize_vector(&vec![1]), vec![UNIT]);
    assert_eq!(normalize_vector(&vec![MAX_COMPONENT, 0]), vec![UNIT, 0]);
}

#[test]
fn cosine_of_equal_and_orthogonal_vectors() {
    assert_eq!(cosine_similarity(&fixed(&[1.0, 0.0]), &fixed(&[1.0, 0.0])), UNIT);
    assert_eq!(cosine_similarity(&fixed(&[1.0, 0.0]), &fixed(&[0.0, 1.0])), 0);
    assert_eq!(cosine_similarity(&fixed(&[1.0, 0.0, 0.0]), &fixed(&[1.0, 0.0, 0.0])), UNIT);
    assert_eq!(cosine_similarity(&fixed(&[1.0, 0.0]), &fixed(&[-1.0, 0.0])), -UNIT);
}

#[test]
fn cosine_of_mismatched_or_zero_vectors_is_zero() {
    assert_eq!(cosine_similarity(&fixed(&[1.0, 0.0]), &fixed(&[1.0])), 0);
    assert_eq!(cosine_similarity(&fixed(&[0.0, 0.0]), &fixed(&[1.0, 0.0])), 0);
    assert_eq!(cosine_similarity(&fixed(&[1.0, 0.0]), &fixed(&[0.0, 0.0])), 0);
    assert_eq!(cosine_similarity(&vec![], &vec![]), 0);
}

#[test]
fn cosine_stays_within_one() {
    // Rounded-down lengths would give a quotient above 1.
    assert_eq!(cosine_similarity(&vec![1, 1], &vec![1, 1]), UNIT);
    assert_eq!(cosine_similarity(&vec![1, 1], &vec![-1, -1]), -UNIT);
    // 45 degrees: 1 / sqrt(2), with the length rounded down.
    assert_eq!(cosine_similarity(&fixed(&[1.0, 0.0]), &fixed(&[1.0, 1.0])), 707_107);
}

#[test]
fn dot_product_gives_magnitude_and_sign() {
    assert_eq!(dot_product(&vec![1, 2, 3], &vec![4, 5, 6]), (32, false));
    assert_eq!(dot_product(&vec![1, 2, 3], &vec![-4, -5, -6]), (32, true));
    assert_eq!(dot_product(&vec![1, -1], &vec![1, 1]), (0, false));
    assert_eq!(dot_product(&vec![], &vec![]), (0, false));
}

#[test]
fn isqrt_rounds_down() {
    assert_eq!(isqrt(0), 0);
    assert_eq!(isqrt(1), 1);
    assert_eq!(isqrt(3), 1);
    assert_eq!(isqrt(4), 2);
    assert_eq!(isqrt(24), 4);
    assert_eq!(isqrt(25), 5);
    assert_eq!(isqrt(25_000_000_000_000), 5_000_000);
    assert_eq!(isqrt((1u128 << 100) - 1), (1u64 << 50) - 1);
}

#[test]
fn bounds_are_checked() {
    assert!(within_bounds(&vec![MAX_COMPONENT, -MAX_COMPONENT, 0]));
    assert!(!within_bounds(&vec![MAX_COMPONENT + 1]));
    assert!(!within_bounds(&vec![-MAX_COMPONENT - 1]));
    assert!(within_bounds(&vec![0; 65_536]));
    assert!(!within_bounds(&vec![0; 65_537]));
}
