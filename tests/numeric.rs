use script_math::{mean, slope, sum, vector_add, vector_subtract};

#[test]
fn sum_of_three() {
    assert_eq!(sum(&vec![1.0f64, 2.0, 3.0]), 6.0);
}

#[test]
fn sum_of_empty_is_zero() {
    let v: Vec<f64> = vec![];
    assert_eq!(sum(&v), 0.0);
}

#[test]
fn sum_accumulates_from_the_left() {
    let v = vec![0.1f64, 0.2, 0.3, 1e16, -1e16];
    let mut expected = v[0];
    for x in &v[1..] {
        expected = expected + *x;
    }
    assert_eq!(sum(&v), expected);
}

#[test]
fn sum_of_integers_is_exact() {
    assert_eq!(sum(&vec![5u64, 7, 11]), 23);
}

#[test]
fn mean_of_two() {
    assert_eq!(mean(&vec![2.0f64, 4.0]), 3.0);
}

#[test]
fn mean_of_empty_is_zero() {
    let v: Vec<f64> = vec![];
    assert_eq!(mean(&v), 0.0);
}

#[test]
fn mean_is_sum_over_length() {
    let v = vec![1.5f64, -2.25, 8.0, 3.125, 0.5];
    assert_eq!(mean(&v), sum(&v) / 5.0);
}

#[test]
fn mean_of_integers_truncates() {
    assert_eq!(mean(&vec![1i64, 2, 4]), 2);
}

#[test]
fn slope_of_rising_steps() {
    assert_eq!(slope(&vec![1.0f64, 2.0, 3.0, 4.0]), 1.0);
}

#[test]
fn slope_of_empty_is_zero() {
    let v: Vec<f64> = vec![];
    assert_eq!(slope(&v), 0.0);
}

#[test]
fn slope_of_single_point_is_zero() {
    assert_eq!(slope(&vec![42.0f64]), 0.0);
    assert_eq!(slope(&vec![-7.5f64]), 0.0);
}

#[test]
fn slope_of_perfect_line() {
    let m = 2.5f64;
    let k = -1.0f64;
    let v: Vec<f64> = (0..7).map(|i| m * i as f64 + k).collect();
    assert!((slope(&v) - m).abs() < 1e-12);
}

#[test]
fn slope_of_falling_line() {
    let v: Vec<f64> = (0..50).map(|i| 3.0 - 0.75 * i as f64).collect();
    assert!((slope(&v) + 0.75).abs() < 1e-12);
}

#[test]
fn slope_of_two_points() {
    assert_eq!(slope(&vec![3.0f64, 8.0]), 5.0);
}

#[test]
fn slope_of_flat_series_is_zero() {
    assert_eq!(slope(&vec![4.0f64, 4.0, 4.0]), 0.0);
}

#[test]
fn slope_of_noisy_series() {
    // points (0,1) (1,3) (2,2) (3,6): n=4, Σx=6, Σy=12, Σxy=25, Σxx=14
    // slope = (100 - 72) / (56 - 36) = 1.4
    assert!((slope(&vec![1.0f64, 3.0, 2.0, 6.0]) - 1.4).abs() < 1e-12);
}

#[test]
fn vector_add_truncates_to_shorter() {
    assert_eq!(vector_add(&vec![1.0f64, 2.0, 3.0], &vec![10.0, 20.0]), vec![11.0, 22.0]);
}

#[test]
fn vector_subtract_truncates_to_shorter() {
    assert_eq!(vector_subtract(&vec![5.0f64, 5.0], &vec![1.0, 2.0, 3.0]), vec![4.0, 3.0]);
}

#[test]
fn vector_ops_on_equal_lengths() {
    let a = vec![1.5f64, -2.0, 0.25];
    let b = vec![0.5f64, 4.0, 0.75];
    let s = vector_add(&a, &b);
    let d = vector_subtract(&a, &b);
    assert_eq!(s.len(), 3);
    assert_eq!(d.len(), 3);
    for i in 0..3 {
        assert_eq!(s[i], a[i] + b[i]);
        assert_eq!(d[i], a[i] - b[i]);
    }
}

#[test]
fn vector_ops_with_empty_input() {
    let e: Vec<f64> = vec![];
    assert!(vector_add(&e, &vec![1.0f64, 2.0]).is_empty());
    assert!(vector_subtract(&vec![1.0f64], &e).is_empty());
}

#[test]
fn vector_ops_on_integers() {
    assert_eq!(vector_add(&vec![1i64, -2, 3, 9], &vec![4i64, 5, 6]), vec![5, 3, 9]);
    assert_eq!(vector_subtract(&vec![1i64, -2], &vec![4i64, 5, 6]), vec![-3, -7]);
}

#[test]
fn slope_of_integer_line_is_exact() {
    assert_eq!(slope(&vec![1u128, 3, 5, 7]), 2);
    assert_eq!(slope(&vec![10u64, 10, 10, 10, 10]), 0);
}

#[test]
fn slope_of_short_integer_series_is_zero() {
    let e: Vec<u64> = vec![];
    assert_eq!(slope(&e), 0);
    assert_eq!(slope(&vec![9u64]), 0);
}
