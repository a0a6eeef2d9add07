//! Behaviour of the statistics module on concrete datasets.

use validate::stats::linear_coefficients;
use validate::stats::mean;
use validate::stats::mean_bias_error;
use validate::stats::mean_squared_error;
use validate::stats::min_max;
use validate::stats::root_mean_squared_error;
use validate::stats::StatError;
use validate::Ratio;
use validate::Value;

fn vals(units: &[i64]) -> Vec<Value> {
    units.iter().map(|&u| Value::from_int(u)).collect()
}

fn one() -> Ratio {
    Ratio::new(1, 1)
}

fn zero() -> Ratio {
    Ratio::new(0, 1)
}

#[test]
fn test_min_max() {
    let x: Vec<i32> = vec![1, 2, 3, 4, 5];
    let (mn, mx) = min_max(&x).unwrap();
    assert_eq!((mn, mx), (1, 5));
}

#[test]
fn test_min_max_unsorted() {
    let x: Vec<i64> = vec![7, -3, 12, 0];
    let (mn, mx) = min_max(&x).unwrap();
    assert_eq!((mn, mx), (-3, 12));
}

#[test]
fn test_min_max_empty() {
    let x: Vec<i32> = vec![];
    assert!(matches!(min_max(&x), Err(StatError::EmptyDataset)));
}

#[test]
fn test_min_max_rejects_nan() {
    let x = vec![Value::from_int(1), Value::nan(), Value::from_int(3)];
    assert!(matches!(min_max(&x), Err(StatError::InvalidValue)));
}

#[test]
fn test_mean_zeroes() {
    let x = vals(&[0, 0, 0, 0, 0, 0, 0, 0, 0, 0]);
    let m = mean(&x).unwrap();
    assert!(m.same_value(&zero()));
}

#[test]
fn test_mean_balanced() {
    let x = vals(&[-1, -1, 1, 1]);
    let m = mean(&x).unwrap();
    assert!(m.same_value(&zero()));
}

#[test]
fn test_mean_exact_fraction() {
    let x = vals(&[1, 2]);
    let m = mean(&x).unwrap();
    assert!(m.same_value(&Ratio::new(3, 2)));
}

#[test]
fn test_mean_errors() {
    let empty: Vec<Value> = vec![];
    assert!(matches!(mean(&empty), Err(StatError::EmptyDataset)));
    let with_nan = vec![Value::from_int(1), Value::nan()];
    assert!(matches!(mean(&with_nan), Err(StatError::InvalidValue)));
    let huge = vec![Value::from_int(0); 100_001];
    assert!(matches!(mean(&huge), Err(StatError::TooManySamples)));
}

#[test]
fn test_self_comparison_is_exact() {
    let x = vec![
        Value::from_milli(1500),
        Value::from_milli(-2250),
        Value::from_milli(7000),
        Value::from_milli(3),
    ];
    let mbe = mean_bias_error(&x, &x).unwrap();
    assert!(mbe.same_value(&zero()));
    let rmse = root_mean_squared_error(&x, &x).unwrap();
    assert!(rmse.same_value(&zero()));
}

#[test]
fn test_rmse_constant_offset() {
    let x = vals(&[0, 0, 0, 0, 0, 0, 0, 0, 0, 0]);
    let y = vals(&[1, 1, 1, 1, 1, 1, 1, 1, 1, 1]);
    let rmse = root_mean_squared_error(&x, &y).unwrap();
    assert!(rmse.same_value(&one()));
    let mbe = mean_bias_error(&x, &y).unwrap();
    assert!(mbe.same_value(&one()));
}

#[test]
fn test_rmse_cancelling_bias() {
    let x = vals(&[0, 0, 0, 0]);
    let y = vals(&[-1, -1, 1, 1]);
    let rmse = root_mean_squared_error(&x, &y).unwrap();
    assert!(rmse.same_value(&one()));
    let mbe = mean_bias_error(&x, &y).unwrap();
    assert!(mbe.same_value(&zero()));
}

#[test]
fn test_mean_squared_error_exact() {
    let x = vals(&[0, 0, 0, 0]);
    let y = vals(&[-1, -1, 1, 1]);
    let mse = mean_squared_error(&x, &y).unwrap();
    assert!(mse.same_value(&one()));
}

#[test]
fn test_pairwise_length_mismatch() {
    let x = vals(&[1, 2, 3]);
    let y = vals(&[1, 2]);
    assert!(matches!(
        mean_bias_error(&x, &y),
        Err(StatError::LengthMismatch)
    ));
    assert!(matches!(
        root_mean_squared_error(&x, &y),
        Err(StatError::LengthMismatch)
    ));
    assert!(matches!(
        mean_squared_error(&x, &y),
        Err(StatError::LengthMismatch)
    ));
    assert!(matches!(
        linear_coefficients(&x, &y),
        Err(StatError::LengthMismatch)
    ));
}

#[test]
fn test_pairwise_empty() {
    let empty: Vec<Value> = vec![];
    assert!(matches!(
        mean_bias_error(&empty, &empty),
        Err(StatError::EmptyDataset)
    ));
    assert!(matches!(
        root_mean_squared_error(&empty, &empty),
        Err(StatError::EmptyDataset)
    ));
    assert!(matches!(
        linear_coefficients(&empty, &empty),
        Err(StatError::EmptyDataset)
    ));
}

#[test]
fn test_linear_perfect_fit() {
    let x = vals(&[1, 2, 3, 4]);
    let (intercept, slope, r2) = linear_coefficients(&x, &x).unwrap();
    assert!(intercept.same_value(&zero()));
    assert!(slope.same_value(&one()));
    assert!(r2.equals_frac(1, 1));
    assert_eq!(r2.per_ten_thousand(), 10000);
}

#[test]
fn test_linear_example() {
    let x = vals(&[1, 2, 3, 4]);
    let y = vals(&[6, 2, 1, 0]);
    let (intercept, slope, r2) = linear_coefficients(&x, &y).unwrap();
    assert!(intercept.same_value(&Ratio::new(7, 1)));
    assert!(slope.same_value(&Ratio::new(-19, 10)));
    assert!(r2.equals_frac(1444, 1660));
    assert_eq!(r2.per_ten_thousand(), 8698);
}

#[test]
fn test_linear_zero_variance() {
    let x = vals(&[5, 5, 5]);
    let y = vals(&[1, 2, 3]);
    assert!(matches!(
        linear_coefficients(&x, &y),
        Err(StatError::ZeroVariance)
    ));
}

#[test]
fn test_linear_rejects_nan() {
    let x = vec![Value::from_int(1), Value::from_int(2)];
    let y = vec![Value::from_int(1), Value::nan()];
    assert!(matches!(
        linear_coefficients(&x, &y),
        Err(StatError::InvalidValue)
    ));
}

#[test]
fn test_ratio_same_value() {
    assert!(Ratio::new(1, 2).same_value(&Ratio::new(2, 4)));
    assert!(Ratio::new(-3, 2).same_value(&Ratio::new(-6, 4)));
    assert!(!Ratio::new(1, 2).same_value(&Ratio::new(1, 3)));
    assert!(!Ratio::new(1, 2).same_value(&Ratio::new(-1, 2)));
}

#[test]
fn test_stat_error_messages() {
    assert_eq!(StatError::EmptyDataset.message(), "the dataset is empty");
    assert_eq!(
        StatError::LengthMismatch.message(),
        "the datasets have different lengths"
    );
    assert_eq!(
        StatError::ZeroVariance.message(),
        "the independent dataset has zero variance"
    );
}
