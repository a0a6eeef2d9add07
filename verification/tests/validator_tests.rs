//! Behaviour of the validators and the aggregator on concrete runs.

use validate::Check;
use validate::ScatterValidator;
use validate::SeriesValidator;
use validate::Validator;
use validate::ValidatorWrapper;
use validate::Validate;
use validate::ValidationResult;
use validate::Value;

fn vals(units: &[i64]) -> Vec<Value> {
    units.iter().map(|&u| Value::from_int(u)).collect()
}

fn milli(raw: i64) -> Value {
    Value::from_milli(raw)
}

#[test]
fn test_series_no_thresholds_reports_metrics() {
    let v = SeriesValidator {
        expected: vals(&[1, 2, 3]),
        found: vals(&[5, 6, 6]),
        ..SeriesValidator::default()
    };
    match v.validate() {
        ValidationResult::Passed(frag) => {
            assert_eq!(
                frag,
                " * Mean Bias Error: 3.6666\n * Root Mean Squared Error: 3.6968\n"
            );
        }
        ValidationResult::Failed(_, err) => panic!("unexpected failure: {}", err),
    }
}

#[test]
fn test_series_threshold_fail_aggregates() {
    let v = SeriesValidator {
        expected: vals(&[1, 2, 3]),
        found: vals(&[5, 6, 6]),
        allowed_mean_bias_error: Some(Value::from_int(1)),
        ..SeriesValidator::default()
    };
    let mut validator = Validator::new("Check run".to_string());
    validator.push(Check::Series(v));
    let outcome = validator.validate();
    assert!(outcome.verdict().is_err());
    assert_eq!(outcome.verdict().unwrap_err(), "Some validations failed...");
    assert!(outcome.body.contains("3.6666"));
    assert!(outcome.body.contains("| **Failed!**"));
    assert_eq!(outcome.errors.len(), 1);
    assert!(outcome.errors[0].contains("above the allowed 1.0000"));
}

#[test]
fn test_aggregator_runs_every_check() {
    let failing = SeriesValidator {
        expected: vals(&[1, 2]),
        found: vals(&[1, 2, 3]),
        ..SeriesValidator::default()
    };
    let passing = SeriesValidator {
        expected: vals(&[1, 2]),
        found: vals(&[1, 2]),
        ..SeriesValidator::default()
    };
    let mut validator = Validator::new("Both run".to_string());
    validator.push(Check::Series(failing));
    validator.push(Check::Series(passing));
    let outcome = validator.validate();
    assert!(outcome.verdict().is_err());
    assert_eq!(outcome.errors.len(), 1);
    assert!(outcome
        .body
        .contains("The series to compare must have equal length"));
    assert!(outcome.body.contains("Root Mean Squared Error: 0.0000"));
}

#[test]
fn test_empty_series_reported() {
    let v = SeriesValidator::default();
    match v.validate() {
        ValidationResult::Failed(frag, err) => {
            assert!(frag.contains("the dataset is empty"));
            assert!(err.contains("the dataset is empty"));
        }
        ValidationResult::Passed(_) => panic!("empty datasets must fail"),
    }
}

#[test]
fn test_aggregator_idempotent() {
    let v = SeriesValidator {
        expected: vals(&[1, 2, 3]),
        found: vals(&[5, 6, 6]),
        allowed_root_mean_squared_error: Some(Value::from_int(2)),
        ..SeriesValidator::default()
    };
    let mut validator = Validator::new("Twice".to_string());
    validator.push(Check::Series(v));
    let first = validator.validate();
    let second = validator.validate();
    assert_eq!(first.body, second.body);
    assert_eq!(first.errors, second.errors);
    assert_eq!(first.verdict().is_err(), second.verdict().is_err());
}

#[test]
fn test_series_validator() {
    let expected = vals(&[1, 2, 3]);
    let found = vals(&[5, 6, 6]);
    let mut validator = Validator::new("Validate Time series".to_string());
    let v = SeriesValidator {
        x_label: Some("time step".to_string()),
        y_label: Some("Zone Temperature".to_string()),
        y_units: Some("C".to_string()),
        expected,
        found,
        ..SeriesValidator::default()
    };
    validator.push(Check::Series(v));
    validator.validate().verdict().unwrap();
}

#[test]
fn test_scatter_perfect() {
    let mut validator = Validator::new("Scatter test".to_string());
    let expected = vals(&[1, 2, 3, 4]);
    let found = expected.clone();

    let scatter = ScatterValidator {
        expected: expected.clone(),
        found: found.clone(),
        ..Default::default()
    };
    validator.push(Check::Scatter(scatter));

    let scatter = ScatterValidator {
        expected: expected.clone(),
        found: found.clone(),
        allowed_intersect_delta: Some(milli(100)),
        allowed_slope_delta: Some(milli(100)),
        allowed_r2: Some(milli(1000)),
        ..Default::default()
    };
    validator.push(Check::Scatter(scatter));

    validator.validate().verdict().unwrap()
}

#[test]
fn test_scatter_perfect_fail() {
    let mut validator = Validator::new("Scatter test".to_string());
    let expected = vals(&[1, 2, 3, 4]);
    let found = expected.clone();

    let scatter = ScatterValidator {
        expected,
        found,
        allowed_intersect_delta: Some(milli(100)),
        allowed_slope_delta: Some(milli(-100)),
        allowed_r2: Some(milli(1200)),
        ..Default::default()
    };
    validator.push(Check::Scatter(scatter));

    assert!(validator.validate().verdict().is_err());
}

#[test]
fn test_scatter_not_correlated_fail() {
    let mut validator = Validator::new("Scatter test".to_string());
    let expected = vals(&[1, 2, 3, 4]);
    let found = vec![
        Value::from_int(1),
        Value::from_int(6),
        Value::from_int(-1),
        Value::from_int(4),
    ];

    let scatter = ScatterValidator {
        expected,
        found,
        expected_intersect: Some(milli(3900)),
        expected_slope: Some(milli(13900)),
        allowed_intersect_delta: Some(milli(100)),
        allowed_slope_delta: Some(milli(100)),
        allowed_r2: Some(milli(820)),
        ..Default::default()
    };
    validator.push(Check::Scatter(scatter));

    assert!(validator.validate().verdict().is_err());
}

#[test]
fn test_scatter_fragment_reports_fit() {
    let x = vals(&[1, 2, 3, 4]);
    let y = vals(&[6, 2, 1, 0]);
    let scatter = ScatterValidator {
        expected: x,
        found: y,
        ..Default::default()
    };
    match scatter.validate() {
        ValidationResult::Passed(frag) => {
            assert!(frag.contains(" * Fit: 7.0000 + -1.9000x"));
            assert!(frag.contains("R2 = 0.8698"));
            assert!(frag.contains("#### Errors:\n None"));
        }
        ValidationResult::Failed(_, err) => panic!("unexpected failure: {}", err),
    }
}

#[test]
fn test_scatter_zero_variance_reported() {
    let scatter = ScatterValidator {
        expected: vals(&[5, 5, 5]),
        found: vals(&[1, 2, 3]),
        ..Default::default()
    };
    match scatter.validate() {
        ValidationResult::Failed(frag, err) => {
            assert!(frag.contains("zero variance"));
            assert!(err.contains("zero variance"));
        }
        ValidationResult::Passed(_) => panic!("a constant expected dataset must fail"),
    }
}

#[test]
fn test_wrapper() {
    let expected = vals(&[1, 2, 3]);
    let found = vals(&[5, 6, 6]);

    let v = SeriesValidator {
        x_label: Some("time step".to_string()),
        y_label: Some("Zone Temperature".to_string()),
        y_units: Some("C".to_string()),
        expected,
        found,
        ..SeriesValidator::default()
    };

    let wrapper = ValidatorWrapper {
        title: "Some Title".to_string(),
        description: "The Description".to_string(),
        val: Box::new(Check::Series(v)),
    };

    match wrapper.validate() {
        ValidationResult::Passed(txt) => {
            println!("{}", txt);
            assert!(txt.starts_with("## Some Title\n\nThe Description"));
            assert!(txt.contains("Mean Bias Error: 3.6666"));
        }
        ValidationResult::Failed(_, err) => {
            panic!("{}", err)
        }
    }
}

#[test]
fn test_wrapped_check_keeps_verdict() {
    let v = SeriesValidator {
        expected: vals(&[1, 2, 3]),
        found: vals(&[5, 6, 6]),
        allowed_mean_bias_error: Some(Value::from_int(1)),
        ..SeriesValidator::default()
    };
    let wrapper = ValidatorWrapper {
        title: "Wrapped".to_string(),
        description: "A failing check".to_string(),
        val: Box::new(Check::Series(v)),
    };
    let mut validator = Validator::new("Run".to_string());
    validator.push(Check::Wrapped(wrapper));
    let outcome = validator.validate();
    assert!(outcome.verdict().is_err());
    assert!(outcome.body.contains("## Wrapped"));
    assert_eq!(outcome.errors.len(), 1);
}
