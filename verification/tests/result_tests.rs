//! Behaviour of the outcome type, the closeness checks and the numeric
//! contract.

use validate::close_enough;
use validate::far_apart;
use validate::numberish::Nanish;
use validate::numberish::Numberish;
use validate::numberish::OneZero;
use validate::ValidationResult;
use validate::Value;

#[test]
fn test_assert_close_correct() {
    assert!(close_enough(
        &Value::from_int(1),
        &Value::from_int(2),
        &Value::from_int(2)
    ));
    assert!(far_apart(
        &Value::from_int(1),
        &Value::from_int(21),
        &Value::from_int(1)
    ));
}

#[test]
fn test_close_enough_boundary() {
    let a = Value::from_milli(1000);
    let b = Value::from_milli(1500);
    let tol = Value::from_milli(500);
    assert!(close_enough(&a, &b, &tol));
    assert!(far_apart(&a, &b, &tol));
    let tight = Value::from_milli(499);
    assert!(!close_enough(&a, &b, &tight));
}

#[test]
fn test_is_err_is_ok() {
    assert!(ValidationResult::Failed("a".to_string(), "b".to_string()).is_err());
    assert!(!ValidationResult::Passed("a".to_string()).is_err());
    assert!(!ValidationResult::Failed("a".to_string(), "b".to_string()).is_ok());
    assert!(ValidationResult::Passed("a".to_string()).is_ok());
}

#[test]
fn test_unwrap_passes() {
    ValidationResult::Passed("all good".to_string()).unwrap();
}

#[test]
fn test_numberish_identities() {
    assert_eq!(<i32 as OneZero>::zero(), 0);
    assert_eq!(<i32 as OneZero>::one(), 1);
    assert_eq!(<u64 as OneZero>::zero(), 0);
    assert_eq!(<u64 as OneZero>::one(), 1);
    assert!(!5i32.is_it_nan());
    assert!(!7u8.is_it_nan());
    assert!(Value::nan().is_it_nan());
    assert!(!Value::from_int(3).is_it_nan());
}

#[test]
fn test_numberish_order() {
    assert!(3i32.lt_num(&4));
    assert!(!4i32.lt_num(&4));
    assert!(Value::from_milli(-1).lt_num(&Value::from_milli(1)));
}

#[test]
fn test_value_accessors() {
    let v = Value::from_milli(123_456);
    assert_eq!(v.raw(), 123_456);
    assert!(!v.is_nan());
    let w = Value::from_int(-7);
    assert_eq!(w.raw(), -7000);
    assert_eq!(Value::nan().raw(), 0);
}
