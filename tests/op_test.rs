use vir_py_rs::error::SandboxExecutionError;
use vir_py_rs::op::{op_add, BinaryImpl, BinaryOperator, Registry, UaryOperator};
use vir_py_rs::value::{allocate, ValueKind, VirPyInt};

fn int_val(v: i64) -> ValueKind {
    ValueKind::Int(VirPyInt::new(v))
}

fn as_i64(v: &ValueKind) -> i64 {
    v.as_int().expect("an integer").get_value()
}

#[test]
fn test_op_add_auto_registration() {
    let arena = bumpalo::Bump::new();
    let registry = Registry::standard();

    // Test int + int
    let lhs_int = allocate(&arena, int_val(15));
    let rhs_int = allocate(&arena, int_val(27));
    let result_int_container = op_add(&registry, lhs_int, rhs_int, &arena).unwrap();
    let result_int = result_int_container.as_int().unwrap();
    assert_eq!(result_int.get_value(), 42);
    println!("Int + Int result: {:?}", result_int);

    // Test unregistered combination (int + str)
    let rhs_str = allocate(&arena, ValueKind::Str("a".to_string()));
    let result_unsupported = op_add(&registry, lhs_int, rhs_str, &arena);
    assert!(result_unsupported.is_none());
}

#[test]
fn add_int_and_string_is_unsupported_both_ways() {
    let reg = Registry::standard();
    let s = ValueKind::Str("x".to_string());
    assert!(reg.dispatch_binary(BinaryOperator::Add, &int_val(1), &s).is_none());
    assert!(reg.dispatch_binary(BinaryOperator::Add, &s, &int_val(1)).is_none());
}

#[test]
fn integer_division_by_zero_is_an_error_value() {
    let reg = Registry::standard();
    let r = reg.dispatch_binary(BinaryOperator::Divide, &int_val(7), &int_val(0)).unwrap();
    assert!(matches!(r, ValueKind::Error(SandboxExecutionError::DivideByZero)));
    let m = reg.dispatch_binary(BinaryOperator::Modulo, &int_val(7), &int_val(0)).unwrap();
    assert!(matches!(m, ValueKind::Error(SandboxExecutionError::DivideByZero)));
}

#[test]
fn integer_arithmetic_wraps_and_truncates() {
    let reg = Registry::standard();
    let r = reg.dispatch_binary(BinaryOperator::Add, &int_val(i64::MAX), &int_val(1)).unwrap();
    assert_eq!(as_i64(&r), i64::MIN);
    let r = reg.dispatch_binary(BinaryOperator::Divide, &int_val(-7), &int_val(2)).unwrap();
    assert_eq!(as_i64(&r), -3);
    let r = reg.dispatch_binary(BinaryOperator::Modulo, &int_val(-7), &int_val(2)).unwrap();
    assert_eq!(as_i64(&r), -1);
    let r = reg.dispatch_binary(BinaryOperator::Divide, &int_val(i64::MIN), &int_val(-1)).unwrap();
    assert_eq!(as_i64(&r), i64::MIN);
    let r = reg.dispatch_binary(BinaryOperator::Multiply, &int_val(6), &int_val(7)).unwrap();
    assert_eq!(as_i64(&r), 42);
    let r = reg.dispatch_binary(BinaryOperator::LeftShift, &int_val(1), &int_val(65)).unwrap();
    assert_eq!(as_i64(&r), 2);
    let r = reg.dispatch_binary(BinaryOperator::Xor, &int_val(6), &int_val(3)).unwrap();
    assert_eq!(as_i64(&r), 5);
}

#[test]
fn comparisons_and_strings() {
    let reg = Registry::standard();
    let r = reg.dispatch_binary(BinaryOperator::Lt, &int_val(1), &int_val(2)).unwrap();
    assert_eq!(r.as_bool(), Some(true));
    let a = ValueKind::Str("ab".to_string());
    let b = ValueKind::Str("cd".to_string());
    let r = reg.dispatch_binary(BinaryOperator::Add, &a, &b).unwrap();
    assert_eq!(r.as_str().map(|s| s.as_str()), Some("abcd"));
    let r = reg.dispatch_binary(BinaryOperator::Eq, &a, &a).unwrap();
    assert_eq!(r.as_bool(), Some(true));
    let r = reg.dispatch_binary(BinaryOperator::Eq, &ValueKind::NoneValue, &ValueKind::NoneValue).unwrap();
    assert_eq!(r.as_bool(), Some(true));
}

#[test]
fn unary_operators() {
    let reg = Registry::standard();
    let r = reg.dispatch_unary(UaryOperator::Negative, &int_val(5)).unwrap();
    assert_eq!(as_i64(&r), -5);
    let r = reg.dispatch_unary(UaryOperator::Not, &ValueKind::Bool(true)).unwrap();
    assert_eq!(r.as_bool(), Some(false));
    assert!(reg.dispatch_unary(UaryOperator::Negative, &ValueKind::Str("a".to_string())).is_none());
}

#[test]
fn earliest_registration_wins() {
    let mut reg = Registry::new();
    reg.register_binary(BinaryImpl::IntSub);
    reg.register_binary(BinaryImpl::IntMul);
    let r = reg.dispatch_binary(BinaryOperator::Subtract, &int_val(5), &int_val(3)).unwrap();
    assert_eq!(as_i64(&r), 2);
    assert!(reg.dispatch_binary(BinaryOperator::Add, &int_val(5), &int_val(3)).is_none());
    let empty = Registry::new();
    assert!(empty.dispatch_binary(BinaryOperator::Multiply, &int_val(5), &int_val(3)).is_none());
}
