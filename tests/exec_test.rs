use vir_py_rs::error::SandboxExecutionError;
use vir_py_rs::tokenizer::ParseError;
use vir_py_rs::value::ValueKind;
use vir_py_rs::{exec, ExecError};

fn int_binding(b: &[(String, ValueKind)], name: &str) -> Option<i64> {
    b.iter().find(|(n, _)| n == name).and_then(|(_, v)| v.as_int().map(|i| i.get_value()))
}

#[test]
fn scenario_assignment_of_sum() {
    let b = exec("x = 1 + 2", 100).unwrap();
    assert_eq!(b.len(), 1);
    assert_eq!(b[0].0, "x");
    assert_eq!(int_binding(&b, "x"), Some(3));
}

#[test]
fn scenario_divide_by_zero() {
    let r = exec("y = 1 / 0", 100);
    assert_eq!(r.unwrap_err(), ExecError::Execution(SandboxExecutionError::DivideByZero));
}

#[test]
fn scenario_unknown_variable() {
    let r = exec("z = q + 1", 100);
    assert_eq!(r.unwrap_err(), ExecError::Execution(SandboxExecutionError::ReferenceNotExist("q".to_string())));
}

#[test]
fn scenario_unbounded_loop_times_out() {
    let r = exec("x = 0\nwhile true { x = x + 1 }", 5);
    assert_eq!(r.unwrap_err(), ExecError::Execution(SandboxExecutionError::Timeout));
}

#[test]
fn zero_budget_times_out_at_first_node() {
    assert_eq!(exec("x = 1", 0).unwrap_err(), ExecError::Execution(SandboxExecutionError::Timeout));
    assert_eq!(exec("", 0).unwrap().len(), 0);
}

#[test]
fn budget_counts_every_node() {
    // one statement and three expression nodes
    assert!(exec("x = 1 + 2", 4).is_ok());
    assert_eq!(exec("x = 1 + 2", 3).unwrap_err(), ExecError::Execution(SandboxExecutionError::Timeout));
}

#[test]
fn same_source_same_result() {
    let a = exec("a = 2 * 3\nb = a - 1", 50).unwrap();
    let b = exec("a = 2 * 3\nb = a - 1", 50).unwrap();
    assert_eq!(a.len(), b.len());
    assert_eq!(int_binding(&a, "b"), int_binding(&b, "b"));
    assert_eq!(int_binding(&a, "b"), Some(5));
}

#[test]
fn precedence_and_unary() {
    let b = exec("a = 1 + 2 * 3\nb = -2 + 5\nc = (1 + 2) * 3\nd = 10 - 4 - 3", 200).unwrap();
    assert_eq!(int_binding(&b, "a"), Some(7));
    assert_eq!(int_binding(&b, "b"), Some(3));
    assert_eq!(int_binding(&b, "c"), Some(9));
    assert_eq!(int_binding(&b, "d"), Some(3));
}

#[test]
fn loops_and_conditionals() {
    let src = "i = 0\ns = 0\nwhile i < 5 { i += 1; if i == 3 { continue }; s = s + i }\nif s > 10 { big = true } else { big = false }";
    let b = exec(src, 1000).unwrap();
    assert_eq!(int_binding(&b, "i"), Some(5));
    assert_eq!(int_binding(&b, "s"), Some(12));
    // `big` is bound inside the branch's own scope
    assert_eq!(b.len(), 2);
}

#[test]
fn break_leaves_the_loop() {
    let b = exec("n = 0\nwhile true { n += 1\n if n >= 4 { break } }", 1000).unwrap();
    assert_eq!(int_binding(&b, "n"), Some(4));
}

#[test]
fn unsupported_operator_fails() {
    let r = exec("x = 1 + \"a\"", 100);
    assert_eq!(r.unwrap_err(), ExecError::Execution(SandboxExecutionError::UnsupportedOperator));
}

#[test]
fn parse_errors() {
    assert_eq!(exec("x = 1.5", 100).unwrap_err(), ExecError::Parse(ParseError::UnsupportedLiteral(4)));
    assert_eq!(exec("x = $", 100).unwrap_err(), ExecError::Parse(ParseError::UnexpectedChar(4)));
    assert_eq!(exec("x = ", 100).unwrap_err(), ExecError::Parse(ParseError::UnexpectedEnd));
    assert_eq!(exec("break", 100).unwrap_err(), ExecError::Parse(ParseError::LoopControlOutsideLoop(0)));
    assert_eq!(exec("x = \"abc", 100).unwrap_err(), ExecError::Parse(ParseError::UnterminatedString(4)));
    assert_eq!(
        exec("x = 99999999999999999999", 100).unwrap_err(),
        ExecError::Parse(ParseError::IntegerTooLarge(4))
    );
    assert_eq!(exec("x = 1 2", 100).unwrap_err(), ExecError::Parse(ParseError::UnexpectedToken(3)));
}

#[test]
fn strings_and_keywords() {
    let b = exec("s = \"ab\" + \"c\"\nt = None\nu = !false", 100).unwrap();
    assert_eq!(b[0].1.as_str().map(|s| s.as_str()), Some("abc"));
    assert!(matches!(b[1].1, ValueKind::NoneValue));
    assert_eq!(b[2].1.as_bool(), Some(true));
}
