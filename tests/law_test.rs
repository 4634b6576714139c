use vir_py_rs::error::SandboxExecutionError;
use vir_py_rs::op::Registry;
use vir_py_rs::value::{TypeTag, ValueKind, VirPyInt};
use vir_py_rs::{exec, ExecError};

fn sample(t: TypeTag, second: bool) -> ValueKind {
    match t {
        TypeTag::Int => ValueKind::Int(VirPyInt::new(if second { 3 } else { 8 })),
        TypeTag::Bool => ValueKind::Bool(second),
        TypeTag::Str => ValueKind::Str(if second { "b".to_string() } else { "a".to_string() }),
        TypeTag::NoneValue => ValueKind::NoneValue,
        TypeTag::Error => ValueKind::Error(SandboxExecutionError::Timeout),
    }
}

#[test]
fn every_standard_registration_gives_a_result() {
    let reg = Registry::standard();
    for imp in reg.binary.iter() {
        let t = imp.operand_type();
        let r = reg.dispatch_binary(imp.operator(), &sample(t, false), &sample(t, true));
        assert!(r.is_some(), "{:?}", imp);
    }
    for imp in reg.unary.iter() {
        let t = imp.operand_type();
        assert!(reg.dispatch_unary(imp.operator(), &sample(t, false)).is_some());
    }
}

#[test]
fn fuel_exhaustion_is_monotonic() {
    let src = "a = 1\nwhile a < 4 { a += 1 }";
    let mut first_ok: Option<i64> = None;
    for ttl in 0..60 {
        match exec(src, ttl) {
            Ok(_) => {
                if first_ok.is_none() {
                    first_ok = Some(ttl);
                }
            },
            Err(e) => {
                assert_eq!(e, ExecError::Execution(SandboxExecutionError::Timeout));
                assert!(first_ok.is_none(), "timed out at {} after succeeding at {:?}", ttl, first_ok);
            },
        }
    }
    let n = first_ok.expect("succeeds with enough fuel");
    let small = exec(src, n).unwrap();
    let large = exec(src, 1000).unwrap();
    assert_eq!(small.len(), large.len());
    assert_eq!(small[0].1.as_int().map(|i| i.get_value()), Some(4));
    assert_eq!(large[0].1.as_int().map(|i| i.get_value()), Some(4));
}

#[test]
fn negative_budget_times_out() {
    assert_eq!(exec("x = 1", -3).unwrap_err(), ExecError::Execution(SandboxExecutionError::Timeout));
}
