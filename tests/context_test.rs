use vir_py_rs::error::SandboxExecutionError;
use vir_py_rs::exec_ctx::{ExecutionContext, Export, Mapping};
use vir_py_rs::value::{allocate, ValueKind, VirPyInt};

fn int_of(v: &ValueKind) -> i64 {
    v.as_int().expect("an integer").get_value()
}

#[test]
fn inner_binding_shadows_and_outer_is_restored() {
    let arena = bumpalo::Bump::new();
    let mut ctx = ExecutionContext::new(&arena, 10, vec![Mapping::new()]);
    ctx.bind("x".to_string(), allocate(&arena, ValueKind::Int(VirPyInt::new(1))));
    ctx.push_scope();
    ctx.bind("x".to_string(), allocate(&arena, ValueKind::Int(VirPyInt::new(2))));
    assert_eq!(int_of(ctx.get(&"x".to_string()).unwrap()), 2);
    ctx.pop_scope();
    assert_eq!(int_of(ctx.get(&"x".to_string()).unwrap()), 1);
}

#[test]
fn inner_only_binding_disappears_with_its_scope() {
    let arena = bumpalo::Bump::new();
    let mut ctx = ExecutionContext::new(&arena, 10, vec![Mapping::new()]);
    ctx.push_scope();
    ctx.bind("y".to_string(), allocate(&arena, ValueKind::Bool(true)));
    assert!(ctx.get(&"y".to_string()).is_ok());
    ctx.pop_scope();
    assert_eq!(ctx.get(&"y".to_string()).unwrap_err(), SandboxExecutionError::ReferenceNotExist("y".to_string()));
}

#[test]
fn assign_rewrites_the_outer_binding() {
    let arena = bumpalo::Bump::new();
    let mut ctx = ExecutionContext::new(&arena, 10, vec![Mapping::new()]);
    ctx.bind("n".to_string(), allocate(&arena, ValueKind::Int(VirPyInt::new(1))));
    ctx.push_scope();
    ctx.assign("n".to_string(), allocate(&arena, ValueKind::Int(VirPyInt::new(5))));
    ctx.pop_scope();
    let out = ctx.export();
    assert_eq!(out.len(), 1);
    assert_eq!(int_of(&out[0].1), 5);
}

#[test]
fn rebinding_keeps_one_entry() {
    let arena = bumpalo::Bump::new();
    let mut ctx = ExecutionContext::new(&arena, 10, vec![Mapping::new()]);
    ctx.bind("a".to_string(), allocate(&arena, ValueKind::NoneValue));
    ctx.bind("b".to_string(), allocate(&arena, ValueKind::NoneValue));
    ctx.bind("a".to_string(), allocate(&arena, ValueKind::Int(VirPyInt::new(3))));
    let out = ctx.to_bindings();
    assert_eq!(out.len(), 2);
    assert_eq!(out[0].0, "a");
    assert_eq!(int_of(&out[0].1), 3);
    assert_eq!(out[1].0, "b");
}

#[test]
fn consume_is_all_or_nothing() {
    let arena = bumpalo::Bump::new();
    let mut ctx = ExecutionContext::new(&arena, 3, vec![Mapping::new()]);
    assert_eq!(ctx.consume(5).unwrap_err(), SandboxExecutionError::Timeout);
    assert_eq!(ctx.ttl, 3);
    assert!(ctx.consume(3).is_ok());
    assert_eq!(ctx.ttl, 0);
    assert_eq!(ctx.consume_one().unwrap_err(), SandboxExecutionError::Timeout);
    assert_eq!(ctx.ttl, 0);
}
