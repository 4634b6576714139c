use vir_py_rs::value::{allocate, reveal_type, ValueKind, VirPyInt};

#[test]
fn test_value_creation_and_downcast() {
    let arena = bumpalo::Bump::new();
    let int_kind = ValueKind::Int(VirPyInt::new(42));
    let value_handle = allocate(&arena, int_kind);
    let extracted_int = value_handle.as_int().expect("Downcast to Int failed");
    assert_eq!(extracted_int.value, 42);
    println!("Successfully created and downcasted value: {:?}", value_handle);
}

#[test]
fn downcast_to_other_kinds_is_negative() {
    let arena = bumpalo::Bump::new();
    let v = allocate(&arena, ValueKind::Bool(true));
    assert!(v.as_int().is_none());
    assert!(v.as_str().is_none());
    assert_eq!(v.as_bool(), Some(true));
}

#[test]
fn clone_in_arena_copies_strings() {
    let arena = bumpalo::Bump::new();
    let v = allocate(&arena, ValueKind::Str("abc".to_string()));
    let c = v.clone_in_arena(&arena);
    assert_eq!(c.as_str().map(|s| s.as_str()), Some("abc"));
}

#[test]
fn type_names() {
    assert_eq!(reveal_type(&ValueKind::Int(VirPyInt::new(1))), "int");
    assert_eq!(reveal_type(&ValueKind::Str("x".to_string())), "str");
    assert_eq!(reveal_type(&ValueKind::NoneValue), "NoneType");
    assert_eq!(reveal_type(&ValueKind::Bool(false)), "bool");
}

#[test]
fn int_accessors() {
    let i = VirPyInt::new(-7);
    assert_eq!(i.get_value(), -7);
}
