use shield::binding::{set_last_error, ErrorState, NaabRustValueType};

#[test]
fn error_state_records_last_message() {
    let mut state = ErrorState::new();
    assert!(state.last.is_none());
    set_last_error(&mut state, "first failure".to_string());
    assert_eq!(state.last.as_deref(), Some("first failure"));
    set_last_error(&mut state, "second failure".to_string());
    assert_eq!(state.last.as_deref(), Some("second failure"));
}

#[test]
fn value_kinds_compare_by_variant() {
    assert_eq!(NaabRustValueType::Int, NaabRustValueType::Int);
    assert_ne!(NaabRustValueType::Int, NaabRustValueType::Void);
    assert!(matches!(NaabRustValueType::Str, NaabRustValueType::Str));
}
