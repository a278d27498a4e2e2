use superconfig::config_flags::FlagError;
use superconfig::errors::{
    FluentError, RegistryError, SuperConfigError, ERROR_HANDLE_NOT_FOUND, ERROR_IMMUTABLE_STARTUP_FLAG,
    ERROR_INVALID_HANDLE, ERROR_INVALID_RUNTIME_FLAG, ERROR_INVALID_STARTUP_FLAG, ERROR_INVALID_VERBOSITY,
    ERROR_REGISTRY_FULL, ERROR_SERIALIZATION, ERROR_WRONG_TYPE, timestamp_from,
};

#[test]
fn errors_test_error_display() {
    let error = RegistryError::HandleNotFound { handle_id: 123 };
    assert!(error.message().contains("123"));
    assert!(error.message().contains("not found"));

    let error = RegistryError::WrongType {
        handle_id: 456,
        expected: "String".to_string(),
        found: "i32".to_string(),
    };
    assert!(error.message().contains("456"));
    assert!(error.message().contains("String"));
    assert!(error.message().contains("i32"));
}

#[test]
fn test_error_from_flag_error() {
    let flag_error = FlagError::InvalidVerbosity { level: 99 };
    let registry_error: RegistryError = flag_error.into();

    match registry_error {
        RegistryError::FlagError(inner) => match inner {
            FlagError::InvalidVerbosity { level } => assert_eq!(level, 99),
            _ => panic!("Wrong flag error type"),
        },
        _ => panic!("Wrong registry error type"),
    }
}

#[test]
fn registry_error_messages_are_exact() {
    assert_eq!(
        RegistryError::HandleNotFound { handle_id: 7 }.message(),
        "Handle 7 not found in registry"
    );
    assert_eq!(
        RegistryError::WrongType { handle_id: 8, expected: "A".to_string(), found: "B".to_string() }.message(),
        "Handle 8 has wrong type: expected A, found B"
    );
    assert_eq!(RegistryError::InvalidHandle { handle_id: 9 }.message(), "Handle 9 has been invalidated");
    assert_eq!(RegistryError::RegistryFull.message(), "Registry is at maximum capacity");
    assert_eq!(
        RegistryError::SerializationError { message: "bad".to_string() }.message(),
        "Serialization error: bad"
    );
    assert_eq!(
        RegistryError::FlagError(FlagError::ImmutableStartupFlag).message(),
        "Flag operation failed: Cannot modify startup flags at runtime - they are immutable after registry creation"
    );
}

#[test]
fn super_config_error_constructors() {
    let e = SuperConfigError::invalid_runtime_flag(0x1F);
    assert_eq!(e.code, ERROR_INVALID_RUNTIME_FLAG);
    assert_eq!(e.message, "Invalid runtime flag value");
    assert_eq!(e.context, "flags: 0x1F");

    let e = SuperConfigError::invalid_startup_flag(10);
    assert_eq!(e.code, ERROR_INVALID_STARTUP_FLAG);
    assert_eq!(e.context, "flags: 0xA");

    let e = SuperConfigError::handle_not_found(42);
    assert_eq!(e.code, ERROR_HANDLE_NOT_FOUND);
    assert_eq!(e.message, "Handle not found in registry");
    assert_eq!(e.context, "handle_id: 42");

    let e = SuperConfigError::wrong_type(5, "String", "i32");
    assert_eq!(e.code, ERROR_WRONG_TYPE);
    assert_eq!(e.message, "Handle has wrong type");
    assert_eq!(e.context, "handle_id: 5, expected: String, found: i32");

    let e = SuperConfigError::new(77, "msg", "ctx");
    assert!(e.timestamp > 0);
    let shown = e.display();
    assert!(shown.starts_with('['));
    assert!(shown.ends_with("] Error 77: msg - ctx") || shown.contains("] Error 77: msg - ctx"));
    assert_eq!(shown, format!("[{}] Error 77: msg - ctx", e.timestamp));
}

#[test]
fn fluent_error_from_each_registry_error() {
    let f = FluentError::from_registry_error(RegistryError::HandleNotFound { handle_id: 3 }, "read");
    assert_eq!(f.operation, "read");
    assert_eq!(f.error.code, ERROR_HANDLE_NOT_FOUND);
    assert_eq!(f.error.context, "handle_id: 3");

    let f = FluentError::from_registry_error(
        RegistryError::WrongType { handle_id: 4, expected: "X".to_string(), found: "Y".to_string() },
        "read",
    );
    assert_eq!(f.error.code, ERROR_WRONG_TYPE);
    assert_eq!(f.error.context, "handle_id: 4, expected: X, found: Y");

    let f = FluentError::from_registry_error(RegistryError::InvalidHandle { handle_id: 6 }, "op");
    assert_eq!(f.error.code, ERROR_INVALID_HANDLE);
    assert_eq!(f.error.message, "Handle has been invalidated");
    assert_eq!(f.error.context, "handle_id: 6");

    let f = FluentError::from_registry_error(RegistryError::RegistryFull, "create");
    assert_eq!(f.error.code, ERROR_REGISTRY_FULL);
    assert_eq!(f.error.context, "");

    let f = FluentError::from_registry_error(RegistryError::SerializationError { message: "m".to_string() }, "json");
    assert_eq!(f.error.code, ERROR_SERIALIZATION);
    assert_eq!(f.error.message, "Serialization error");
    assert_eq!(f.error.context, "m");

    let f = FluentError::from_registry_error(RegistryError::FlagError(FlagError::InvalidVerbosity { level: 9 }), "set");
    assert_eq!(f.error.code, ERROR_INVALID_VERBOSITY);
    assert_eq!(f.error.context, "level: 9 (valid range: 0-3)");

    let f = FluentError::from_registry_error(RegistryError::FlagError(FlagError::ImmutableStartupFlag), "enable");
    assert_eq!(f.error.code, ERROR_IMMUTABLE_STARTUP_FLAG);
    assert_eq!(f.error.message, "Cannot modify startup flags at runtime");

    let f = FluentError::from_registry_error(RegistryError::FlagError(FlagError::InvalidStartupFlag { flag: 64 }), "x");
    assert_eq!(f.error.code, ERROR_INVALID_STARTUP_FLAG);
    assert_eq!(f.error.context, "flags: 0x40");

    let shown = f.display();
    assert!(shown.starts_with("Operation 'x' failed: ["));
}

#[test]
fn convert_flag_error_runtime() {
    let e = FluentError::convert_flag_error(&FlagError::InvalidRuntimeFlag { flag: 0xABC });
    assert_eq!(e.code, ERROR_INVALID_RUNTIME_FLAG);
    assert_eq!(e.context, "flags: 0xABC");
}

#[test]
fn errors_made_at_a_given_time() {
    let e = SuperConfigError::new_at(7, "m", "c", 1234);
    assert_eq!(e.timestamp, 1234);
    assert_eq!(e.display(), "[1234] Error 7: m - c");
    assert_eq!(timestamp_from(None), 0);
    assert_eq!(timestamp_from(Some(5)), 5);
    assert_eq!(timestamp_from(Some((1u128 << 64) + 9)), 9);
}
