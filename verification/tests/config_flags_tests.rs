use superconfig::config_flags::{runtime, startup, verbosity, FlagError, VerbosityLevel, is_valid_runtime_flag};

#[test]
fn test_startup_flag_constants() {
    assert_eq!(startup::SIMD, 1);
    assert_eq!(startup::THREAD_POOL, 2);
    assert_eq!(startup::DETAILED_STATS, 4);

    let combined = startup::SIMD | startup::THREAD_POOL;
    assert_eq!(combined, 3);
}

#[test]
fn test_runtime_flag_constants() {
    assert_eq!(runtime::ARRAY_MERGE, 1);
    assert_eq!(runtime::PARALLEL, 2);
    assert_eq!(runtime::STRICT_MODE, 4);
    assert_eq!(runtime::ENV_EXPANSION, 8);
    assert_eq!(runtime::FORMAT_FALLBACK, 16);

    let combined = runtime::ARRAY_MERGE | runtime::STRICT_MODE;
    assert_eq!(combined, 5);
}

#[test]
fn test_verbosity_constants() {
    assert_eq!(verbosity::NONE, 0);
    assert_eq!(verbosity::WARN, 1);
    assert_eq!(verbosity::DEBUG, 2);
    assert_eq!(verbosity::TRACE, 3);
}

#[test]
fn test_verbosity_level_enum() {
    assert_eq!(VerbosityLevel::Disabled as u8, 0);
    assert_eq!(VerbosityLevel::Warn as u8, 1);
    assert_eq!(VerbosityLevel::Debug as u8, 2);
    assert_eq!(VerbosityLevel::Trace as u8, 3);
}

#[test]
fn test_verbosity_level_conversions() {
    assert_eq!(VerbosityLevel::from(0), VerbosityLevel::Disabled);
    assert_eq!(VerbosityLevel::from(1), VerbosityLevel::Warn);
    assert_eq!(VerbosityLevel::from(2), VerbosityLevel::Debug);
    assert_eq!(VerbosityLevel::from(3), VerbosityLevel::Trace);
    assert_eq!(VerbosityLevel::from(99), VerbosityLevel::Disabled);

    assert_eq!(u8::from(VerbosityLevel::Disabled), 0);
    assert_eq!(u8::from(VerbosityLevel::Warn), 1);
    assert_eq!(u8::from(VerbosityLevel::Debug), 2);
    assert_eq!(u8::from(VerbosityLevel::Trace), 3);
}

#[test]
fn test_verbosity_level_display() {
    assert_eq!(VerbosityLevel::Disabled.name(), "none");
    assert_eq!(VerbosityLevel::Warn.name(), "warn");
    assert_eq!(VerbosityLevel::Debug.name(), "debug");
    assert_eq!(VerbosityLevel::Trace.name(), "trace");
}

#[test]
fn test_flag_combinations() {
    assert_eq!(startup::SIMD, 1);
    assert_eq!(runtime::ARRAY_MERGE, 1);

    let startup_flags = startup::SIMD | startup::THREAD_POOL;
    let runtime_flags = runtime::ARRAY_MERGE | runtime::PARALLEL;

    assert_eq!(startup_flags, 3u32);
    assert_eq!(runtime_flags, 3u64);
}

#[test]
fn config_flags_test_error_display() {
    let error = FlagError::ImmutableStartupFlag;
    assert!(error.message().contains("immutable"));

    let error = FlagError::InvalidVerbosity { level: 99 };
    assert!(error.message().contains("99"));
    assert!(error.message().contains("0-3"));
}

#[test]
fn flag_error_messages_are_exact() {
    assert_eq!(
        FlagError::ImmutableStartupFlag.message(),
        "Cannot modify startup flags at runtime - they are immutable after registry creation"
    );
    assert_eq!(
        FlagError::InvalidVerbosity { level: 7 }.message(),
        "Invalid verbosity level: 7 (valid range: 0-3)"
    );
    assert_eq!(
        FlagError::InvalidRuntimeFlag { flag: 0x2A0 }.message(),
        "Invalid runtime flag value: 0x2A0"
    );
    assert_eq!(
        FlagError::InvalidStartupFlag { flag: 255 }.message(),
        "Invalid startup flag value: 0xFF"
    );
}

#[test]
fn runtime_flag_validity() {
    assert!(is_valid_runtime_flag(runtime::ARRAY_MERGE | runtime::FORMAT_FALLBACK));
    assert!(is_valid_runtime_flag(0));
    assert!(!is_valid_runtime_flag(1 << 5));
    assert!(!is_valid_runtime_flag(runtime::PARALLEL | (1 << 40)));
    assert_eq!(runtime::ALL, 31);
}

#[test]
fn level_number_round_trip() {
    for n in 0u8..=3 {
        assert_eq!(u8::from(VerbosityLevel::from(n)), n);
    }
    assert_eq!(VerbosityLevel::from(200), VerbosityLevel::Disabled);
}
