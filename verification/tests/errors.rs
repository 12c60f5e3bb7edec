use leanrl_core::env::EnvState;
use leanrl_core::error::ffi;
use leanrl_core::error::Error;

#[test]
fn test_error_conversion() {
    let err = Error::InvalidWeights("test".to_string());
    let code = ffi::error_to_code(&err);
    assert_eq!(code, ffi::LR_EBADWEIGHTS);

    let converted_err = ffi::code_to_error(code);
    assert!(matches!(converted_err, Error::InvalidWeights(_)));
}

#[test]
fn test_env_state_size() {
    assert!(std::mem::size_of::<EnvState>() < 1_048_576);
}

#[test]
fn every_kind_has_its_code() {
    assert_eq!(ffi::LR_OK, 0);
    assert_eq!(ffi::error_to_code(&Error::InvalidWeights(String::new())), -1);
    assert_eq!(ffi::error_to_code(&Error::InvalidObsSize { expected: 4, actual: 3 }), -2);
    assert_eq!(ffi::error_to_code(&Error::InvalidActionSize { expected: 2, actual: 3 }), -2);
    assert_eq!(ffi::error_to_code(&Error::InvariantViolation("x".to_string())), -3);
    assert_eq!(ffi::error_to_code(&Error::OutOfMemory("x".to_string())), -4);
    assert_eq!(ffi::error_to_code(&Error::Serialization("x".to_string())), -5);
    assert_eq!(ffi::error_to_code(&Error::UnsupportedAlgorithm("x".to_string())), -5);
    assert_eq!(ffi::error_to_code(&Error::SimdNotAvailable("x".to_string())), -5);
    assert_eq!(ffi::error_to_code(&Error::Internal("x".to_string())), -5);
}

#[test]
fn every_code_has_its_error() {
    assert_eq!(ffi::code_to_error(-1), Error::InvalidWeights("FFI: Bad weights".to_string()));
    assert_eq!(ffi::code_to_error(-2), Error::InvalidObsSize { expected: 0, actual: 0 });
    assert_eq!(
        ffi::code_to_error(-3),
        Error::InvariantViolation("FFI: Invariant violation".to_string())
    );
    assert_eq!(ffi::code_to_error(-4), Error::OutOfMemory("FFI: Out of memory".to_string()));
    assert_eq!(
        ffi::code_to_error(-5),
        Error::Internal("FFI: Unknown error code -5".to_string())
    );
    assert_eq!(ffi::code_to_error(0), Error::Internal("FFI: Unknown error code 0".to_string()));
    assert_eq!(
        ffi::code_to_error(1234),
        Error::Internal("FFI: Unknown error code 1234".to_string())
    );
    assert_eq!(
        ffi::code_to_error(i32::MIN),
        Error::Internal("FFI: Unknown error code -2147483648".to_string())
    );
    assert_eq!(
        ffi::code_to_error(i32::MAX),
        Error::Internal("FFI: Unknown error code 2147483647".to_string())
    );
}

#[test]
fn codes_survive_the_round_trip() {
    for code in [-1, -2, -3, -4] {
        assert_eq!(ffi::error_to_code(&ffi::code_to_error(code)), code);
    }
    for code in [0, 1, -5, -6, 99, i32::MIN] {
        assert_eq!(ffi::error_to_code(&ffi::code_to_error(code)), ffi::LR_EINTERNAL);
    }
}

#[test]
fn messages_read_as_expected() {
    assert_eq!(
        Error::InvalidWeights("too short".to_string()).message(),
        "Invalid weights data: too short"
    );
    assert_eq!(
        Error::InvalidObsSize { expected: 4, actual: 10 }.message(),
        "Invalid observation size: expected 4, got 10"
    );
    assert_eq!(
        Error::InvalidActionSize { expected: 0, actual: 18446744073709551615 }.message(),
        "Invalid action size: expected 0, got 18446744073709551615"
    );
    assert_eq!(
        Error::InvariantViolation("a".to_string()).message(),
        "Safety invariant violation: a"
    );
    assert_eq!(Error::OutOfMemory("b".to_string()).message(), "Out of memory: b");
    assert_eq!(Error::Serialization("c".to_string()).message(), "Serialization error: c");
    assert_eq!(
        Error::UnsupportedAlgorithm("d".to_string()).message(),
        "Algorithm not supported: d"
    );
    assert_eq!(
        Error::SimdNotAvailable("e".to_string()).message(),
        "SIMD feature not available: e"
    );
    assert_eq!(Error::Internal("f".to_string()).message(), "Internal error: f");
}
