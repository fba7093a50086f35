use base_framework::error::{ErrorCode, ErrorContext, FrameworkError};

#[test]
fn test_error_creation() {
    let err = FrameworkError::InitError("test error".to_string());
    assert_eq!(err.to_display_string(), "Initialization error: test error");
}

#[test]
fn test_error_code_mapping() {
    let err = FrameworkError::MonitorError("monitor failed".to_string());
    let code = ErrorCode::from(&err);
    assert_eq!(code, ErrorCode::MonitorFailed);
}

#[test]
fn test_error_context() {
    let ctx = ErrorContext::new(ErrorCode::InitFailed, "test", "test_module");
    assert_eq!(ctx.code, ErrorCode::InitFailed);
    assert_eq!(ctx.module, "test_module");
}

#[test]
fn every_error_kind_maps_to_its_code() {
    let s = || "x".to_string();
    assert_eq!(ErrorCode::from(&FrameworkError::InitError(s())), ErrorCode::InitFailed);
    assert_eq!(ErrorCode::from(&FrameworkError::MonitorError(s())), ErrorCode::MonitorFailed);
    assert_eq!(
        ErrorCode::from(&FrameworkError::MiddlewareError(s())),
        ErrorCode::MiddlewareCheckFailed
    );
    assert_eq!(ErrorCode::from(&FrameworkError::InterfaceError(s())), ErrorCode::InvalidParam);
    assert_eq!(ErrorCode::from(&FrameworkError::ConfigError(s())), ErrorCode::InitFailed);
    assert_eq!(ErrorCode::from(&FrameworkError::SystemError(s())), ErrorCode::InternalError);
    assert_eq!(ErrorCode::from(&FrameworkError::Unknown(s())), ErrorCode::InternalError);
}

#[test]
fn error_codes_have_their_numbers() {
    assert_eq!(i32::from(ErrorCode::Success), 0);
    assert_eq!(i32::from(ErrorCode::InitFailed), -1);
    assert_eq!(i32::from(ErrorCode::InvalidParam), -2);
    assert_eq!(i32::from(ErrorCode::MonitorFailed), -3);
    assert_eq!(i32::from(ErrorCode::MiddlewareCheckFailed), -4);
    assert_eq!(i32::from(ErrorCode::OutOfResource), -5);
    assert_eq!(i32::from(ErrorCode::Timeout), -6);
    assert_eq!(ErrorCode::NotImplemented.as_i32(), -7);
    assert_eq!(ErrorCode::InternalError.as_i32(), -99);
}

#[test]
fn every_error_kind_has_its_prefix() {
    let s = || "d".to_string();
    assert_eq!(FrameworkError::MonitorError(s()).to_display_string(), "Monitor error: d");
    assert_eq!(FrameworkError::MiddlewareError(s()).to_display_string(), "Middleware error: d");
    assert_eq!(FrameworkError::InterfaceError(s()).to_display_string(), "Interface error: d");
    assert_eq!(FrameworkError::ConfigError(s()).to_display_string(), "Config error: d");
    assert_eq!(FrameworkError::SystemError(s()).to_display_string(), "System error: d");
    assert_eq!(FrameworkError::Unknown(s()).to_display_string(), "Unknown error: d");
}

#[test]
fn error_context_display_text() {
    let ctx = ErrorContext {
        code: ErrorCode::Timeout,
        message: "too slow".to_string(),
        timestamp: -42,
        module: "net".to_string(),
    };
    assert_eq!(ctx.to_display_string(), "[net] -42 - too slow (code: Timeout)");
}

#[test]
fn error_context_is_stamped_with_the_current_time() {
    let ctx = ErrorContext::new(ErrorCode::Success, "m", "mod");
    // 2020-01-01T00:00:00Z: any clock of today is later.
    assert!(ctx.timestamp > 1_577_836_800);
    assert_eq!(ctx.message, "m");
}
