use base_framework::error::ErrorCode;
use base_framework::interface::FrameworkState;

#[test]
fn test_ffi_init_shutdown() {
    let mut fw = FrameworkState::new();
    let result = fw.init();
    assert_eq!(result, 0);

    let result = fw.health_check();
    assert_eq!(result, 0);

    let result = fw.shutdown();
    assert_eq!(result, 0);
}

#[test]
fn test_ffi_register_app() {
    let mut fw = FrameworkState::new();
    fw.init();

    let result = fw.register_app(Some("test_app"), Some("Test App"), Some("1.0.0"));
    assert_eq!(result, 0);

    fw.shutdown();
}

#[test]
fn test_ffi_null_params() {
    let mut fw = FrameworkState::new();
    fw.init();

    let result = fw.register_app(None, None, None);
    assert_eq!(result, i32::from(ErrorCode::InvalidParam));

    fw.shutdown();
}

#[test]
fn calls_before_init_fail_with_init_failed() {
    let mut fw = FrameworkState::new();
    let init_failed = ErrorCode::InitFailed.as_i32();
    assert_eq!(fw.health_check(), init_failed);
    assert_eq!(fw.register_app(Some("a"), Some("b"), Some("c")), init_failed);
    assert_eq!(fw.start_app(Some("a")), init_failed);
    assert_eq!(fw.stop_app(Some("a")), init_failed);
    assert_eq!(fw.check_call(Some("a"), Some("b"), None), init_failed);
    assert_eq!(fw.record_metric(Some("m"), 1.0f64.to_bits()), init_failed);
    assert_eq!(fw.record_error(1, Some("e")), init_failed);
}

#[test]
fn null_arguments_are_invalid() {
    let mut fw = FrameworkState::new();
    fw.init();
    let invalid = ErrorCode::InvalidParam.as_i32();
    assert_eq!(fw.register_app(Some("a"), None, Some("c")), invalid);
    assert_eq!(fw.start_app(None), invalid);
    assert_eq!(fw.stop_app(None), invalid);
    assert_eq!(fw.check_call(None, Some("b"), None), invalid);
    assert_eq!(fw.check_call(Some("a"), None, Some("{}")), invalid);
    assert_eq!(fw.record_metric(None, 0), invalid);
    assert_eq!(fw.record_error(1, None), invalid);
}

#[test]
fn app_lifecycle_through_the_interface() {
    let mut fw = FrameworkState::new();
    fw.init();
    assert_eq!(fw.register_app(Some("a"), Some("A"), Some("1")), 0);
    assert_eq!(fw.register_app(Some("a"), Some("A"), Some("1")), ErrorCode::MonitorFailed.as_i32());
    assert_eq!(fw.start_app(Some("a")), 0);
    assert_eq!(fw.start_app(Some("b")), ErrorCode::MonitorFailed.as_i32());
    assert_eq!(fw.stop_app(Some("a")), 0);
    assert_eq!(fw.record_metric(Some("m"), 2.0f64.to_bits()), 0);
    assert_eq!(fw.record_error(-3, Some("boom")), 0);
}

#[test]
fn fresh_whitelist_refuses_every_call() {
    let mut fw = FrameworkState::new();
    fw.init();
    assert_eq!(fw.check_call(Some("caller001"), Some("get_data"), Some("{}")), -4);
}

#[test]
fn init_after_shutdown_starts_again() {
    let mut fw = FrameworkState::new();
    assert!(!fw.has_initialized());
    assert_eq!(fw.init(), 0);
    assert!(fw.has_initialized());
    assert_eq!(fw.register_app(Some("a"), Some("A"), Some("1")), 0);
    assert_eq!(fw.shutdown(), 0);
    assert_eq!(fw.health_check(), ErrorCode::InitFailed.as_i32());
    // A second init after shutdown brings up a fresh framework.
    assert_eq!(fw.init(), 0);
    assert!(fw.has_initialized());
    assert_eq!(fw.health_check(), 0);
    assert_eq!(fw.register_app(Some("a"), Some("A"), Some("1")), 0);
    assert_eq!(fw.register_app(Some("test_app"), Some("Test App"), Some("1.0.0")), 0);
}

#[test]
fn init_while_running_keeps_the_instance() {
    let mut fw = FrameworkState::new();
    assert_eq!(fw.init(), 0);
    assert_eq!(fw.register_app(Some("a"), Some("A"), Some("1")), 0);
    assert_eq!(fw.init(), 0);
    assert_eq!(fw.register_app(Some("a"), Some("A"), Some("1")), ErrorCode::MonitorFailed.as_i32());
}
