use base_framework::middleware::{
    BuiltinChecker, CheckContext, MiddlewareChain, ParamValidator, RateLimiter, WhitelistChecker,
};
use base_framework::monitor::{AppInfo, AppState, Monitor, MonitorConfig};

#[test]
fn test_full_lifecycle() {
    // Create monitor
    let mut monitor = Monitor::new(MonitorConfig::default());

    // Register application
    let app = AppInfo::new("integration_app", "Integration Test App", "1.0.0");
    assert!(monitor.register_app(app).is_ok());

    // Start application
    assert!(monitor.start_app("integration_app").is_ok());

    // Verify state
    let info = monitor.get_app_info("integration_app").unwrap();
    assert_eq!(info.state, AppState::Running);

    // Record metrics
    for i in 0..10 {
        monitor.record_metric("latency", ((i as f64) * 10.0).to_bits());
    }

    let values = monitor.metric_values("latency").unwrap();
    assert_eq!(values.len(), 10);

    // Stop application
    assert!(monitor.stop_app("integration_app").is_ok());
    let info = monitor.get_app_info("integration_app").unwrap();
    assert_eq!(info.state, AppState::Stopped);
}

#[test]
fn test_middleware_chain_integration() {
    let mut chain = MiddlewareChain::new();

    // Configure whitelist
    let mut whitelist = WhitelistChecker::new();
    whitelist.add_caller("trusted_caller");
    chain.add_checker(BuiltinChecker::Whitelist(whitelist));

    // Configure rate limiting
    let rate_limiter = RateLimiter::new(100, 60000);
    chain.add_checker(BuiltinChecker::RateLimit(rate_limiter));

    // Configure parameter validation
    let mut param_validator = ParamValidator::new();
    param_validator.add_required_param("sensitive_api", "auth_token");
    chain.add_checker(BuiltinChecker::Params(param_validator));

    // Test: whitelist passed + complete parameters
    let ctx = CheckContext::new("trusted_caller", "sensitive_api")
        .with_param("auth_token", "valid_token");
    let result = chain.check(&ctx).unwrap();
    assert!(result.passed);

    // Test: whitelist rejected
    let ctx = CheckContext::new("unknown_caller", "sensitive_api");
    let result = chain.check(&ctx).unwrap();
    assert!(!result.passed);

    // Test: missing parameters
    let ctx = CheckContext::new("trusted_caller", "sensitive_api");
    let result = chain.check(&ctx).unwrap();
    assert!(!result.passed);
}

#[test]
fn test_error_handling() {
    let mut monitor = Monitor::new(MonitorConfig::default());

    // Start non-existent application
    let result = monitor.start_app("nonexistent");
    assert!(result.is_err());

    // Duplicate registration
    let app = AppInfo::new("dup_app", "Dup App", "1.0.0");
    monitor.register_app(app.clone()).unwrap();
    let result = monitor.register_app(app);
    assert!(result.is_err());
}
