use base_framework::middleware::{
    BuiltinChecker, CheckContext, CheckResult, Checker, MiddlewareChain, ParamValidator,
    RateLimiter, WhitelistChecker,
};
use std::time::Duration;

fn ctx_at(caller: &str, target: &str, timestamp: i64) -> CheckContext {
    let mut ctx = CheckContext::new(caller, target);
    ctx.timestamp = timestamp;
    ctx
}

#[test]
fn test_whitelist_checker() {
    let mut checker = WhitelistChecker::new();
    checker.add_caller("test_caller");

    let ctx = CheckContext::new("test_caller", "test_interface");
    let result = checker.check(&ctx).unwrap();
    assert!(result.passed);

    let ctx = CheckContext::new("unknown_caller", "test_interface");
    let result = checker.check(&ctx).unwrap();
    assert!(!result.passed);
}

#[test]
fn test_rate_limiter() {
    let mut limiter = RateLimiter::new(3, 1000);

    for i in 0..3 {
        let ctx = CheckContext::new("caller", "interface").with_param("i", &i.to_string());
        let result = limiter.check(&ctx).unwrap();
        assert!(result.passed);
    }

    let ctx = CheckContext::new("caller", "interface");
    let result = limiter.check(&ctx).unwrap();
    assert!(!result.passed);
}

#[test]
fn test_param_validator() {
    let mut validator = ParamValidator::new();
    validator.add_required_param("test_interface", "param1");
    validator.add_required_param("test_interface", "param2");

    let ctx = CheckContext::new("caller", "test_interface").with_param("param1", "value1");
    let result = validator.check(&ctx).unwrap();
    assert!(!result.passed);

    let ctx = CheckContext::new("caller", "test_interface")
        .with_param("param1", "value1")
        .with_param("param2", "value2");
    let result = validator.check(&ctx).unwrap();
    assert!(result.passed);
}

#[test]
fn test_middleware_chain() {
    let mut chain = MiddlewareChain::new();
    chain.add_checker(BuiltinChecker::Whitelist(WhitelistChecker::new()));
    chain.add_checker(BuiltinChecker::RateLimit(RateLimiter::new(10, 1000)));

    assert_eq!(chain.checker_count(), 2);
}

#[test]
fn check_context_builders() {
    let ctx = CheckContext::new("c", "t").with_param("k", "v1").with_param("k", "v2");
    assert_eq!(ctx.caller_id, "c");
    assert_eq!(ctx.target_interface, "t");
    assert_eq!(ctx.params.get("k").unwrap(), "v2");
    assert_eq!(ctx.params.len(), 1);
    assert!(ctx.source_ip.is_none());
    let ctx = ctx.with_source_ip("10.0.0.1");
    assert_eq!(ctx.source_ip.as_deref(), Some("10.0.0.1"));
    assert!(ctx.timestamp > 1_577_836_800);
}

#[test]
fn check_result_constructors() {
    let ok = CheckResult::success("fine".to_string(), Duration::from_millis(3));
    assert!(ok.passed);
    assert_eq!(ok.message, "fine");
    assert_eq!(ok.duration, Duration::from_millis(3));
    let bad = CheckResult::failure("no".to_string(), Duration::ZERO);
    assert!(!bad.passed);
    assert_eq!(bad.message, "no");
}

#[test]
fn whitelist_messages_and_removal() {
    let mut w = WhitelistChecker::default();
    w.add_caller("a");
    let ctx = CheckContext::new("a", "x");
    assert_eq!(w.check(&ctx).unwrap().message, "Caller is whitelisted");
    w.remove_caller("a");
    let r = w.check(&ctx).unwrap();
    assert!(!r.passed);
    assert_eq!(r.message, "Caller not in whitelist");
    assert_eq!(w.name(), "whitelist_checker");
    assert_eq!(w.priority(), 10);
}

#[test]
fn rate_limiter_window_slides() {
    // A window of ten seconds over timestamps in seconds.
    let mut limiter = RateLimiter::new(2, 10_000);
    assert!(limiter.check(&ctx_at("c", "i", 100)).unwrap().passed);
    assert!(limiter.check(&ctx_at("c", "i", 105)).unwrap().passed);
    let refused = limiter.check(&ctx_at("c", "i", 109)).unwrap();
    assert!(!refused.passed);
    assert_eq!(refused.message, "Rate limit exceeded: 2 calls per 10000 ms");
    // The call at 100 is 10000 ms before 110, so it has left the window.
    assert!(limiter.check(&ctx_at("c", "i", 110)).unwrap().passed);
    assert!(!limiter.check(&ctx_at("c", "i", 111)).unwrap().passed);
    // Another caller has a window of its own.
    assert!(limiter.check(&ctx_at("d", "i", 111)).unwrap().passed);
    assert_eq!(limiter.name(), "rate_limiter");
    assert_eq!(limiter.priority(), 20);
}

#[test]
fn rate_limiter_window_is_in_milliseconds() {
    // Half a second: only calls within the same second count.
    let mut limiter = RateLimiter::new(1, 500);
    assert!(limiter.check(&ctx_at("c", "i", 100)).unwrap().passed);
    assert!(!limiter.check(&ctx_at("c", "i", 100)).unwrap().passed);
    assert!(limiter.check(&ctx_at("c", "i", 101)).unwrap().passed);
    // A window of 1001 ms still holds a call made one second earlier.
    let mut limiter = RateLimiter::new(1, 1001);
    assert!(limiter.check(&ctx_at("c", "i", 100)).unwrap().passed);
    assert!(!limiter.check(&ctx_at("c", "i", 101)).unwrap().passed);
    assert!(limiter.check(&ctx_at("c", "i", 102)).unwrap().passed);
}

#[test]
fn rate_limiter_with_no_allowance_refuses_everything() {
    let mut limiter = RateLimiter::new(0, 1000);
    assert!(!limiter.check(&ctx_at("c", "i", 1)).unwrap().passed);
}

#[test]
fn param_validator_reports_first_missing() {
    let mut v = ParamValidator::default();
    v.add_required_param("api", "a");
    v.add_required_param("api", "b");
    let r = v.check(&CheckContext::new("c", "api").with_param("b", "1")).unwrap();
    assert!(!r.passed);
    assert_eq!(r.message, "Missing required parameter: a");
    let r = v.check(&CheckContext::new("c", "api").with_param("a", "1")).unwrap();
    assert_eq!(r.message, "Missing required parameter: b");
    let r = v.check(&CheckContext::new("c", "other")).unwrap();
    assert!(r.passed);
    assert_eq!(r.message, "Parameter validation passed");
    assert_eq!(v.name(), "param_validator");
    assert_eq!(v.priority(), 30);
}

#[test]
fn chain_runs_in_priority_order_and_stops_at_first_refusal() {
    let mut chain = MiddlewareChain::default();
    let mut v = ParamValidator::new();
    v.add_required_param("api", "token");
    chain.add_checker(BuiltinChecker::Params(v));
    chain.add_checker(BuiltinChecker::RateLimit(RateLimiter::new(1, 1000)));
    chain.add_checker(BuiltinChecker::Whitelist(WhitelistChecker::new()));
    // The whitelist runs first (priority 10) and refuses the caller; the
    // rate limiter behind it records nothing.
    let r = chain.check(&ctx_at("c", "api", 5)).unwrap();
    assert!(!r.passed);
    assert_eq!(r.message, "Caller not in whitelist");
}

#[test]
fn chain_passes_with_all_checks_passed() {
    let mut chain = MiddlewareChain::new();
    let mut w = WhitelistChecker::new();
    w.add_caller("c");
    chain.add_checker(BuiltinChecker::Whitelist(w));
    chain.add_checker(BuiltinChecker::RateLimit(RateLimiter::new(1, 1000)));
    let r = chain.check(&ctx_at("c", "api", 5)).unwrap();
    assert!(r.passed);
    assert_eq!(r.message, "All checks passed");
    let r = chain.check(&ctx_at("c", "api", 5)).unwrap();
    assert!(!r.passed);
    assert_eq!(r.message, "Rate limit exceeded: 1 calls per 1000 ms");
}

#[test]
fn empty_chain_passes() {
    let mut chain: MiddlewareChain<BuiltinChecker> = MiddlewareChain::new();
    assert_eq!(chain.checker_count(), 0);
    assert!(chain.check(&CheckContext::new("x", "y")).unwrap().passed);
}
