use base_framework::error::FrameworkError;
use base_framework::monitor::{AppInfo, AppState, Monitor, MonitorConfig, MonitorEvent};

#[test]
fn test_monitor_creation() {
    let monitor = Monitor::new(MonitorConfig::default());
    assert!(monitor.list_apps().is_empty());
}

#[test]
fn test_app_registration() {
    let mut monitor = Monitor::new(MonitorConfig::default());
    let app = AppInfo::new("test_app", "Test App", "1.0.0");

    assert!(monitor.register_app(app).is_ok());
    assert_eq!(monitor.list_apps().len(), 1);
}

#[test]
fn test_app_lifecycle() {
    let mut monitor = Monitor::new(MonitorConfig::default());
    let app = AppInfo::new("test_app", "Test App", "1.0.0");

    monitor.register_app(app).unwrap();
    monitor.start_app("test_app").unwrap();

    let info = monitor.get_app_info("test_app").unwrap();
    assert_eq!(info.state, AppState::Running);
    assert!(info.running_time().is_some());

    monitor.stop_app("test_app").unwrap();
    let info = monitor.get_app_info("test_app").unwrap();
    assert_eq!(info.state, AppState::Stopped);
}

#[test]
fn default_monitor_config() {
    let config = MonitorConfig::default();
    assert_eq!(config.buffer_size, 1000);
    assert!(config.enable_performance);
    assert!(config.enable_error_tracking);
    assert_eq!(config.sampling_interval_ms, 1000);
}

#[test]
fn new_app_is_uninitialized() {
    let app = AppInfo::new("id", "name", "2.0");
    assert_eq!(app.id, "id");
    assert_eq!(app.name, "name");
    assert_eq!(app.version, "2.0");
    assert_eq!(app.state, AppState::Uninitialized);
    assert!(app.start_time.is_none());
    assert!(app.running_time().is_none());
    assert!(app.metadata.is_empty());
}

#[test]
fn second_registration_is_refused_with_message() {
    let mut monitor = Monitor::new(MonitorConfig::default());
    monitor.register_app(AppInfo::new("dup", "First", "1")).unwrap();
    match monitor.register_app(AppInfo::new("dup", "Second", "2")) {
        Err(FrameworkError::MonitorError(m)) => assert_eq!(m, "App dup already registered"),
        _ => panic!("expected a monitor error"),
    }
    assert_eq!(monitor.get_app_info("dup").unwrap().name, "First");
    assert_eq!(monitor.list_apps().len(), 1);
}

#[test]
fn unknown_app_cannot_start_or_stop() {
    let mut monitor = Monitor::new(MonitorConfig::default());
    match monitor.start_app("ghost") {
        Err(FrameworkError::MonitorError(m)) => assert_eq!(m, "App ghost not found"),
        _ => panic!("expected a monitor error"),
    }
    match monitor.stop_app("ghost") {
        Err(FrameworkError::MonitorError(m)) => assert_eq!(m, "App ghost not found"),
        _ => panic!("expected a monitor error"),
    }
    assert!(monitor.get_app_info("ghost").is_none());
}

#[test]
fn stop_clears_start_time_and_start_sets_it() {
    let mut monitor = Monitor::new(MonitorConfig::default());
    monitor.register_app(AppInfo::new("a", "A", "1")).unwrap();
    monitor.start_app("a").unwrap();
    assert!(monitor.get_app_info("a").unwrap().start_time.is_some());
    monitor.stop_app("a").unwrap();
    let info = monitor.get_app_info("a").unwrap();
    assert!(info.start_time.is_none());
    assert!(info.running_time().is_none());
    monitor.stop_app("a").unwrap();
    assert_eq!(monitor.get_app_info("a").unwrap().state, AppState::Stopped);
}

#[test]
fn other_apps_are_untouched() {
    let mut monitor = Monitor::new(MonitorConfig::default());
    monitor.register_app(AppInfo::new("a", "A", "1")).unwrap();
    monitor.register_app(AppInfo::new("b", "B", "1")).unwrap();
    monitor.start_app("a").unwrap();
    assert_eq!(monitor.get_app_info("b").unwrap().state, AppState::Uninitialized);
    let mut ids = monitor.list_apps();
    ids.sort();
    assert_eq!(ids, vec!["a".to_string(), "b".to_string()]);
}

#[test]
fn metric_values_are_recorded_in_order() {
    let mut monitor = Monitor::new(MonitorConfig::default());
    monitor.record_metric("response_time", 100.0f64.to_bits());
    monitor.record_metric("response_time", 150.0f64.to_bits());
    monitor.record_metric("response_time", 120.0f64.to_bits());
    let values: Vec<f64> =
        monitor.metric_values("response_time").unwrap().into_iter().map(f64::from_bits).collect();
    assert_eq!(values, vec![100.0, 150.0, 120.0]);
    assert!(monitor.metric_values("other").is_none());
}

#[test]
fn metrics_are_not_recorded_when_performance_is_off() {
    let config = MonitorConfig { enable_performance: false, ..MonitorConfig::default() };
    let mut monitor = Monitor::new(config);
    monitor.record_metric("m", 1.0f64.to_bits());
    assert!(monitor.metric_values("m").is_none());
}

#[test]
fn lifecycle_events_are_published() {
    let mut monitor = Monitor::new(MonitorConfig::default());
    let events = monitor.event_receiver();
    monitor.register_app(AppInfo::new("a", "A", "1")).unwrap();
    monitor.start_app("a").unwrap();
    monitor.record_metric("lat", 2.5f64.to_bits());
    monitor.record_error(-3, "boom");
    monitor.stop_app("a").unwrap();
    match events.try_recv().unwrap() {
        MonitorEvent::AppStarted { app_id, .. } => assert_eq!(app_id, "a"),
        other => panic!("unexpected {:?}", other),
    }
    match events.try_recv().unwrap() {
        MonitorEvent::PerformanceMetric { name, value_bits, unit } => {
            assert_eq!(name, "lat");
            assert_eq!(f64::from_bits(value_bits), 2.5);
            assert_eq!(unit, "ms");
        }
        other => panic!("unexpected {:?}", other),
    }
    match events.try_recv().unwrap() {
        MonitorEvent::Error { code, message } => {
            assert_eq!(code, -3);
            assert_eq!(message, "boom");
        }
        other => panic!("unexpected {:?}", other),
    }
    match events.try_recv().unwrap() {
        MonitorEvent::AppStopped { app_id, .. } => assert_eq!(app_id, "a"),
        other => panic!("unexpected {:?}", other),
    }
    assert!(events.try_recv().is_err());
}

#[test]
fn full_event_buffer_drops_new_events() {
    let config = MonitorConfig { buffer_size: 1, ..MonitorConfig::default() };
    let mut monitor = Monitor::new(config);
    let events = monitor.event_receiver();
    monitor.record_error(1, "first");
    monitor.record_error(2, "second");
    match events.try_recv().unwrap() {
        MonitorEvent::Error { code, .. } => assert_eq!(code, 1),
        other => panic!("unexpected {:?}", other),
    }
    assert!(events.try_recv().is_err());
}

#[test]
fn errors_are_not_published_when_tracking_is_off() {
    let config = MonitorConfig { enable_error_tracking: false, ..MonitorConfig::default() };
    let mut monitor = Monitor::new(config);
    let events = monitor.event_receiver();
    monitor.record_error(7, "ignored");
    assert!(events.try_recv().is_err());
}

#[test]
fn failed_lifecycle_calls_publish_nothing() {
    let mut monitor = Monitor::new(MonitorConfig::default());
    let events = monitor.event_receiver();
    assert!(monitor.start_app("missing").is_err());
    assert!(monitor.stop_app("missing").is_err());
    monitor.register_app(AppInfo::new("a", "A", "1")).unwrap();
    assert!(events.try_recv().is_err());
}
