use base_framework::logger::{
    format_log_line, level_enabled, Level, LevelFilter, LogFormat, LoggerConfig,
};

#[test]
fn test_logger_config_default() {
    let config = LoggerConfig::default();
    assert_eq!(config.level, LevelFilter::Info);
    assert!(config.console_output);
}

#[test]
fn test_logger_format() {
    let msg = format_log_line(
        LogFormat::Default,
        "2024-01-01 00:00:00.000",
        Level::Info,
        Some("test.rs"),
        Some(42),
        None,
        "test message",
    );
    assert!(msg.contains("test message"));
    assert!(msg.contains("INFO"));
}

#[test]
fn log_line_layouts() {
    let ts = "2024-01-01 00:00:00.000";
    assert_eq!(
        format_log_line(LogFormat::Default, ts, Level::Warn, Some("a.rs"), Some(7), Some("m"), "hi"),
        "[2024-01-01 00:00:00.000] [WARN] [a.rs:7] hi"
    );
    assert_eq!(
        format_log_line(LogFormat::Default, ts, Level::Error, None, None, None, "x"),
        "[2024-01-01 00:00:00.000] [ERROR] [unknown:0] x"
    );
    assert_eq!(
        format_log_line(LogFormat::Json, ts, Level::Debug, Some("a.rs"), Some(3), Some("m::n"), "ok"),
        "{\"timestamp\":\"2024-01-01 00:00:00.000\",\"level\":\"DEBUG\",\"module\":\"m::n\",\"file\":\"a.rs\",\"line\":3,\"message\":\"ok\"}"
    );
    assert_eq!(
        format_log_line(LogFormat::Compact, ts, Level::Trace, None, None, Some("m"), "t"),
        "[TRACE] m - t"
    );
    assert_eq!(
        format_log_line(LogFormat::Compact, ts, Level::Info, None, None, None, "t"),
        "[INFO]  - t"
    );
}

#[test]
fn levels_pass_their_filter() {
    assert!(level_enabled(Level::Info, LevelFilter::Info));
    assert!(level_enabled(Level::Error, LevelFilter::Info));
    assert!(!level_enabled(Level::Debug, LevelFilter::Info));
    assert!(!level_enabled(Level::Error, LevelFilter::Off));
    assert!(level_enabled(Level::Trace, LevelFilter::Trace));
}
