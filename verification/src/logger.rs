use vstd::prelude::*;

use std::path::PathBuf;

use crate::text::{decimal, u64_to_decimal};

verus! {

#[verifier::external_type_specification]
#[verifier::external_body]
pub struct ExPathBuf(PathBuf);

/// The level of a log record, most severe first.
#[derive(Debug, Clone, Copy, PartialEq, Eq, Structural)]
pub enum Level {
    Error,
    Warn,
    Info,
    Debug,
    Trace,
}

/// The most verbose level a logger lets through (`Off` lets nothing through).
#[derive(Debug, Clone, Copy, PartialEq, Eq, Structural)]
pub enum LevelFilter {
    Off,
    Error,
    Warn,
    Info,
    Debug,
    Trace,
}

impl Level {
    /// The verbosity of the level: 1 for `Error` up to 5 for `Trace`.
    pub open spec fn rank(self) -> int {
        match self {
            Level::Error => 1,
            Level::Warn => 2,
            Level::Info => 3,
            Level::Debug => 4,
            Level::Trace => 5,
        }
    }

    /// The name of the level as log lines show it.
    pub open spec fn label(self) -> Seq<char> {
        match self {
            Level::Error => "ERROR"@,
            Level::Warn => "WARN"@,
            Level::Info => "INFO"@,
            Level::Debug => "DEBUG"@,
            Level::Trace => "TRACE"@,
        }
    }

    /// The name of the level as log lines show it.
    pub fn as_str(self) -> (s: &'static str)
        ensures
            s@ == self.label(),
    {
        match self {
            Level::Error => "ERROR",
            Level::Warn => "WARN",
            Level::Info => "INFO",
            Level::Debug => "DEBUG",
            Level::Trace => "TRACE",
        }
    }
}

impl LevelFilter {
    /// The verbosity of the filter: 0 for `Off` up to 5 for `Trace`.
    pub open spec fn rank(self) -> int {
        match self {
            LevelFilter::Off => 0,
            LevelFilter::Error => 1,
            LevelFilter::Warn => 2,
            LevelFilter::Info => 3,
            LevelFilter::Debug => 4,
            LevelFilter::Trace => 5,
        }
    }
}

/// A record at `level` gets through `filter`: the filter is at that level or
/// more verbose.  Levels run Error, Warn, Info, Debug, Trace; filters run
/// Off, Error, Warn, Info, Debug, Trace.
pub open spec fn passes_filter(level: Level, filter: LevelFilter) -> bool {
    match level {
        Level::Error => !(filter is Off),
        Level::Warn => !(filter is Off) && !(filter is Error),
        Level::Info => filter is Info || filter is Debug || filter is Trace,
        Level::Debug => filter is Debug || filter is Trace,
        Level::Trace => filter is Trace,
    }
}

/// The verbosities order levels and filters as the names say: a record
/// passes a filter exactly when the filter is at the record's own level or
/// more verbose, so a filter lets through every level less verbose than one
/// it lets through.
pub proof fn lemma_level_order(level: Level, quieter: Level, filter: LevelFilter)
    ensures
        Level::Error.rank() < Level::Warn.rank() < Level::Info.rank() < Level::Debug.rank()
            < Level::Trace.rank(),
        LevelFilter::Off.rank() < LevelFilter::Error.rank() < LevelFilter::Warn.rank()
            < LevelFilter::Info.rank() < LevelFilter::Debug.rank() < LevelFilter::Trace.rank(),
        Level::Error.rank() == LevelFilter::Error.rank(),
        Level::Warn.rank() == LevelFilter::Warn.rank(),
        Level::Info.rank() == LevelFilter::Info.rank(),
        Level::Debug.rank() == LevelFilter::Debug.rank(),
        Level::Trace.rank() == LevelFilter::Trace.rank(),
        (level.rank() <= filter.rank()) == passes_filter(level, filter),
        quieter.rank() <= level.rank() && passes_filter(level, filter) ==> passes_filter(
            quieter,
            filter,
        ),
        passes_filter(Level::Error, LevelFilter::Error),
        passes_filter(Level::Warn, LevelFilter::Warn),
        passes_filter(Level::Info, LevelFilter::Info),
        passes_filter(Level::Debug, LevelFilter::Debug),
        passes_filter(Level::Trace, LevelFilter::Trace),
        !passes_filter(level, LevelFilter::Off),
        passes_filter(level, LevelFilter::Trace),
{
}

/// Whether a record at `level` gets through `filter`.
pub fn level_enabled(level: Level, filter: LevelFilter) -> (b: bool)
    ensures
        b == (level.rank() <= filter.rank()),
        b == passes_filter(level, filter),
{
    let l: u8 = match level {
        Level::Error => 1,
        Level::Warn => 2,
        Level::Info => 3,
        Level::Debug => 4,
        Level::Trace => 5,
    };
    let f: u8 = match filter {
        LevelFilter::Off => 0,
        LevelFilter::Error => 1,
        LevelFilter::Warn => 2,
        LevelFilter::Info => 3,
        LevelFilter::Debug => 4,
        LevelFilter::Trace => 5,
    };
    l <= f
}

/// Log format.
#[derive(Debug, Clone, Copy, PartialEq, Eq, Structural)]
pub enum LogFormat {
    /// Default format
    Default,
    /// JSON format
    Json,
    /// Compact format
    Compact,
}

/// Logger configuration.
#[derive(Debug, Clone)]
pub struct LoggerConfig {
    /// Log level
    pub level: LevelFilter,
    /// Log file path (optional)
    pub log_file: Option<PathBuf>,
    /// Whether to output to console
    pub console_output: bool,
    /// Log format
    pub format: LogFormat,
}

impl Default for LoggerConfig {
    fn default() -> (config: Self)
        ensures
            config.level == LevelFilter::Info,
            config.log_file is None,
            config.console_output,
            config.format == LogFormat::Default,
    {
        LoggerConfig {
            level: LevelFilter::Info,
            log_file: None,
            console_output: true,
            format: LogFormat::Default,
        }
    }
}

/// The text of `s`, or `fallback` when there is none.
pub open spec fn text_or(s: Option<&str>, fallback: Seq<char>) -> Seq<char> {
    match s {
        Some(t) => t@,
        None => fallback,
    }
}

/// One log line in `format`.
pub open spec fn log_line(
    format: LogFormat,
    timestamp: Seq<char>,
    level: Level,
    file: Option<&str>,
    line: Option<u32>,
    module_name: Option<&str>,
    message: Seq<char>,
) -> Seq<char> {
    let line_no: nat = match line {
        Some(n) => n as nat,
        None => 0,
    };
    match format {
        LogFormat::Default => "["@ + timestamp + "] ["@ + level.label() + "] ["@ + text_or(
            file,
            "unknown"@,
        ) + ":"@ + decimal(line_no) + "] "@ + message,
        LogFormat::Json => "{\"timestamp\":\""@ + timestamp + "\",\"level\":\""@ + level.label()
            + "\",\"module\":\""@ + text_or(module_name, "unknown"@) + "\",\"file\":\""@
            + text_or(file, "unknown"@) + "\",\"line\":"@ + decimal(line_no) + ",\"message\":\""@
            + message + "\"}"@,
        LogFormat::Compact => "["@ + level.label() + "] "@ + text_or(module_name, ""@) + " - "@
            + message,
    }
}

fn or_default<'a>(s: Option<&'a str>, fallback: &'a str) -> (t: &'a str)
    ensures
        t@ == text_or(s, fallback@),
{
    match s {
        Some(t) => t,
        None => fallback,
    }
}

/// Formats a log record: its time, level, source file and line, module and
/// message, in the layout of `format`.
pub fn format_log_line(
    format: LogFormat,
    timestamp: &str,
    level: Level,
    file: Option<&str>,
    line: Option<u32>,
    module_name: Option<&str>,
    message: &str,
) -> (s: String)
    ensures
        s@ == log_line(format, timestamp@, level, file, line, module_name, message@),
{
    let line_no: u32 = match line {
        Some(n) => n,
        None => 0,
    };
    let line_text = u64_to_decimal(line_no as u64);
    match format {
        LogFormat::Default => {
            let mut s = String::from_str("[");
            s.append(timestamp);
            s.append("] [");
            s.append(level.as_str());
            s.append("] [");
            s.append(or_default(file, "unknown"));
            s.append(":");
            s.append(line_text.as_str());
            s.append("] ");
            s.append(message);
            s
        },
        LogFormat::Json => {
            let mut s = String::from_str("{\"timestamp\":\"");
            s.append(timestamp);
            s.append("\",\"level\":\"");
            s.append(level.as_str());
            s.append("\",\"module\":\"");
            s.append(or_default(module_name, "unknown"));
            s.append("\",\"file\":\"");
            s.append(or_default(file, "unknown"));
            s.append("\",\"line\":");
            s.append(line_text.as_str());
            s.append(",\"message\":\"");
            s.append(message);
            s.append("\"}");
            s
        },
        LogFormat::Compact => {
            let mut s = String::from_str("[");
            s.append(level.as_str());
            s.append("] ");
            s.append(or_default(module_name, ""));
            s.append(" - ");
            s.append(message);
            s
        },
    }
}

} // verus!
