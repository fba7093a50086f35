use vstd::prelude::*;

use crate::clock::unix_timestamp;
use crate::text::{i64_to_decimal, signed_decimal};

verus! {

/// Main framework error type.
#[derive(Debug)]
pub enum FrameworkError {
    /// Initialization error
    InitError(String),
    /// Monitoring error
    MonitorError(String),
    /// Middleware error
    MiddlewareError(String),
    /// Interface call error
    InterfaceError(String),
    /// Configuration error
    ConfigError(String),
    /// System error
    SystemError(String),
    /// Unknown error
    Unknown(String),
}

/// Framework result type.
pub type FrameworkResult<T> = Result<T, FrameworkError>;

impl FrameworkError {
    /// The text that describes the error: a prefix that names its kind,
    /// followed by its detail.
    pub open spec fn display_text(&self) -> Seq<char> {
        match self {
            FrameworkError::InitError(m) => "Initialization error: "@ + m@,
            FrameworkError::MonitorError(m) => "Monitor error: "@ + m@,
            FrameworkError::MiddlewareError(m) => "Middleware error: "@ + m@,
            FrameworkError::InterfaceError(m) => "Interface error: "@ + m@,
            FrameworkError::ConfigError(m) => "Config error: "@ + m@,
            FrameworkError::SystemError(m) => "System error: "@ + m@,
            FrameworkError::Unknown(m) => "Unknown error: "@ + m@,
        }
    }

    /// The text that describes the error, as its `Display` would show it.
    pub fn to_display_string(&self) -> (s: String)
        ensures
            s@ == self.display_text(),
    {
        let mut s = match self {
            FrameworkError::InitError(_) => String::from_str("Initialization error: "),
            FrameworkError::MonitorError(_) => String::from_str("Monitor error: "),
            FrameworkError::MiddlewareError(_) => String::from_str("Middleware error: "),
            FrameworkError::InterfaceError(_) => String::from_str("Interface error: "),
            FrameworkError::ConfigError(_) => String::from_str("Config error: "),
            FrameworkError::SystemError(_) => String::from_str("System error: "),
            FrameworkError::Unknown(_) => String::from_str("Unknown error: "),
        };
        let detail = match self {
            FrameworkError::InitError(m) => m,
            FrameworkError::MonitorError(m) => m,
            FrameworkError::MiddlewareError(m) => m,
            FrameworkError::InterfaceError(m) => m,
            FrameworkError::ConfigError(m) => m,
            FrameworkError::SystemError(m) => m,
            FrameworkError::Unknown(m) => m,
        };
        s.append(detail.as_str());
        s
    }
}

/// Error code definitions.
#[derive(Debug, Clone, Copy, PartialEq, Eq, Structural)]
pub enum ErrorCode {
    /// Success
    Success,
    /// Initialization failed
    InitFailed,
    /// Invalid parameter
    InvalidParam,
    /// Monitoring failed
    MonitorFailed,
    /// Middleware check failed
    MiddlewareCheckFailed,
    /// Out of resources
    OutOfResource,
    /// Timeout
    Timeout,
    /// Not implemented
    NotImplemented,
    /// Internal error
    InternalError,
}

impl ErrorCode {
    /// The number that stands for the code across the C interface.
    pub open spec fn number(self) -> i32 {
        match self {
            ErrorCode::Success => 0i32,
            ErrorCode::InitFailed => -1i32,
            ErrorCode::InvalidParam => -2i32,
            ErrorCode::MonitorFailed => -3i32,
            ErrorCode::MiddlewareCheckFailed => -4i32,
            ErrorCode::OutOfResource => -5i32,
            ErrorCode::Timeout => -6i32,
            ErrorCode::NotImplemented => -7i32,
            ErrorCode::InternalError => -99i32,
        }
    }

    /// The code that reports an error of each kind.
    pub open spec fn of_error(err: &FrameworkError) -> ErrorCode {
        match err {
            FrameworkError::InitError(_) => ErrorCode::InitFailed,
            FrameworkError::MonitorError(_) => ErrorCode::MonitorFailed,
            FrameworkError::MiddlewareError(_) => ErrorCode::MiddlewareCheckFailed,
            FrameworkError::InterfaceError(_) => ErrorCode::InvalidParam,
            FrameworkError::ConfigError(_) => ErrorCode::InitFailed,
            FrameworkError::SystemError(_) => ErrorCode::InternalError,
            FrameworkError::Unknown(_) => ErrorCode::InternalError,
        }
    }

    /// The name of the variant, as `Debug` writes it.
    pub open spec fn name(self) -> Seq<char> {
        match self {
            ErrorCode::Success => "Success"@,
            ErrorCode::InitFailed => "InitFailed"@,
            ErrorCode::InvalidParam => "InvalidParam"@,
            ErrorCode::MonitorFailed => "MonitorFailed"@,
            ErrorCode::MiddlewareCheckFailed => "MiddlewareCheckFailed"@,
            ErrorCode::OutOfResource => "OutOfResource"@,
            ErrorCode::Timeout => "Timeout"@,
            ErrorCode::NotImplemented => "NotImplemented"@,
            ErrorCode::InternalError => "InternalError"@,
        }
    }

    /// The number that stands for the code across the C interface.
    pub fn as_i32(self) -> (n: i32)
        ensures
            n == self.number(),
    {
        match self {
            ErrorCode::Success => 0,
            ErrorCode::InitFailed => -1,
            ErrorCode::InvalidParam => -2,
            ErrorCode::MonitorFailed => -3,
            ErrorCode::MiddlewareCheckFailed => -4,
            ErrorCode::OutOfResource => -5,
            ErrorCode::Timeout => -6,
            ErrorCode::NotImplemented => -7,
            ErrorCode::InternalError => -99,
        }
    }

    /// The code that reports `err`.
    pub fn from_error(err: &FrameworkError) -> (code: ErrorCode)
        ensures
            code == ErrorCode::of_error(err),
    {
        match err {
            FrameworkError::InitError(_) => ErrorCode::InitFailed,
            FrameworkError::MonitorError(_) => ErrorCode::MonitorFailed,
            FrameworkError::MiddlewareError(_) => ErrorCode::MiddlewareCheckFailed,
            FrameworkError::InterfaceError(_) => ErrorCode::InvalidParam,
            FrameworkError::ConfigError(_) => ErrorCode::InitFailed,
            FrameworkError::SystemError(_) => ErrorCode::InternalError,
            FrameworkError::Unknown(_) => ErrorCode::InternalError,
        }
    }

    /// The name of the variant, as `Debug` writes it.
    pub fn variant_name(self) -> (s: &'static str)
        ensures
            s@ == self.name(),
    {
        match self {
            ErrorCode::Success => "Success",
            ErrorCode::InitFailed => "InitFailed",
            ErrorCode::InvalidParam => "InvalidParam",
            ErrorCode::MonitorFailed => "MonitorFailed",
            ErrorCode::MiddlewareCheckFailed => "MiddlewareCheckFailed",
            ErrorCode::OutOfResource => "OutOfResource",
            ErrorCode::Timeout => "Timeout",
            ErrorCode::NotImplemented => "NotImplemented",
            ErrorCode::InternalError => "InternalError",
        }
    }
}

impl<'a> From<&'a FrameworkError> for ErrorCode {
    fn from(err: &'a FrameworkError) -> (code: ErrorCode) {
        ErrorCode::from_error(err)
    }
}

impl<'a> vstd::std_specs::convert::FromSpecImpl<&'a FrameworkError> for ErrorCode {
    open spec fn obeys_from_spec() -> bool {
        true
    }

    open spec fn from_spec(err: &'a FrameworkError) -> ErrorCode {
        ErrorCode::of_error(err)
    }
}

impl From<ErrorCode> for i32 {
    fn from(code: ErrorCode) -> (n: i32) {
        code.as_i32()
    }
}

impl vstd::std_specs::convert::FromSpecImpl<ErrorCode> for i32 {
    open spec fn obeys_from_spec() -> bool {
        true
    }

    open spec fn from_spec(code: ErrorCode) -> i32 {
        code.number()
    }
}

/// Error context: a code with a message, the module it came from and the
/// time at which it was made.
#[derive(Debug, Clone)]
pub struct ErrorContext {
    pub code: ErrorCode,
    pub message: String,
    pub timestamp: i64,
    pub module: String,
}

impl ErrorContext {
    /// The text that describes the context:
    /// `[module] timestamp - message (code: Name)`.
    pub open spec fn display_text(&self) -> Seq<char> {
        "["@ + self.module@ + "] "@ + signed_decimal(self.timestamp as int) + " - "@
            + self.message@ + " (code: "@ + self.code.name() + ")"@
    }

    /// A context for `code`, stamped with the current time.
    pub fn new(code: ErrorCode, message: &str, module: &str) -> (ctx: Self)
        ensures
            ctx.code == code,
            ctx.message@ == message@,
            ctx.module@ == module@,
            ctx.timestamp >= 0,
    {
        ErrorContext {
            code,
            message: String::from_str(message),
            timestamp: unix_timestamp(),
            module: String::from_str(module),
        }
    }

    /// The text that describes the context, as its `Display` would show it.
    pub fn to_display_string(&self) -> (s: String)
        ensures
            s@ == self.display_text(),
    {
        let mut s = String::from_str("[");
        s.append(self.module.as_str());
        s.append("] ");
        let ts = i64_to_decimal(self.timestamp);
        s.append(ts.as_str());
        s.append(" - ");
        s.append(self.message.as_str());
        s.append(" (code: ");
        s.append(self.code.variant_name());
        s.append(")");
        s
    }
}

} // verus!
