//! Simple colored logger: the format of one log line.
use vstd::prelude::*;

verus! {

/// Log level for output.
#[derive(Debug, Clone, Copy, PartialEq, Eq, Structural)]
pub enum LogLevel {
    Debug,
    Info,
    Warn,
    Error,
}

/// The name of a level as it appears in a log line.
pub open spec fn level_label(level: LogLevel) -> Seq<char> {
    match level {
        LogLevel::Debug => "DEBUG"@,
        LogLevel::Info => "INFO"@,
        LogLevel::Warn => "WARN"@,
        LogLevel::Error => "ERROR"@,
    }
}

/// The ANSI color code of a level.
pub open spec fn level_color(level: LogLevel) -> Seq<char> {
    match level {
        LogLevel::Debug => "36"@,
        LogLevel::Info => "32"@,
        LogLevel::Warn => "33"@,
        LogLevel::Error => "31"@,
    }
}

/// One log line: `[LEVEL]` in the level's color, the timestamp, ` - `, the message.
pub open spec fn log_line_spec(level: LogLevel, timestamp: Seq<char>, message: Seq<char>) -> Seq<
    char,
> {
    "\x1b["@ + level_color(level) + "m"@ + "["@ + level_label(level) + "]"@ + "\x1b[0m"@ + timestamp
        + " - "@ + message
}

impl LogLevel {
    pub fn label(&self) -> (res: &'static str)
        ensures
            res@ == level_label(*self),
    {
        match self {
            Self::Debug => "DEBUG",
            Self::Info => "INFO",
            Self::Warn => "WARN",
            Self::Error => "ERROR",
        }
    }

    pub fn ansi_color(&self) -> (res: &'static str)
        ensures
            res@ == level_color(*self),
    {
        match self {
            Self::Debug => "36",
            Self::Info => "32",
            Self::Warn => "33",
            Self::Error => "31",
        }
    }

    /// Error lines go to standard error, all others to standard output.
    pub fn writes_to_stderr(&self) -> (res: bool)
        ensures
            res == (*self == LogLevel::Error),
    {
        match self {
            Self::Error => true,
            _ => false,
        }
    }
}

/// Formats one log line: `[LEVEL]yyyy-mm-ddThh:mm:ss.sss+08:00 - message`, the level in color.
pub fn format_log_line(level: LogLevel, timestamp: &str, message: &str) -> (res: String)
    ensures
        res@ == log_line_spec(level, timestamp@, message@),
{
    let mut line = String::from_str("\x1b[");
    line.append(level.ansi_color());
    line.append("m");
    line.append("[");
    line.append(level.label());
    line.append("]");
    line.append("\x1b[0m");
    line.append(timestamp);
    line.append(" - ");
    line.append(message);
    line
}

} // verus!
