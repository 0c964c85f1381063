//! Log file naming and log levels.

use vstd::prelude::*;

verus! {

/// Largest size of the log file before it is rotated (20 MiB).
pub const MAX_LOG_FILE_SIZE: u64 = 20971520;

/// Target name of the log file (the logger adds `.log`).
pub const LANZOU_LOG_NAME: &'static str = "lanzou-next";

/// Name of the log file on disk.
pub const LANZOU_LOG_FILE: &'static str = "lanzou-next.log";

/// Levels a user may choose.
pub open spec fn is_log_level(level: Seq<char>) -> bool {
    level == "error"@ || level == "warn"@ || level == "info"@ || level == "debug"@ || level
        == "trace"@
}

/// Whether `level` names a log level: `error`, `warn`, `info`, `debug` or
/// `trace`.
pub fn valid_log_level(level: &str) -> (r: bool)
    ensures
        r == is_log_level(level@),
{
    let s = crate::text::owned(level);
    let e = crate::text::owned("error");
    let w = crate::text::owned("warn");
    let i = crate::text::owned("info");
    let d = crate::text::owned("debug");
    let t = crate::text::owned("trace");
    s == e || s == w || s == i || s == d || s == t
}

/// Maximum level of records that are logged.
#[derive(Debug, Clone, Copy, PartialEq, Eq)]
pub enum LogLevel {
    Error,
    Warn,
    Info,
    Debug,
    Trace,
}

/// The level named by `level`; any other text means `Warn`.
pub open spec fn log_level_spec(level: Seq<char>) -> LogLevel {
    if level == "error"@ {
        LogLevel::Error
    } else if level == "debug"@ {
        LogLevel::Debug
    } else if level == "info"@ {
        LogLevel::Info
    } else if level == "trace"@ {
        LogLevel::Trace
    } else {
        LogLevel::Warn
    }
}

/// The log level named by `level`, falling back to `Warn`.
pub fn log_level_filter(level: &str) -> (r: LogLevel)
    ensures
        r == log_level_spec(level@),
{
    let s = crate::text::owned(level);
    if s == crate::text::owned("error") {
        LogLevel::Error
    } else if s == crate::text::owned("debug") {
        LogLevel::Debug
    } else if s == crate::text::owned("info") {
        LogLevel::Info
    } else if s == crate::text::owned("trace") {
        LogLevel::Trace
    } else {
        LogLevel::Warn
    }
}

/// Every valid level name maps to its own level, and only `warn` or an
/// invalid name maps to `Warn`.
pub proof fn law_log_level_roundtrip(level: Seq<char>)
    ensures
        log_level_spec(level) == LogLevel::Warn <==> (level == "warn"@ || !is_log_level(level)),
{
    reveal_strlit("error");
    reveal_strlit("warn");
    reveal_strlit("info");
    reveal_strlit("debug");
    reveal_strlit("trace");
    assert("warn"@.len() == 4 && "error"@.len() == 5 && "debug"@.len() == 5 && "trace"@.len() == 5);
    assert("warn"@[0] != "info"@[0]);
    assert("error"@[0] != "debug"@[0] && "error"@[0] != "trace"@[0] && "debug"@[0] != "trace"@[0]);
    assert("warn"@ != "error"@ && "warn"@ != "info"@ && "warn"@ != "debug"@ && "warn"@ != "trace"@);
}

} // verus!
