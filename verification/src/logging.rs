//! Logging configuration as plain data.
//!
//! The library only decides what the logging should look like; wiring it
//! into a log sink happens outside.

use vstd::prelude::*;

verus! {

/// Severity threshold of the log output.
#[derive(Debug, Clone, Copy, PartialEq, Eq, Structural)]
pub enum LogLevel {
    Trace,
    Debug,
    Info,
    Warn,
    Error,
}

impl Default for LogLevel {
    /// Informational logging by default.
    fn default() -> (r: Self)
        ensures
            r is Info,
    {
        LogLevel::Info
    }
}

/// Where and how the service logs.
#[derive(Debug, Clone)]
pub struct LoggingConfig {
    /// Directory the log files go to, as path text.
    pub log_dir: Vec<u8>,
    /// Severity threshold.
    pub level: LogLevel,
    /// Whether to mirror the log to the console.
    pub console_output: bool,
    /// Whether console output uses colors.
    pub ansi: bool,
}

/// The bytes of `"logs"`, the default log directory.
pub open spec fn default_log_dir_spec() -> Seq<u8> {
    seq![108u8, 111u8, 103u8, 115u8]
}

impl Default for LoggingConfig {
    /// Log to `logs/` at the informational level, console off.
    fn default() -> (r: Self)
        ensures
            r.log_dir@ == default_log_dir_spec(),
            r.level is Info,
            !r.console_output,
            !r.ansi,
    {
        let mut dir: Vec<u8> = Vec::new();
        dir.push(108u8);
        dir.push(111u8);
        dir.push(103u8);
        dir.push(115u8);
        proof {
            assert(dir@ =~= default_log_dir_spec());
        }
        Self { log_dir: dir, level: LogLevel::Info, console_output: false, ansi: false }
    }
}

impl LoggingConfig {
    /// The default configuration.
    pub fn new() -> (r: Self)
        ensures
            r.log_dir@ == default_log_dir_spec(),
            r.level is Info,
            !r.console_output,
            !r.ansi,
    {
        Self::default()
    }

    /// Set the log directory.
    pub fn with_log_dir(self, dir: Vec<u8>) -> (r: Self)
        ensures
            r == (LoggingConfig { log_dir: dir, ..self }),
    {
        LoggingConfig { log_dir: dir, ..self }
    }

    /// Set the severity threshold.
    pub fn with_level(self, level: LogLevel) -> (r: Self)
        ensures
            r == (LoggingConfig { level, ..self }),
    {
        LoggingConfig { level, ..self }
    }

    /// Set whether the console mirrors the log.
    pub fn with_console_output(self, output: bool) -> (r: Self)
        ensures
            r == (LoggingConfig { console_output: output, ..self }),
    {
        LoggingConfig { console_output: output, ..self }
    }

    /// Set whether console output uses colors.
    pub fn with_ansi(self, ansi: bool) -> (r: Self)
        ensures
            r == (LoggingConfig { ansi, ..self }),
    {
        LoggingConfig { ansi, ..self }
    }
}

} // verus!
