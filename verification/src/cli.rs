//! The configuration of the management server: where it comes from, and
//! the settings of its logger.

use vstd::prelude::*;

verus! {

/// The level from which events are logged.
#[derive(Debug, Clone, Copy, PartialEq, Eq, Structural, PartialOrd, Ord, Hash)]
pub enum TraceLevel {
    Trace,
    Debug,
    Info,
    Warn,
    Error,
}

/// Logger Configuration passed on initialization
#[derive(Clone, Debug, PartialEq, Eq)]
pub struct LoggerConfig {
    /// File to save logs
    pub log_file: Option<String>,
    /// Number of log files
    pub log_amount: usize,
    /// Max size of a single log file, in bytes
    pub log_size: u64,
    /// Tracing Level
    pub trace_level: TraceLevel,
}

impl LoggerConfig {
    /// Events are logged from the level of information.
    pub fn tracing_default() -> (r: TraceLevel)
        ensures
            r == TraceLevel::Info,
    {
        TraceLevel::Info
    }

    /// Five log files are kept.
    pub fn default_log_amount() -> (r: usize)
        ensures
            r == 5,
    {
        5
    }

    /// A log file holds up to a million bytes.
    pub fn default_log_size() -> (r: u64)
        ensures
            r == 1_000_000,
    {
        1_000_000
    }
}

impl Default for LoggerConfig {
    /// No log file, five files of a million bytes, events from the level of information.
    fn default() -> (r: Self)
        ensures
            r.log_file is None,
            r.log_amount == 5,
            r.log_size == 1_000_000,
            r.trace_level == TraceLevel::Info,
    {
        LoggerConfig {
            log_file: None,
            log_amount: Self::default_log_amount(),
            log_size: Self::default_log_size(),
            trace_level: Self::tracing_default(),
        }
    }
}

/// Why the configuration could not be had.
#[derive(Debug, Clone, Copy, PartialEq, Eq, Structural)]
pub enum Error {
    /// configuration error: couldn't read from file
    FromFile,
}

/// Why the logger could not be set up.
#[derive(Debug, Clone, Copy, PartialEq, Eq, Structural)]
pub enum LoggerError {
    /// there is no logger configuration
    EmptyConfig,
    /// no log file is named
    NoFileName,
    /// the log file cannot be used
    CantOpenFile,
}

/// The options of the command line: the default configuration, or a file.
#[derive(Debug, Clone, PartialEq, Eq)]
pub struct Args {
    /// If set, passes default configuration to the server
    pub default: bool,
    /// Server configuration file
    pub config_file: Option<String>,
}

/// Where the configuration comes from.
#[derive(Debug, Clone, PartialEq, Eq)]
pub enum ConfigSource {
    /// The default configuration.
    Default,
    /// The file with this path.
    File(String),
}

impl Args {
    /// Where the configuration comes from: the default where it is asked
    /// for, else the file; none where neither is given.
    pub fn config_source(&self) -> (r: Option<ConfigSource>)
        ensures
            self.default ==> r == Some(ConfigSource::Default),
            !self.default ==> match self.config_file {
                Some(f) => r matches Some(ConfigSource::File(g)) && g@ == f@,
                None => r is None,
            },
    {
        if self.default {
            Some(ConfigSource::Default)
        } else {
            match &self.config_file {
                Some(f) => Some(ConfigSource::File(f.clone())),
                None => None,
            }
        }
    }
}

} // verus!
