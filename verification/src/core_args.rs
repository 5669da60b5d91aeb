//! Program arguments of the service.

use vstd::prelude::*;

verus! {

/// How much the service logs.
#[derive(Clone, Copy, Debug, PartialEq, Eq, Structural)]
pub enum LogLevel {
    ERROR,
    WARN,
    INFO,
    DEBUG,
    TRACE,
}

/// The arguments the service starts with.
#[derive(Clone, Debug)]
pub struct CoreArgs {
    /// Dev mode.
    pub dev: bool,
    /// Main application tick, in seconds.
    pub cron_time: u64,
    /// Scheduler tick.
    pub sch_time: String,
    /// Max count per protected endpoint.
    pub max_endpoint_count: u64,
    /// Log level.
    pub log_level: LogLevel,
}

} // verus!
