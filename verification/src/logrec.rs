//! Log records forwarded from the presentation process to the shell's
//! logger.

use vstd::prelude::*;

verus! {

/// The severity of a log record, most severe first.
#[derive(Clone, Copy, Debug, PartialEq, Eq, Structural)]
pub enum LogLevel {
    Error,
    Warn,
    Info,
    Debug,
    Trace,
}

/// One log record: the transport carries these from the presentation
/// process to the shell, which writes them through its logger.
#[derive(Clone, Debug, PartialEq)]
pub struct LogRecord {
    pub level: LogLevel,
    pub target: String,
    pub file: Option<String>,
    pub line: Option<u32>,
    pub args: String,
}

} // verus!
