//! Events reported by the sidecar process, and the log records the relay
//! produces for them.

use vstd::prelude::*;

verus! {

/// One notification from the channel of a spawned child process: a chunk of
/// its standard output or standard error, a failure message, its termination
/// status, or a notification the relay does not handle.
pub enum ProcessEvent {
    Stdout(Vec<u8>),
    Stderr(Vec<u8>),
    Error(String),
    Terminated(i32),
    Other,
}

/// The mathematical model of a `ProcessEvent`.
pub enum EventModel {
    Stdout(Seq<u8>),
    Stderr(Seq<u8>),
    Error(Seq<char>),
    Terminated(int),
    Other,
}

impl View for ProcessEvent {
    type V = EventModel;

    open spec fn view(&self) -> EventModel {
        match self {
            ProcessEvent::Stdout(bytes) => EventModel::Stdout(bytes@),
            ProcessEvent::Stderr(bytes) => EventModel::Stderr(bytes@),
            ProcessEvent::Error(message) => EventModel::Error(message@),
            ProcessEvent::Terminated(status) => EventModel::Terminated(*status as int),
            ProcessEvent::Other => EventModel::Other,
        }
    }
}

/// Severity of a log record: the sink offers one operation per level.
#[derive(Clone, Copy, PartialEq, Eq, Structural, Debug)]
pub enum LogLevel {
    Info,
    Error,
}

/// One record handed to the logging sink: a severity and a free-text message.
pub struct LogRecord {
    pub level: LogLevel,
    pub message: String,
}

/// The mathematical model of a `LogRecord`.
pub struct RecordModel {
    pub level: LogLevel,
    pub message: Seq<char>,
}

impl View for LogRecord {
    type V = RecordModel;

    open spec fn view(&self) -> RecordModel {
        RecordModel { level: self.level, message: self.message@ }
    }
}

} // verus!
