//! Host errors, worker status and runtime events.
use vstd::prelude::*;
use crate::json::JsonValue;

verus! {

/// An error returned by a host operation; the variant tells the kind of failure.
#[derive(Debug)]
pub enum HostError {
    Validation(String),
    Conflict(String),
    Project(String),
    Protocol(String),
    Worker(String),
}

impl HostError {
    /// The human-readable message of the error.
    pub open spec fn msg(&self) -> Seq<char> {
        match self {
            HostError::Validation(m) => m@,
            HostError::Conflict(m) => m@,
            HostError::Project(m) => m@,
            HostError::Protocol(m) => m@,
            HostError::Worker(m) => m@,
        }
    }

    /// The message of the error.
    pub fn message(&self) -> (r: String)
        ensures
            r@ == self.msg(),
    {
        match self {
            HostError::Validation(m) => m.clone(),
            HostError::Conflict(m) => m.clone(),
            HostError::Project(m) => m.clone(),
            HostError::Protocol(m) => m.clone(),
            HostError::Worker(m) => m.clone(),
        }
    }
}

/// Whether the desktop worker can take a job.
#[derive(Clone, Copy, Debug, PartialEq, Eq, Structural)]
pub enum WorkerStatus {
    Starting,
    Ready,
    Busy,
    Error,
}

/// An event reported to the desktop frontend about a runtime job.
#[derive(Debug, PartialEq)]
pub struct RuntimeJobEvent {
    pub event_type: String,
    pub command_name: String,
    pub worker_status: WorkerStatus,
    pub request_id: Option<String>,
    pub job_id: Option<String>,
    pub payload: JsonValue,
}

/// Receives runtime job events; implemented by the desktop shell.
pub trait RuntimeEventSink: Send + Sync {
    fn emit_runtime_event(&self, event: RuntimeJobEvent);
}

/// Hands one event to the sink.
pub fn emit_runtime_job_event(event_sink: &dyn RuntimeEventSink, event: RuntimeJobEvent) {
    event_sink.emit_runtime_event(event);
}

} // verus!
