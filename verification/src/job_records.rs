//! What the project's job history keeps of a runtime job: its submission,
//! each progress event the worker reports, and how it ended.
use vstd::prelude::*;
use crate::json::{as_i64, get, get_text, json_get, json_get_text, number_as_i64, JsonMember, JsonValue};
use crate::json::{is_text, members_of};
use crate::runtime::{
    dependency_failed_error, envelope_finished_at, finished_at, job_completion_state, swap_member_value, CompletedWorkerJob,
};
use crate::scheduler::QueuedRuntimeJob;
use crate::text::owned;

verus! {

/// A job as it is recorded when it is submitted.
#[derive(Debug, PartialEq)]
pub struct JobRunRecord {
    pub job_id: String,
    pub command_name: String,
    pub request_id: String,
    pub state: String,
    pub submitted_at: String,
    pub started_at: Option<String>,
    pub finished_at: Option<String>,
    pub request: JsonValue,
    pub result: Option<JsonValue>,
    pub error: Option<JsonValue>,
}

/// One progress event of a job.
#[derive(Debug, PartialEq)]
pub struct JobProgressRecord {
    pub sequence: i64,
    pub event_type: String,
    pub progress: Option<JsonValue>,
    pub scope: Option<JsonValue>,
    pub data: JsonValue,
    pub created_at: String,
}

/// How a job ended.
#[derive(Debug, PartialEq)]
pub struct JobCompletionRecord {
    pub state: String,
    pub finished_at: String,
    pub result: Option<JsonValue>,
    pub error: Option<JsonValue>,
}

/// The record of a job just submitted: `submitted`, with its request, and
/// neither started, finished nor answered yet.
pub fn job_submission_record(
    command_name: &str,
    request_payload: JsonValue,
    request_id: &str,
    job_id: &str,
    submitted_at: &str,
) -> (r: JobRunRecord)
    ensures
        r.job_id@ == job_id@,
        r.command_name@ == command_name@,
        r.request_id@ == request_id@,
        r.state@ == "submitted"@,
        r.submitted_at@ == submitted_at@,
        r.started_at is None,
        r.finished_at is None,
        r.request == request_payload,
        r.result is None,
        r.error is None,
{
    JobRunRecord {
        job_id: owned(job_id),
        command_name: owned(command_name),
        request_id: owned(request_id),
        state: owned("submitted"),
        submitted_at: owned(submitted_at),
        started_at: None,
        finished_at: None,
        request: request_payload,
        result: None,
        error: None,
    }
}

/// `v` unless it is absent or JSON `null`.
pub open spec fn present(v: Option<JsonValue>) -> Option<JsonValue> {
    match v {
        Some(JsonValue::Null) => None,
        other => other,
    }
}

fn present_value(v: Option<JsonValue>) -> (r: Option<JsonValue>)
    ensures
        r == present(v),
{
    match v {
        Some(JsonValue::Null) => None,
        other => other,
    }
}

/// The record of a progress event the worker reported: its `sequence` (0
/// unless an integer), its `event` (`progress` by default), its `progress`
/// and `scope` unless null, its `data` (an empty object by default) and its
/// `timestamp` (empty by default).
pub fn job_progress_record(event: JsonValue) -> (r: JobProgressRecord)
    ensures
        r.sequence == match json_get(event, "sequence"@) {
            Some(v) => match number_as_i64(v) {
                Some(n) => n,
                None => 0,
            },
            None => 0,
        },
        r.event_type@ == match json_get_text(event, "event"@) {
            Some(t) => t,
            None => "progress"@,
        },
        r.progress == present(json_get(event, "progress"@)),
        r.scope == present(json_get(event, "scope"@)),
        match json_get(event, "data"@) {
            Some(d) => r.data == d,
            None => r.data is Object && r.data->Object_0@.len() == 0,
        },
        r.created_at@ == match json_get_text(event, "timestamp"@) {
            Some(t) => t,
            None => Seq::<char>::empty(),
        },
{
    proof {
        reveal_strlit("progress");
        reveal_strlit("scope");
        reveal_strlit("data");
        assert("progress"@.len() == 8 && "scope"@.len() == 5 && "data"@.len() == 4);
    }
    let sequence = match get(&event, "sequence") {
        Some(v) => match as_i64(v) {
            Some(n) => n,
            None => 0,
        },
        None => 0,
    };
    let event_type = match get_text(&event, "event") {
        Some(t) => t.clone(),
        None => owned("progress"),
    };
    let created_at = match get_text(&event, "timestamp") {
        Some(t) => t.clone(),
        None => String::new(),
    };
    let (progress, scope, data) = match event {
        JsonValue::Object(members) => {
            let mut members = members;
            let ghost before = members@;
            let progress = swap_member_value(&mut members, "progress", JsonValue::Null);
            let ghost after_progress = members@;
            let scope = swap_member_value(&mut members, "scope", JsonValue::Null);
            let data = swap_member_value(&mut members, "data", JsonValue::Null);
            proof {
                assert(crate::json::member_value(after_progress, "scope"@) == crate::json::member_value(
                    before,
                    "scope"@,
                ));
                assert(crate::json::member_value(after_progress, "data"@) == crate::json::member_value(
                    before,
                    "data"@,
                ));
            }
            (progress, scope, data)
        },
        _ => (None, None, None),
    };
    let data = match data {
        Some(d) => d,
        None => JsonValue::Object(Vec::<JsonMember>::new()),
    };
    JobProgressRecord {
        sequence,
        event_type,
        progress: present_value(progress),
        scope: present_value(scope),
        data,
        created_at,
    }
}

/// The record of how a job ended: `succeeded` with the worker's whole reply
/// when it finished, else `cancelled` or `failed` with the reply's `error`;
/// the finish time is the reply's `timing.finished_at` (empty without one).
pub fn job_completion_record(completed: CompletedWorkerJob) -> (r: JobCompletionRecord)
    ensures
        r.state@ == if completed.result.terminal_type@ == "job_finished"@ {
            "succeeded"@
        } else if completed.result.terminal_type@ == "job_cancelled"@ {
            "cancelled"@
        } else {
            "failed"@
        },
        r.finished_at@ == envelope_finished_at(completed.result.envelope),
        completed.result.terminal_type@ == "job_finished"@ ==> r.result == Some(completed.result.envelope)
            && r.error is None,
        completed.result.terminal_type@ != "job_finished"@ ==> r.result is None && r.error == json_get(
            completed.result.envelope,
            "error"@,
        ),
{
    let state = job_completion_state(completed.result.terminal_type.as_str());
    let finished = finished_at(&completed.result.envelope);
    if crate::text::text_eq(completed.result.terminal_type.as_str(), "job_finished") {
        JobCompletionRecord { state, finished_at: finished, result: Some(completed.result.envelope), error: None }
    } else {
        let error = match completed.result.envelope {
            JsonValue::Object(members) => {
                let mut members = members;
                swap_member_value(&mut members, "error", JsonValue::Null)
            },
            _ => None,
        };
        JobCompletionRecord { state, finished_at: finished, result: None, error }
    }
}


/// The records of a queued job of an open project that was skipped because
/// `dependency_job_id` failed: its submission, and its end as `skipped`
/// with a `dependency_failed` error. A job of no project leaves no record.
pub fn skipped_dependent_records(job: QueuedRuntimeJob, dependency_job_id: &str, finished_at: &str) -> (r: Option<
    (JobRunRecord, JobCompletionRecord),
>)
    ensures
        r is None <==> job.project_path is None,
        r matches Some((run, done)) ==> {
            &&& run.job_id@ == job.job_id@
            &&& run.command_name@ == job.command_name@
            &&& run.request_id@ == job.request_id@
            &&& run.state@ == "submitted"@
            &&& run.submitted_at@ == job.submitted_at@
            &&& run.started_at is None && run.finished_at is None
            &&& run.request == job.persisted_request_payload
            &&& run.result is None && run.error is None
            &&& done.state@ == "skipped"@
            &&& done.finished_at@ == finished_at@
            &&& done.result is None
            &&& done.error matches Some(e) && e is Object && members_of(e).len() == 3
            &&& members_of(done.error->0)[0].key@ == "message"@
            &&& is_text(members_of(done.error->0)[0].value, "Queued job skipped because its dependency failed."@)
            &&& members_of(done.error->0)[1].key@ == "code"@
            &&& is_text(members_of(done.error->0)[1].value, "dependency_failed"@)
            &&& members_of(done.error->0)[2].key@ == "dependencyJobId"@
            &&& is_text(members_of(done.error->0)[2].value, dependency_job_id@)
        },
{
    if job.project_path.is_none() {
        return None;
    }
    let QueuedRuntimeJob { job_id, request_id, command_name, persisted_request_payload, submitted_at, .. } = job;
    let run = job_submission_record(
        command_name.as_str(),
        persisted_request_payload,
        request_id.as_str(),
        job_id.as_str(),
        submitted_at.as_str(),
    );
    let done = JobCompletionRecord {
        state: owned("skipped"),
        finished_at: owned(finished_at),
        result: None,
        error: Some(dependency_failed_error(dependency_job_id)),
    };
    Some((run, done))
}

} // verus!
