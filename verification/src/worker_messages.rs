//! Handling a message the worker sends while it runs a job: what it does to
//! the scheduler, what the host records of it, and the event that relays it
//! to the frontend; and the event that relays how the worker ended a job.
use vstd::prelude::*;
use crate::errors::{HostError, RuntimeJobEvent, WorkerStatus};
use crate::json::{is_count, is_text, json_get, json_get_text, JsonValue};
use crate::runtime::{
    event_of, job_progress_job_id, job_started_details, merge_request_scope, merge_scheduler_snapshot, snapshot_key,
    request_question_id, request_student_ref, terminal_worker_status, worker_message_event, CompletedWorkerJob,
    ProtocolMessage, WorkerJobResult,
};
use crate::scheduler::{active_with_id, describes_active_jobs, RuntimeScheduler};
use crate::seqs::first_index;
use crate::text::{opt_text, owned, text_eq};

verus! {

/// What the host records of a worker message in the open project.
#[derive(Debug, PartialEq)]
pub enum WorkerMessageRecord {
    /// Nothing is recorded.
    Nothing,
    /// The job started at the time the worker reported.
    JobStarted { job_id: String, started_at: String },
    /// The job reported progress, with the message's payload.
    JobProgress { job_id: String },
}

/// A handled worker message: what to record, then the event to relay.
#[derive(Debug)]
pub struct HandledWorkerMessage {
    pub record: WorkerMessageRecord,
    pub event: RuntimeJobEvent,
}

/// `after` is `before` once the worker reported that `job_id` started at
/// `started_at`: the running job of that id (if any) takes that start time,
/// and nothing else changes.
pub open spec fn records_job_start(
    before: RuntimeScheduler,
    after: RuntimeScheduler,
    job_id: Seq<char>,
    started_at: Seq<char>,
) -> bool {
    let a = first_index(before.active(), active_with_id(job_id));
    &&& after.pending() == before.pending()
    &&& after.max_concurrent() == before.max_concurrent()
    &&& a == before.active().len() ==> after.active() == before.active()
    &&& a < before.active().len() ==> {
        &&& after.active().len() == before.active().len()
        &&& forall|k: int| 0 <= k < before.active().len() && k != a ==> after.active()[k] == before.active()[k]
        &&& after.active()[a].job == before.active()[a].job
        &&& after.active()[a].cancel_requested == before.active()[a].cancel_requested
        &&& opt_text(after.active()[a].started_at) == Some(started_at)
    }
}

/// `relayed` is the payload of a worker message (`original`) as relayed:
/// an object payload gains the scheduler's counts and running jobs, the
/// intake pipeline's progress (`intake`: whether it runs, its total and its
/// index) while it runs, and the question and student of the persisted
/// request, and keeps its other members; any other payload is relayed as it
/// is.
pub open spec fn relays_payload(
    relayed: JsonValue,
    original: JsonValue,
    scheduler: RuntimeScheduler,
    intake: (bool, usize, usize),
    persisted: JsonValue,
) -> bool {
    &&& !(original is Object) ==> relayed == original
    &&& original is Object ==> {
        &&& relayed is Object
        &&& json_get(relayed, "schedulerActiveJobs"@) matches Some(v) && is_count(v, scheduler.active().len())
        &&& json_get(relayed, "schedulerPendingJobs"@) matches Some(v) && is_count(v, scheduler.pending().len())
        &&& json_get(relayed, "schedulerActiveJobDetails"@) matches Some(v) && describes_active_jobs(
            v,
            scheduler.active(),
        )
        &&& request_question_id(persisted) matches Some(q) ==> (json_get(relayed, "questionId"@) matches Some(v)
            && is_text(v, q))
        &&& request_student_ref(persisted) matches Some(s) ==> {
            &&& json_get(relayed, "studentRef"@) matches Some(v) && is_text(v, s)
            &&& json_get(relayed, "student_ref"@) matches Some(v) && is_text(v, s)
        }
        &&& intake.0 ==> {
            &&& json_get(relayed, "intakePipelineActive"@) == Some(JsonValue::Bool(true))
            &&& json_get(relayed, "intakePipelineRedactTotal"@) matches Some(v) && is_count(v, intake.1 as nat)
            &&& json_get(relayed, "intakePipelineRedactIndex"@) matches Some(v) && is_count(v, intake.2 as nat)
        }
        &&& forall|k: Seq<char>|
            !snapshot_key(k, intake.0) && !scope_key(k) ==> #[trigger] json_get(relayed, k) == json_get(original, k)
    }
}

/// Whether `k` is a key that scopes a payload to a request's question or
/// student.
pub open spec fn scope_key(k: Seq<char>) -> bool {
    k == "questionId"@ || k == "studentRef"@ || k == "student_ref"@ || k == "scope"@
}

/// The error a worker message that lacks what its type needs is refused
/// with, if any.
pub open spec fn worker_message_error(message: ProtocolMessage, has_project: bool) -> Option<Seq<char>> {
    if message.message_type@ == "job_started"@ {
        if message.job_id is None {
            Some("Worker job_started message was missing job_id."@)
        } else if json_get_text(message.payload, "timestamp"@) is None {
            Some("Worker job_started message was missing timestamp."@)
        } else {
            None
        }
    } else if message.message_type@ == "job_progress"@ && has_project && message.job_id is None {
        Some("Worker job_progress message was missing job_id."@)
    } else {
        None
    }
}

/// Handles a message the worker sent while running a job of
/// `command_name`. A `job_started` message records the job's start time in
/// the scheduler; with a project open, its start (or a `job_progress`
/// message's progress) is to be recorded in the project. The message is
/// relayed to the frontend with the scheduler's snapshot (taken after the
/// start is recorded) and the persisted request's scope merged into its
/// payload. A message that lacks its job id or start time is a protocol
/// error, and then nothing changes.
pub fn handle_worker_message(
    scheduler: &mut RuntimeScheduler,
    intake_pipeline_active: bool,
    intake_redact_total: usize,
    intake_redact_index: usize,
    command_name: &str,
    has_project: bool,
    persisted_request_payload: &JsonValue,
    message: ProtocolMessage,
) -> (r: Result<HandledWorkerMessage, HostError>)
    ensures
        worker_message_error(message, has_project) matches Some(m) ==> (r matches Err(e) && e is Protocol
            && e.msg() == m),
        r is Err ==> *final(scheduler) == *old(scheduler),
        r is Ok <==> worker_message_error(message, has_project) is None,
        r matches Ok(h) ==> {
            &&& message.message_type@ == "job_started"@ ==> {
                let job_id = opt_text(message.job_id)->0;
                let started_at = json_get_text(message.payload, "timestamp"@)->0;
                &&& records_job_start(*old(scheduler), *final(scheduler), job_id, started_at)
                &&& has_project ==> (h.record matches WorkerMessageRecord::JobStarted { job_id: j, started_at: t }
                    && j@ == job_id && t@ == started_at)
            }
            &&& message.message_type@ != "job_started"@ ==> *final(scheduler) == *old(scheduler)
            &&& message.message_type@ == "job_progress"@ && has_project ==> (h.record matches
                WorkerMessageRecord::JobProgress { job_id: j } && Some(j@) == opt_text(message.job_id))
            &&& !has_project || (message.message_type@ != "job_started"@ && message.message_type@
                != "job_progress"@) ==> h.record == WorkerMessageRecord::Nothing
            &&& event_of(
                h.event,
                message.message_type@,
                command_name@,
                if message.message_type@ == "job_started"@ || message.message_type@ == "job_progress"@ {
                    WorkerStatus::Busy
                } else {
                    WorkerStatus::Ready
                },
                opt_text(message.request_id),
                opt_text(message.job_id),
            )
            &&& relays_payload(
                h.event.payload,
                message.payload,
                *final(scheduler),
                (intake_pipeline_active, intake_redact_total, intake_redact_index),
                *persisted_request_payload,
            )
        },
{
    proof {
        reveal_strlit("schedulerActiveJobs");
        reveal_strlit("schedulerActiveJobDetails");
        reveal_strlit("schedulerPendingJobs");
        reveal_strlit("questionId");
        reveal_strlit("studentRef");
        reveal_strlit("student_ref");
        reveal_strlit("scope");
        reveal_strlit("job_started");
        reveal_strlit("job_progress");
        assert("job_progress"@.len() != "job_started"@.len());
    }
    let record = if text_eq(message.message_type.as_str(), "job_started") {
        let (job_id, started_at) = match job_started_details(&message) {
            Ok(d) => d,
            Err(e) => {
                return Err(e);
            },
        };
        scheduler.mark_job_started(job_id.as_str(), started_at.as_str());
        if has_project {
            WorkerMessageRecord::JobStarted { job_id, started_at }
        } else {
            WorkerMessageRecord::Nothing
        }
    } else if text_eq(message.message_type.as_str(), "job_progress") && has_project {
        match job_progress_job_id(&message) {
            Ok(job_id) => WorkerMessageRecord::JobProgress { job_id },
            Err(e) => {
                return Err(e);
            },
        }
    } else {
        WorkerMessageRecord::Nothing
    };
    let ghost original = message.payload;
    let ProtocolMessage { message_type, request_id, job_id, payload } = message;
    let mut payload = payload;
    merge_scheduler_snapshot(
        &mut payload,
        scheduler,
        intake_pipeline_active,
        intake_redact_total,
        intake_redact_index,
    );
    let ghost snapshot = payload;
    merge_request_scope(&mut payload, persisted_request_payload);
    proof {
        if original is Object {
            assert("schedulerActiveJobs"@.len() == 19);
            assert("schedulerPendingJobs"@.len() == 20);
            assert("schedulerActiveJobDetails"@.len() == 25);
            assert("questionId"@.len() == 10);
            assert("studentRef"@.len() == 10);
            assert("student_ref"@.len() == 11);
            assert("scope"@.len() == 5);
            assert(json_get(payload, "schedulerActiveJobs"@) == json_get(snapshot, "schedulerActiveJobs"@));
            assert(json_get(payload, "schedulerPendingJobs"@) == json_get(snapshot, "schedulerPendingJobs"@));
            assert(json_get(payload, "schedulerActiveJobDetails"@) == json_get(
                snapshot,
                "schedulerActiveJobDetails"@,
            ));
            reveal_strlit("intakePipelineActive");
            reveal_strlit("intakePipelineRedactTotal");
            reveal_strlit("intakePipelineRedactIndex");
            assert("intakePipelineActive"@.len() == 20);
            assert("intakePipelineRedactTotal"@.len() == 25);
            assert("intakePipelineRedactIndex"@.len() == 25);
            assert(json_get(payload, "intakePipelineActive"@) == json_get(snapshot, "intakePipelineActive"@));
            assert(json_get(payload, "intakePipelineRedactTotal"@) == json_get(snapshot, "intakePipelineRedactTotal"@));
            assert(json_get(payload, "intakePipelineRedactIndex"@) == json_get(snapshot, "intakePipelineRedactIndex"@));
        }
    }
    let relayed = ProtocolMessage { message_type, request_id, job_id, payload: JsonValue::Null };
    let event = worker_message_event(command_name, &relayed, payload);
    Ok(HandledWorkerMessage { record, event })
}


/// `relayed` is `original` with the scheduler's snapshot merged in: an
/// object gains the scheduler's counts and running jobs, and the intake
/// pipeline's progress while it runs, and keeps its other members; any other
/// value is kept as it is.
pub open spec fn carries_snapshot(
    relayed: JsonValue,
    original: JsonValue,
    scheduler: RuntimeScheduler,
    intake: (bool, usize, usize),
) -> bool {
    &&& !(original is Object) ==> relayed == original
    &&& original is Object ==> {
        &&& relayed is Object
        &&& json_get(relayed, "schedulerActiveJobs"@) matches Some(v) && is_count(v, scheduler.active().len())
        &&& json_get(relayed, "schedulerPendingJobs"@) matches Some(v) && is_count(v, scheduler.pending().len())
        &&& json_get(relayed, "schedulerActiveJobDetails"@) matches Some(v) && describes_active_jobs(
            v,
            scheduler.active(),
        )
        &&& intake.0 ==> {
            &&& json_get(relayed, "intakePipelineActive"@) == Some(JsonValue::Bool(true))
            &&& json_get(relayed, "intakePipelineRedactTotal"@) matches Some(v) && is_count(v, intake.1 as nat)
            &&& json_get(relayed, "intakePipelineRedactIndex"@) matches Some(v) && is_count(v, intake.2 as nat)
        }
        &&& forall|k: Seq<char>| !snapshot_key(k, intake.0) ==> #[trigger] json_get(relayed, k) == json_get(original, k)
    }
}

/// The event that relays how the worker ended the job `job_id` of request
/// `request_id`: the terminal message's type, and its payload with the
/// scheduler's snapshot merged in; the worker is ready again.
pub fn terminal_runtime_event(
    scheduler: &RuntimeScheduler,
    intake_pipeline_active: bool,
    intake_redact_total: usize,
    intake_redact_index: usize,
    command_name: &str,
    request_id: &str,
    job_id: &str,
    completed: CompletedWorkerJob,
) -> (e: RuntimeJobEvent)
    ensures
        event_of(
            e,
            completed.result.terminal_type@,
            command_name@,
            WorkerStatus::Ready,
            Some(request_id@),
            Some(job_id@),
        ),
        carries_snapshot(
            e.payload,
            completed.result.terminal_payload,
            *scheduler,
            (intake_pipeline_active, intake_redact_total, intake_redact_index),
        ),
{
    let CompletedWorkerJob { job_id: _, result } = completed;
    let WorkerJobResult { terminal_type, terminal_payload, envelope: _, events: _ } = result;
    let mut payload = terminal_payload;
    merge_scheduler_snapshot(
        &mut payload,
        scheduler,
        intake_pipeline_active,
        intake_redact_total,
        intake_redact_index,
    );
    let worker_status = terminal_worker_status(terminal_type.as_str());
    RuntimeJobEvent {
        event_type: terminal_type,
        command_name: owned(command_name),
        worker_status,
        request_id: Some(owned(request_id)),
        job_id: Some(owned(job_id)),
        payload,
    }
}

} // verus!
