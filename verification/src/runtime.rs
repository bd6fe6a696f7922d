//! Decisions of the desktop runtime: which worker status to show, how a
//! finished job updates the scheduler and the global runtime error, what the
//! worker's messages and the runtime's own events carry, and the notices of
//! the project session.
use vstd::prelude::*;
use crate::errors::{HostError, RuntimeJobEvent, WorkerStatus};
use crate::json::{
    get, get_bool, get_text, insert_member, is_text, json_get, json_get_bool, json_get_text, json_text,
    member, members_of, object_insert, JsonMember, JsonValue, member_value,
};
use crate::messages::concat3;
use crate::scheduler::{
    active_other_than, kept_on_failure, payload_question_id, question_id_from_worker_payload,
    release_all, skipped_on_failure, QueuedRuntimeJob, RuntimeScheduler,
};
use crate::seqs::keep;
use crate::text::{blank, is_blank, nat_decimal, opt_text, owned, push_count, push_text, text_eq};

verus! {

/// A message the worker sends about a job.
#[derive(Debug, PartialEq)]
pub struct ProtocolMessage {
    pub message_type: String,
    pub request_id: Option<String>,
    pub job_id: Option<String>,
    pub payload: JsonValue,
}

/// What the worker reported when a job ended.
#[derive(Debug, PartialEq)]
pub struct WorkerJobResult {
    /// `job_finished`, `job_failed`, `job_cancelled`, ...
    pub terminal_type: String,
    pub terminal_payload: JsonValue,
    pub envelope: JsonValue,
    pub events: Vec<JsonValue>,
}

/// A job the worker ended.
#[derive(Debug, PartialEq)]
pub struct CompletedWorkerJob {
    pub job_id: String,
    pub result: WorkerJobResult,
}

// ---------------------------------------------------------------------------
// Worker status and the global runtime error
// ---------------------------------------------------------------------------

/// The worker status the shell shows: without a worker, `Error` when a
/// runtime error is recorded and `Busy` otherwise; with one, the scheduler's.
pub fn current_worker_status(worker_available: bool, has_runtime_error: bool, scheduler: &RuntimeScheduler) -> (r:
    WorkerStatus)
    ensures
        !worker_available && has_runtime_error ==> r == WorkerStatus::Error,
        !worker_available && !has_runtime_error ==> r == WorkerStatus::Busy,
        worker_available ==> r == if scheduler.active().len() > 0 {
            WorkerStatus::Busy
        } else {
            WorkerStatus::Ready
        },
{
    if !worker_available {
        if has_runtime_error {
            WorkerStatus::Error
        } else {
            WorkerStatus::Busy
        }
    } else {
        scheduler.worker_status()
    }
}

/// The worker status after a job ends: always `Ready`.
pub fn terminal_worker_status(terminal_type: &str) -> (r: WorkerStatus)
    ensures
        r == WorkerStatus::Ready,
{
    WorkerStatus::Ready
}

/// The worker status a worker message implies: `Busy` while a job starts or
/// progresses, `Ready` otherwise.
pub fn message_worker_status(message_type: &str) -> (r: WorkerStatus)
    ensures
        r == if message_type@ == "job_started"@ || message_type@ == "job_progress"@ {
            WorkerStatus::Busy
        } else {
            WorkerStatus::Ready
        },
{
    if text_eq(message_type, "job_started") || text_eq(message_type, "job_progress") {
        WorkerStatus::Busy
    } else {
        WorkerStatus::Ready
    }
}

/// Whether a command's outcome sets the global runtime error: background
/// provider probes do not.
pub open spec fn updates_global_error(command_name: Seq<char>) -> bool {
    command_name != "runtime.list-llm-models"@ && command_name != "runtime.validate-llm-model"@
}

/// Whether a command's outcome sets the global runtime error.
pub fn updates_global_runtime_error(command_name: &str) -> (r: bool)
    ensures
        r == updates_global_error(command_name@),
{
    !(text_eq(command_name, "runtime.list-llm-models") || text_eq(
        command_name,
        "runtime.validate-llm-model",
    ))
}

/// The `error.message` text of a worker result's envelope.
pub open spec fn envelope_error_message(envelope: JsonValue) -> Option<Seq<char>> {
    match json_get(envelope, "error"@) {
        Some(e) => match e {
            JsonValue::Object(_) => json_get_text(e, "message"@),
            _ => None,
        },
        None => None,
    }
}

/// The error message a failed worker result carries.
pub fn worker_result_error_message(completed: &CompletedWorkerJob) -> (r: Option<String>)
    ensures
        opt_text(r) == envelope_error_message(completed.result.envelope),
{
    match get(&completed.result.envelope, "error") {
        Some(e) => match e {
            JsonValue::Object(_) => match get_text(e, "message") {
                Some(m) => Some(m.clone()),
                None => None,
            },
            _ => None,
        },
        None => None,
    }
}

/// A job ended: a finished job completes (releasing its dependents); a
/// failed result or a host error fails it (returning the dependents that are
/// skipped). Unless the command is a background probe, the global runtime
/// error is cleared on success and set to the failure's message otherwise.
pub fn apply_runtime_job_outcome(
    scheduler: &mut RuntimeScheduler,
    last_runtime_error: &mut Option<String>,
    command_name: &str,
    job_id: &str,
    outcome: &Result<CompletedWorkerJob, HostError>,
) -> (skipped: Vec<QueuedRuntimeJob>)
    ensures
        ({
            let finished = outcome matches Ok(c) && c.result.terminal_type@ == "job_finished"@;
            let updates = updates_global_error(command_name@);
            &&& final(scheduler).max_concurrent() == old(scheduler).max_concurrent()
            &&& final(scheduler).active() == keep(old(scheduler).active(), active_other_than(job_id@))
            &&& finished ==> skipped@.len() == 0 && final(scheduler).pending() == release_all(
                old(scheduler).pending(),
                job_id@,
            )
            &&& !finished ==> skipped@ == keep(old(scheduler).pending(), skipped_on_failure(job_id@))
                && final(scheduler).pending() == release_all(
                keep(old(scheduler).pending(), kept_on_failure(job_id@)),
                job_id@,
            )
            &&& !updates ==> *final(last_runtime_error) == *old(last_runtime_error)
            &&& updates && finished ==> *final(last_runtime_error) is None
            &&& updates && !finished && outcome is Ok ==> opt_text(*final(last_runtime_error))
                == envelope_error_message(outcome->Ok_0.result.envelope)
            &&& updates && outcome is Err ==> opt_text(*final(last_runtime_error)) == Some(
                outcome->Err_0.msg(),
            )
        }),
{
    let updates = updates_global_runtime_error(command_name);
    match outcome {
        Ok(completed) => {
            if text_eq(completed.result.terminal_type.as_str(), "job_finished") {
                scheduler.on_job_complete(job_id);
                if updates {
                    *last_runtime_error = None;
                }
                Vec::new()
            } else {
                let skipped = scheduler.on_job_failed(job_id);
                if updates {
                    *last_runtime_error = worker_result_error_message(completed);
                }
                skipped
            }
        },
        Err(err) => {
            let skipped = scheduler.on_job_failed(job_id);
            if updates {
                *last_runtime_error = Some(err.message());
            }
            skipped
        },
    }
}

/// The runtime error to show after a project opens: the recovery notice if
/// there is one; otherwise none when the worker is available (a stale probe
/// error is cleared), else the current error.
pub fn runtime_error_after_project_open(
    current_error: Option<String>,
    recovery_message: Option<String>,
    worker_available: bool,
) -> (r: Option<String>)
    ensures
        recovery_message is Some ==> r == recovery_message,
        recovery_message is None && worker_available ==> r is None,
        recovery_message is None && !worker_available ==> r == current_error,
{
    if recovery_message.is_some() {
        return recovery_message;
    }
    if worker_available {
        return None;
    }
    current_error
}

/// The notice about what a new session recovered from the previous one:
/// stale job records (runtime jobs and host workflows) and interrupted
/// student workflows; none when nothing was recovered.
pub open spec fn recovery_notice(total: nat, interrupted: nat) -> Option<Seq<char>> {
    let records = "Recovered "@ + nat_decimal(total) + " stale desktop job record"@ + if total == 1 {
        ""@
    } else {
        "s"@
    } + " from a prior session"@;
    let workflows = "marked "@ + nat_decimal(interrupted) + " interrupted student workflow"@
        + if interrupted == 1 {
        ""@
    } else {
        "s"@
    } + " as stopped"@;
    if total == 0 && interrupted == 0 {
        None
    } else if total > 0 && interrupted > 0 {
        Some(records + " and "@ + workflows + "."@)
    } else if total > 0 {
        Some(records + "."@)
    } else {
        Some("Recovered prior session state and "@ + workflows + "."@)
    }
}

/// The notice about what a new session recovered (see `recovery_notice`).
pub fn recovery_message(runtime_count: usize, workflow_count: usize, interrupted_count: usize) -> (r:
    Option<String>)
    requires
        runtime_count + workflow_count <= usize::MAX,
    ensures
        opt_text(r) == recovery_notice((runtime_count + workflow_count) as nat, interrupted_count as nat),
{
    let total = runtime_count + workflow_count;
    if total == 0 && interrupted_count == 0 {
        return None;
    }
    let mut records = owned("Recovered ");
    push_count(&mut records, total);
    push_text(&mut records, " stale desktop job record");
    if total == 1 {
        push_text(&mut records, "");
    } else {
        push_text(&mut records, "s");
    }
    push_text(&mut records, " from a prior session");
    let mut workflows = owned("marked ");
    push_count(&mut workflows, interrupted_count);
    push_text(&mut workflows, " interrupted student workflow");
    if interrupted_count == 1 {
        push_text(&mut workflows, "");
    } else {
        push_text(&mut workflows, "s");
    }
    push_text(&mut workflows, " as stopped");
    let mut out = String::new();
    if total > 0 && interrupted_count > 0 {
        push_text(&mut out, records.as_str());
        push_text(&mut out, " and ");
        push_text(&mut out, workflows.as_str());
        push_text(&mut out, ".");
    } else if total > 0 {
        push_text(&mut out, records.as_str());
        push_text(&mut out, ".");
    } else {
        push_text(&mut out, "Recovered prior session state and ");
        push_text(&mut out, workflows.as_str());
        push_text(&mut out, ".");
    }
    proof {
        assert(out@ =~= recovery_notice((runtime_count + workflow_count) as nat, interrupted_count as nat)->0);
    }
    Some(out)
}

/// Whether the startup arguments turn on the redaction debug toggle.
pub fn parse_debug_features(args: &Vec<String>) -> (redaction_toggle: bool)
    ensures
        redaction_toggle == exists|i: int|
            0 <= i < args@.len() && #[trigger] args@[i]@ == "--scriptscore-debug-redaction-toggle"@,
{
    let mut i: usize = 0;
    while i < args.len()
        invariant
            i <= args@.len(),
            forall|k: int| 0 <= k < i ==> args@[k]@ != "--scriptscore-debug-redaction-toggle"@,
        decreases args@.len() - i,
    {
        if text_eq(args[i].as_str(), "--scriptscore-debug-redaction-toggle") {
            return true;
        }
        i += 1;
    }
    false
}

/// The path of the open project, or a project error when none is open.
pub fn current_project_path(current_project: &Option<crate::models::ProjectSummary>) -> (r: Result<
    String,
    HostError,
>)
    ensures
        match current_project {
            Some(p) => r matches Ok(path) && path@ == p.project_path@,
            None => r matches Err(e) && e is Project && e.msg() == "No project is currently open."@,
        },
{
    match current_project {
        Some(p) => Ok(p.project_path.clone()),
        None => Err(HostError::Project(owned("No project is currently open."))),
    }
}

/// No job may run when a project-changing action starts: a running job is a conflict.
pub fn ensure_no_active_job(scheduler: &RuntimeScheduler) -> (r: Result<(), HostError>)
    ensures
        scheduler.active().len() == 0 ==> r is Ok,
        scheduler.active().len() > 0 ==> (r matches Err(e) && e is Conflict && e.msg()
            == "Desktop job '"@ + scheduler.active()[0].job.job_id@ + "' is still active."@),
{
    if scheduler.has_active_jobs() {
        if let Some(job_id) = scheduler.active_job_id() {
            return Err(HostError::Conflict(concat3("Desktop job '", job_id, "' is still active.")));
        }
    }
    Ok(())
}

/// A direct runtime job needs an idle scheduler.
pub fn ensure_runtime_idle(scheduler: &RuntimeScheduler) -> (r: Result<(), HostError>)
    ensures
        scheduler.active().len() == 0 ==> r is Ok,
        scheduler.active().len() > 0 ==> (r matches Err(e) && e is Conflict && e.msg()
            == "A desktop job is already active in this session."@),
{
    if scheduler.has_active_jobs() {
        return Err(HostError::Conflict(owned("A desktop job is already active in this session.")));
    }
    Ok(())
}

// ---------------------------------------------------------------------------
// Payload merges
// ---------------------------------------------------------------------------

/// Whether `k` is a key the scheduler snapshot writes: the scheduler's
/// counts and running jobs, and the intake pipeline's progress while it runs.
pub open spec fn snapshot_key(k: Seq<char>, intake_pipeline_active: bool) -> bool {
    ||| k == "schedulerActiveJobs"@
    ||| k == "schedulerActiveJobDetails"@
    ||| k == "schedulerPendingJobs"@
    ||| intake_pipeline_active && (k == "intakePipelineActive"@ || k == "intakePipelineRedactTotal"@ || k
        == "intakePipelineRedactIndex"@)
}

/// Adds the scheduler's counts and running jobs to an event payload, and the
/// intake pipeline's progress while it runs.
pub fn merge_scheduler_snapshot(
    payload: &mut JsonValue,
    scheduler: &RuntimeScheduler,
    intake_pipeline_active: bool,
    intake_redact_total: usize,
    intake_redact_index: usize,
)
    ensures
        !(*old(payload) is Object) ==> *final(payload) == *old(payload),
        *old(payload) is Object ==> *final(payload) is Object && (json_get(*final(payload), "schedulerActiveJobs"@) matches Some(v)
            && crate::json::is_count(v, scheduler.active().len())) && (json_get(
            *final(payload),
            "schedulerPendingJobs"@,
        ) matches Some(v) && crate::json::is_count(v, scheduler.pending().len())) && (json_get(
            *final(payload),
            "schedulerActiveJobDetails"@,
        ) matches Some(v) && crate::scheduler::describes_active_jobs(v, scheduler.active())),
        *old(payload) is Object && intake_pipeline_active ==> json_get(*final(payload), "intakePipelineActive"@)
            == Some(JsonValue::Bool(true)) && (json_get(*final(payload), "intakePipelineRedactTotal"@) matches Some(v)
            && crate::json::is_count(v, intake_redact_total as nat)) && (json_get(
            *final(payload),
            "intakePipelineRedactIndex"@,
        ) matches Some(v) && crate::json::is_count(v, intake_redact_index as nat)),
        *old(payload) is Object ==> forall|k: Seq<char>|
            !snapshot_key(k, intake_pipeline_active) ==> #[trigger] json_get(*final(payload), k) == json_get(
                *old(payload),
                k,
            ),
{
    proof {
        reveal_strlit("schedulerActiveJobs");
        reveal_strlit("schedulerActiveJobDetails");
        reveal_strlit("schedulerPendingJobs");
        reveal_strlit("intakePipelineActive");
        reveal_strlit("intakePipelineRedactTotal");
        reveal_strlit("intakePipelineRedactIndex");
        assert("schedulerActiveJobs"@.len() == 19);
        assert("schedulerActiveJobDetails"@.len() == 25);
        assert("schedulerActiveJobs"@ != "schedulerActiveJobDetails"@);
        assert("schedulerPendingJobs"@[0] != "intakePipelineActive"@[0]);
        assert("schedulerActiveJobDetails"@[0] != "intakePipelineRedactTotal"@[0]);
        assert("schedulerActiveJobDetails"@[0] != "intakePipelineRedactIndex"@[0]);
    }
    object_insert(payload, "schedulerActiveJobs", crate::json::count_value(scheduler.active_job_count()));
    let ghost p1 = *payload;
    object_insert(payload, "schedulerActiveJobDetails", scheduler.active_jobs_json());
    let ghost p2 = *payload;
    object_insert(payload, "schedulerPendingJobs", crate::json::count_value(scheduler.pending_job_count()));
    let ghost p3 = *payload;
    proof {
        if *old(payload) is Object {
            assert(json_get(p2, "schedulerActiveJobs"@) == json_get(p1, "schedulerActiveJobs"@));
            assert(json_get(p3, "schedulerActiveJobs"@) == json_get(p2, "schedulerActiveJobs"@));
            assert(json_get(p3, "schedulerActiveJobDetails"@) == json_get(p2, "schedulerActiveJobDetails"@));
        }
    }
    if intake_pipeline_active {
        object_insert(payload, "intakePipelineActive", JsonValue::Bool(true));
        let ghost p4 = *payload;
        object_insert(payload, "intakePipelineRedactTotal", crate::json::count_value(intake_redact_total));
        let ghost p5 = *payload;
        object_insert(payload, "intakePipelineRedactIndex", crate::json::count_value(intake_redact_index));
        proof {
            if *old(payload) is Object {
                assert("intakePipelineActive"@.len() == 20);
                assert("intakePipelineRedactTotal"@.len() == 25);
                assert("intakePipelineRedactIndex"@.len() == 25);
                assert("intakePipelineRedactTotal"@[20] != "intakePipelineRedactIndex"@[20]);
                assert(json_get(p5, "intakePipelineActive"@) == json_get(p4, "intakePipelineActive"@));
                assert(json_get(*payload, "intakePipelineActive"@) == json_get(p5, "intakePipelineActive"@));
                assert(json_get(*payload, "intakePipelineRedactTotal"@) == json_get(p5, "intakePipelineRedactTotal"@));
                assert(json_get(p4, "schedulerActiveJobs"@) == json_get(p3, "schedulerActiveJobs"@));
                assert(json_get(p5, "schedulerActiveJobs"@) == json_get(p4, "schedulerActiveJobs"@));
                assert(json_get(*payload, "schedulerActiveJobs"@) == json_get(p5, "schedulerActiveJobs"@));
                assert(json_get(p4, "schedulerPendingJobs"@) == json_get(p3, "schedulerPendingJobs"@));
                assert(json_get(p5, "schedulerPendingJobs"@) == json_get(p4, "schedulerPendingJobs"@));
                assert(json_get(*payload, "schedulerPendingJobs"@) == json_get(p5, "schedulerPendingJobs"@));
                assert(json_get(p4, "schedulerActiveJobDetails"@) == json_get(p3, "schedulerActiveJobDetails"@));
                assert(json_get(p5, "schedulerActiveJobDetails"@) == json_get(p4, "schedulerActiveJobDetails"@));
                assert(json_get(*payload, "schedulerActiveJobDetails"@) == json_get(p5, "schedulerActiveJobDetails"@));
            }
        }
    }
}

/// The non-blank `question_id` text of a persisted request.
pub open spec fn request_question_id(persisted: JsonValue) -> Option<Seq<char>> {
    match json_get_text(persisted, "question_id"@) {
        Some(q) => if is_blank(q) {
            None
        } else {
            Some(q)
        },
        None => None,
    }
}

/// Adds `questionId` to an object payload when the persisted request names a
/// question (non-blank).
pub fn merge_question_id_from_request(payload: &mut JsonValue, persisted_request_payload: &JsonValue)
    ensures
        match request_question_id(*persisted_request_payload) {
            Some(q) => *old(payload) is Object ==> (json_get(*final(payload), "questionId"@) matches Some(v)
                && is_text(v, q)),
            None => *final(payload) == *old(payload),
        },
        !(*old(payload) is Object) ==> *final(payload) == *old(payload),
        *old(payload) is Object ==> *final(payload) is Object && (forall|k: Seq<char>|
            k != "questionId"@ ==> #[trigger] json_get(*final(payload), k) == json_get(*old(payload), k)),
{
    match get_text(persisted_request_payload, "question_id") {
        Some(q) => {
            if !blank(q.as_str()) {
                object_insert(payload, "questionId", JsonValue::Text(q.clone()));
            }
        },
        None => {},
    }
}

/// The student a persisted request is scoped to: its `student_ref` text (or
/// `studentRef` when `student_ref` is absent), when not blank.
pub open spec fn request_student_ref(persisted: JsonValue) -> Option<Seq<char>> {
    let raw = match json_get(persisted, "student_ref"@) {
        Some(v) => json_text(Some(v)),
        None => json_get_text(persisted, "studentRef"@),
    };
    match raw {
        Some(s) => if is_blank(s) {
            None
        } else {
            Some(s)
        },
        None => None,
    }
}

fn request_student(persisted: &JsonValue) -> (r: Option<String>)
    ensures
        opt_text(r) == request_student_ref(*persisted),
{
    let raw = match get(persisted, "student_ref") {
        Some(v) => match v {
            JsonValue::Text(s) => Some(s),
            _ => None,
        },
        None => get_text(persisted, "studentRef"),
    };
    match raw {
        Some(s) => if blank(s.as_str()) {
            None
        } else {
            Some(s.clone())
        },
        None => None,
    }
}

/// Puts `v` in place of the value of the first member with key `key`,
/// returning the value it had; nothing changes when there is no such member.
pub(crate) fn swap_member_value(members: &mut Vec<JsonMember>, key: &str, v: JsonValue) -> (r: Option<JsonValue>)
    ensures
        r == member_value(old(members)@, key@),
        r is Some ==> member_value(final(members)@, key@) == Some(v),
        r is None ==> final(members)@ == old(members)@,
        forall|k: Seq<char>| k != key@ ==> #[trigger] member_value(final(members)@, k) == member_value(old(members)@, k),
{
    let ghost olds = members@;
    let mut i: usize = 0;
    while i < members.len()
        invariant
            i <= members@.len(),
            members@ == olds,
            olds == old(members)@,
            forall|w: int| 0 <= w < i ==> (#[trigger] olds[w]).key@ != key@,
        decreases members@.len() - i,
    {
        if text_eq(members[i].key.as_str(), key) {
            proof {
                crate::json::lemma_member_value_first(olds, i as int, key@);
            }
            let m = members.remove(i);
            let JsonMember { key: k, value: previous } = m;
            let replacement = JsonMember { key: k, value: v };
            let ghost rg = replacement;
            members.insert(i, replacement);
            proof {
                assert(members@ =~= olds.update(i as int, rg));
                crate::json::lemma_member_value_update(olds, i as int, rg, key@);
                assert forall|k2: Seq<char>| k2 != key@ implies #[trigger] member_value(members@, k2)
                    == member_value(olds, k2) by {
                    crate::json::lemma_member_value_update(olds, i as int, rg, k2);
                }
            }
            return Some(previous);
        }
        i += 1;
    }
    proof {
        crate::json::lemma_member_value_absent(olds, key@);
    }
    None
}

/// Sets `scope.student_ref` among an object's members: an absent `scope`
/// becomes `{student_ref}`; a `scope` that is no object is left as it is.
fn insert_scope_student(members: &mut Vec<JsonMember>, student_ref: &String)
    ensures
        match member_value(old(members)@, "scope"@) {
            Some(JsonValue::Object(_)) | None => (member_value(final(members)@, "scope"@) matches Some(o)
                && (json_get(o, "student_ref"@) matches Some(t) && is_text(t, student_ref@))),
            Some(other) => member_value(final(members)@, "scope"@) == Some(other),
        },
        forall|k: Seq<char>| k != "scope"@ ==> #[trigger] member_value(final(members)@, k) == member_value(old(members)@, k),
{
    let previous = swap_member_value(members, "scope", JsonValue::Null);
    match previous {
        None => {
            let mut inner: Vec<JsonMember> = Vec::new();
            inner.push(member("student_ref", JsonValue::Text(student_ref.clone())));
            proof {
                assert(member_value(inner@, "student_ref"@) == Some(inner@[0].value));
            }
            insert_member(members, "scope", JsonValue::Object(inner));
        },
        Some(JsonValue::Object(mut inner)) => {
            insert_member(&mut inner, "student_ref", JsonValue::Text(student_ref.clone()));
            insert_member(members, "scope", JsonValue::Object(inner));
        },
        Some(other) => {
            insert_member(members, "scope", other);
        },
    }
}

/// Scopes an object payload to the persisted request: its question (see
/// `merge_question_id_from_request`) and its student (`studentRef`,
/// `student_ref` and `scope.student_ref`).
pub fn merge_request_scope(payload: &mut JsonValue, persisted_request_payload: &JsonValue)
    ensures
        !(*old(payload) is Object) ==> *final(payload) == *old(payload),
        *old(payload) is Object ==> *final(payload) is Object,
        *old(payload) is Object && request_question_id(*persisted_request_payload) is Some ==> (json_get(
            *final(payload),
            "questionId"@,
        ) matches Some(v) && is_text(v, request_question_id(*persisted_request_payload)->0)),
        *old(payload) is Object && request_student_ref(*persisted_request_payload) is Some ==> ({
            let s = request_student_ref(*persisted_request_payload)->0;
            &&& (json_get(*final(payload), "studentRef"@) matches Some(v) && is_text(v, s))
            &&& (json_get(*final(payload), "student_ref"@) matches Some(v) && is_text(v, s))
            &&& match json_get(*old(payload), "scope"@) {
                Some(JsonValue::Object(_)) | None => (json_get(*final(payload), "scope"@) matches Some(o)
                    && (json_get(o, "student_ref"@) matches Some(t) && is_text(t, s))),
                Some(other) => json_get(*final(payload), "scope"@) == Some(other),
            }
        }),
        *old(payload) is Object ==> forall|k: Seq<char>|
            k != "questionId"@ && k != "studentRef"@ && k != "student_ref"@ && k != "scope"@
                ==> #[trigger] json_get(*final(payload), k) == json_get(*old(payload), k),
        request_question_id(*persisted_request_payload) is None && request_student_ref(
            *persisted_request_payload,
        ) is None ==> *final(payload) == *old(payload),
{
    proof {
        reveal_strlit("studentRef");
        reveal_strlit("student_ref");
        reveal_strlit("scope");
        reveal_strlit("questionId");
        assert("studentRef"@[0] != "questionId"@[0]);
        assert("scope"@.len() == 5);
        assert("studentRef"@.len() == 10);
        assert("student_ref"@.len() == 11);
        assert("questionId"@.len() == 10);
    }
    merge_question_id_from_request(payload, persisted_request_payload);
    let ghost p0 = *payload;
    let student = match request_student(persisted_request_payload) {
        Some(s) => s,
        None => {
            return ;
        },
    };
    let mut taken = JsonValue::Null;
    std::mem::swap(&mut taken, payload);
    match taken {
        JsonValue::Object(mut members) => {
            let ghost m0 = members@;
            insert_member(&mut members, "studentRef", JsonValue::Text(student.clone()));
            let ghost m1 = members@;
            insert_member(&mut members, "student_ref", JsonValue::Text(student.clone()));
            let ghost m2 = members@;
            insert_scope_student(&mut members, &student);
            proof {
                assert(m0 == members_of(p0));
                assert(member_value(members@, "questionId"@) == member_value(m2, "questionId"@));
                assert(member_value(m2, "questionId"@) == member_value(m1, "questionId"@));
                assert(member_value(m1, "questionId"@) == member_value(m0, "questionId"@));
                assert(member_value(members@, "studentRef"@) == member_value(m2, "studentRef"@));
                assert(member_value(m2, "studentRef"@) == member_value(m1, "studentRef"@));
                assert(member_value(members@, "student_ref"@) == member_value(m2, "student_ref"@));
                assert(member_value(m2, "scope"@) == member_value(m1, "scope"@));
                assert(member_value(m1, "scope"@) == member_value(m0, "scope"@));
                assert(json_get(p0, "scope"@) == json_get(*old(payload), "scope"@));
                assert forall|k: Seq<char>|
                    k != "questionId"@ && k != "studentRef"@ && k != "student_ref"@ && k != "scope"@
                        implies #[trigger] member_value(members@, k) == member_value(m0, k) by {
                    assert(member_value(members@, k) == member_value(m2, k));
                    assert(member_value(m2, k) == member_value(m1, k));
                }
            }
            *payload = JsonValue::Object(members);
            proof {
                assert forall|k: Seq<char>|
                    k != "questionId"@ && k != "studentRef"@ && k != "student_ref"@ && k != "scope"@
                        implies #[trigger] json_get(*payload, k) == json_get(*old(payload), k) by {
                    assert(json_get(p0, k) == json_get(*old(payload), k));
                }
            }
        },
        other => {
            *payload = other;
        },
    }
}


// ---------------------------------------------------------------------------
// Runtime events
// ---------------------------------------------------------------------------

/// Whether `e` is an event of type `event_type` about command `command_name`
/// with worker status `status`, request `request_id` and job `job_id`.
pub open spec fn event_of(
    e: RuntimeJobEvent,
    event_type: Seq<char>,
    command_name: Seq<char>,
    status: WorkerStatus,
    request_id: Option<Seq<char>>,
    job_id: Option<Seq<char>>,
) -> bool {
    &&& e.event_type@ == event_type
    &&& e.command_name@ == command_name
    &&& e.worker_status == status
    &&& opt_text(e.request_id) == request_id
    &&& opt_text(e.job_id) == job_id
}

fn event_with(
    event_type: &str,
    command_name: &str,
    status: WorkerStatus,
    request_id: Option<&str>,
    job_id: Option<&str>,
    payload: JsonValue,
) -> (e: RuntimeJobEvent)
    ensures
        event_of(
            e,
            event_type@,
            command_name@,
            status,
            match request_id {
                Some(r) => Some(r@),
                None => None,
            },
            match job_id {
                Some(j) => Some(j@),
                None => None,
            },
        ),
        e.payload == payload,
{
    RuntimeJobEvent {
        event_type: owned(event_type),
        command_name: owned(command_name),
        worker_status: status,
        request_id: match request_id {
            Some(r) => Some(owned(r)),
            None => None,
        },
        job_id: match job_id {
            Some(j) => Some(owned(j)),
            None => None,
        },
        payload,
    }
}

/// The event that a job was handed to the worker, with `payload`.
pub fn job_submitted_event(command_name: &str, request_id: &str, job_id: &str, payload: JsonValue) -> (e:
    RuntimeJobEvent)
    ensures
        event_of(e, "job_submitted"@, command_name@, WorkerStatus::Busy, Some(request_id@), Some(job_id@)),
        e.payload == payload,
{
    event_with("job_submitted", command_name, WorkerStatus::Busy, Some(request_id), Some(job_id), payload)
}

/// The payload of a queued job's submission: its question when its payload names one.
pub fn queued_job_submitted_payload(job: &QueuedRuntimeJob) -> (p: JsonValue)
    ensures
        p is Object,
        members_of(p).len() == if payload_question_id(job.worker_request_payload) is Some {
            1int
        } else {
            0int
        },
        payload_question_id(job.worker_request_payload) matches Some(q) ==> members_of(p)[0].key@
            == "questionId"@ && is_text(members_of(p)[0].value, q),
{
    let mut m: Vec<JsonMember> = Vec::new();
    if let Some(q) = question_id_from_worker_payload(&job.worker_request_payload) {
        m.push(member("questionId", JsonValue::Text(q)));
    }
    JsonValue::Object(m)
}

/// The error object of a job skipped because its dependency failed.
pub fn dependency_failed_error(dependency_job_id: &str) -> (p: JsonValue)
    ensures
        p is Object,
        members_of(p).len() == 3,
        members_of(p)[0].key@ == "message"@ && is_text(
            members_of(p)[0].value,
            "Queued job skipped because its dependency failed."@,
        ),
        members_of(p)[1].key@ == "code"@ && is_text(members_of(p)[1].value, "dependency_failed"@),
        members_of(p)[2].key@ == "dependencyJobId"@ && is_text(members_of(p)[2].value, dependency_job_id@),
{
    let mut m: Vec<JsonMember> = Vec::new();
    m.push(member("message", JsonValue::Text(owned("Queued job skipped because its dependency failed."))));
    m.push(member("code", JsonValue::Text(owned("dependency_failed"))));
    m.push(member("dependencyJobId", JsonValue::Text(owned(dependency_job_id))));
    JsonValue::Object(m)
}

/// The event that a queued job was skipped because its dependency failed,
/// scoped to the job's question and student.
pub fn queued_job_skipped_event(job: &QueuedRuntimeJob, dependency_job_id: &str) -> (e: RuntimeJobEvent)
    ensures
        event_of(
            e,
            "job_skipped"@,
            job.command_name@,
            WorkerStatus::Ready,
            Some(job.request_id@),
            Some(job.job_id@),
        ),
        e.payload is Object,
        json_get(e.payload, "resultKind"@) matches Some(v) && is_text(v, "error"@),
        json_get(e.payload, "code"@) matches Some(v) && is_text(v, "dependency_failed"@),
        json_get(e.payload, "dependencyJobId"@) matches Some(v) && is_text(v, dependency_job_id@),
{
    proof {
        reveal_strlit("resultKind");
        reveal_strlit("code");
        reveal_strlit("dependencyJobId");
        reveal_strlit("message");
        reveal_strlit("error");
        reveal_strlit("questionId");
        reveal_strlit("studentRef");
        reveal_strlit("student_ref");
        reveal_strlit("scope");
        assert("resultKind"@.len() == 10);
        assert("code"@.len() == 4);
        assert("dependencyJobId"@.len() == 15);
        assert("questionId"@.len() == 10);
        assert("studentRef"@.len() == 10);
        assert("student_ref"@.len() == 11);
        assert("scope"@.len() == 5);
        assert("resultKind"@[0] != "questionId"@[0]);
        assert("resultKind"@[0] != "studentRef"@[0]);
        assert("dependencyJobId"@[0] != "questionId"@[0]);
    }
    let mut m: Vec<JsonMember> = Vec::new();
    m.push(member("resultKind", JsonValue::Text(owned("error"))));
    m.push(member("message", JsonValue::Text(owned("Queued job skipped because its dependency failed."))));
    m.push(member("code", JsonValue::Text(owned("dependency_failed"))));
    m.push(member("dependencyJobId", JsonValue::Text(owned(dependency_job_id))));
    m.push(member("error", dependency_failed_error(dependency_job_id)));
    let ghost mm = m@;
    proof {
        assert("message"@.len() == 7);
        assert(crate::json::member_value(mm, "resultKind"@) == Some(mm[0].value));
        crate::json::lemma_member_value_first(mm, 2, "code"@);
        crate::json::lemma_member_value_first(mm, 3, "dependencyJobId"@);
    }
    let mut payload = JsonValue::Object(m);
    let ghost p0 = payload;
    merge_question_id_from_request(&mut payload, &job.worker_request_payload);
    merge_request_scope(&mut payload, &job.persisted_request_payload);
    proof {
        assert(json_get(payload, "resultKind"@) == json_get(p0, "resultKind"@));
        assert(json_get(payload, "code"@) == json_get(p0, "code"@));
        assert(json_get(payload, "dependencyJobId"@) == json_get(p0, "dependencyJobId"@));
    }
    event_with(
        "job_skipped",
        job.command_name.as_str(),
        WorkerStatus::Ready,
        Some(job.request_id.as_str()),
        Some(job.job_id.as_str()),
        payload,
    )
}

/// The event of a runtime error of command `command_name`.
pub fn runtime_error_event(command_name: &str, message: &str) -> (e: RuntimeJobEvent)
    ensures
        event_of(e, "runtime_error"@, command_name@, WorkerStatus::Error, None, None),
        members_of(e.payload).len() == 1,
        e.payload is Object,
        members_of(e.payload)[0].key@ == "message"@ && is_text(members_of(e.payload)[0].value, message@),
{
    let mut m: Vec<JsonMember> = Vec::new();
    m.push(member("message", JsonValue::Text(owned(message))));
    event_with("runtime_error", command_name, WorkerStatus::Error, None, None, JsonValue::Object(m))
}

/// The payload of a project-creation event: `{resultKind: "shell", data,
/// workspaceChanged: true, nestedJobIds: []}`.
pub fn create_project_shell_payload(data: JsonValue) -> (p: JsonValue)
    ensures
        p is Object,
        members_of(p).len() == 4,
        members_of(p)[0].key@ == "resultKind"@ && is_text(members_of(p)[0].value, "shell"@),
        members_of(p)[1].key@ == "data"@ && members_of(p)[1].value == data,
        members_of(p)[2].key@ == "workspaceChanged"@ && members_of(p)[2].value == JsonValue::Bool(true),
        members_of(p)[3].key@ == "nestedJobIds"@ && members_of(p)[3].value is Array
            && crate::json::items_of(members_of(p)[3].value).len() == 0,
{
    let mut m: Vec<JsonMember> = Vec::new();
    m.push(member("resultKind", JsonValue::Text(owned("shell"))));
    m.push(member("data", data));
    m.push(member("workspaceChanged", JsonValue::Bool(true)));
    m.push(member("nestedJobIds", JsonValue::Array(Vec::new())));
    JsonValue::Object(m)
}

/// The event that project creation started.
pub fn create_project_started_event(request_id: &str, job_id: &str) -> (e: RuntimeJobEvent)
    ensures
        event_of(e, "job_started"@, "create_project"@, WorkerStatus::Busy, Some(request_id@), Some(job_id@)),
        members_of(e.payload).len() == 4,
        members_of(e.payload)[1].value == JsonValue::Null,
{
    event_with(
        "job_started",
        "create_project",
        WorkerStatus::Busy,
        Some(request_id),
        Some(job_id),
        create_project_shell_payload(JsonValue::Null),
    )
}

/// The event that project creation finished, carrying the new shell state.
pub fn create_project_finished_event(request_id: &str, job_id: &str, shell_data: JsonValue) -> (e:
    RuntimeJobEvent)
    ensures
        event_of(e, "job_finished"@, "create_project"@, WorkerStatus::Ready, Some(request_id@), Some(job_id@)),
        members_of(e.payload).len() == 4,
        members_of(e.payload)[1].value == shell_data,
{
    event_with(
        "job_finished",
        "create_project",
        WorkerStatus::Ready,
        Some(request_id),
        Some(job_id),
        create_project_shell_payload(shell_data),
    )
}

/// The event that project creation failed with `message`.
pub fn create_project_failed_event(
    worker_status: WorkerStatus,
    request_id: &str,
    job_id: &str,
    message: &str,
) -> (e: RuntimeJobEvent)
    ensures
        event_of(e, "job_failed"@, "create_project"@, worker_status, Some(request_id@), Some(job_id@)),
        e.payload is Object,
        members_of(e.payload).len() == 5,
        members_of(e.payload)[0].key@ == "resultKind"@ && is_text(members_of(e.payload)[0].value, "error"@),
        members_of(e.payload)[1].key@ == "message"@ && is_text(members_of(e.payload)[1].value, message@),
        members_of(e.payload)[4].key@ == "error"@ && members_of(members_of(e.payload)[4].value).len() == 2
            && members_of(members_of(e.payload)[4].value)[0].key@ == "message"@ && is_text(
            members_of(members_of(e.payload)[4].value)[0].value,
            message@,
        ),
{
    let mut inner: Vec<JsonMember> = Vec::new();
    inner.push(member("message", JsonValue::Text(owned(message))));
    inner.push(member("nestedJobIds", JsonValue::Array(Vec::new())));
    let mut m: Vec<JsonMember> = Vec::new();
    m.push(member("resultKind", JsonValue::Text(owned("error"))));
    m.push(member("message", JsonValue::Text(owned(message))));
    m.push(member("workspaceChanged", JsonValue::Bool(true)));
    m.push(member("nestedJobIds", JsonValue::Array(Vec::new())));
    m.push(member("error", JsonValue::Object(inner)));
    event_with("job_failed", "create_project", worker_status, Some(request_id), Some(job_id), JsonValue::Object(m))
}

// ---------------------------------------------------------------------------
// Worker messages
// ---------------------------------------------------------------------------

/// The job and start time of a `job_started` message; either missing is a
/// protocol error.
pub fn job_started_details(message: &ProtocolMessage) -> (r: Result<(String, String), HostError>)
    ensures
        message.job_id is None ==> (r matches Err(e) && e is Protocol && e.msg()
            == "Worker job_started message was missing job_id."@),
        message.job_id is Some && json_get_text(message.payload, "timestamp"@) is None ==> (r matches Err(
            e,
        ) && e is Protocol && e.msg() == "Worker job_started message was missing timestamp."@),
        r matches Ok((job, at)) ==> opt_text(message.job_id) == Some(job@) && json_get_text(
            message.payload,
            "timestamp"@,
        ) == Some(at@),
        r is Ok <==> message.job_id is Some && json_get_text(message.payload, "timestamp"@) is Some,
{
    let job_id = match &message.job_id {
        Some(j) => j.clone(),
        None => {
            return Err(HostError::Protocol(owned("Worker job_started message was missing job_id.")));
        },
    };
    let started_at = match get_text(&message.payload, "timestamp") {
        Some(t) => t.clone(),
        None => {
            return Err(HostError::Protocol(owned("Worker job_started message was missing timestamp.")));
        },
    };
    Ok((job_id, started_at))
}

/// The job of a `job_progress` message; a missing one is a protocol error.
pub fn job_progress_job_id(message: &ProtocolMessage) -> (r: Result<String, HostError>)
    ensures
        match message.job_id {
            Some(j) => r matches Ok(id) && id@ == j@,
            None => r matches Err(e) && e is Protocol && e.msg()
                == "Worker job_progress message was missing job_id."@,
        },
{
    match &message.job_id {
        Some(j) => Ok(j.clone()),
        None => Err(HostError::Protocol(owned("Worker job_progress message was missing job_id."))),
    }
}

/// The event relaying a worker message of command `command_name`, with the
/// payload as merged.
pub fn worker_message_event(command_name: &str, message: &ProtocolMessage, payload: JsonValue) -> (e:
    RuntimeJobEvent)
    ensures
        event_of(
            e,
            message.message_type@,
            command_name@,
            if message.message_type@ == "job_started"@ || message.message_type@ == "job_progress"@ {
                WorkerStatus::Busy
            } else {
                WorkerStatus::Ready
            },
            opt_text(message.request_id),
            opt_text(message.job_id),
        ),
        e.payload == payload,
{
    RuntimeJobEvent {
        event_type: message.message_type.clone(),
        command_name: owned(command_name),
        worker_status: message_worker_status(message.message_type.as_str()),
        request_id: crate::text::clone_opt_text(&message.request_id),
        job_id: crate::text::clone_opt_text(&message.job_id),
        payload,
    }
}

/// The time a worker result says the job finished (`timing.finished_at`), or empty.
pub open spec fn envelope_finished_at(envelope: JsonValue) -> Seq<char> {
    match json_get(envelope, "timing"@) {
        Some(t) => match t {
            JsonValue::Object(_) => match json_get_text(t, "finished_at"@) {
                Some(f) => f,
                None => Seq::empty(),
            },
            _ => Seq::empty(),
        },
        None => Seq::empty(),
    }
}

/// The time a worker result says the job finished, or empty.
pub fn finished_at(envelope: &JsonValue) -> (r: String)
    ensures
        r@ == envelope_finished_at(*envelope),
{
    match get(envelope, "timing") {
        Some(t) => match t {
            JsonValue::Object(_) => match get_text(t, "finished_at") {
                Some(f) => f.clone(),
                None => String::new(),
            },
            _ => String::new(),
        },
        None => String::new(),
    }
}

/// The recorded state of a job that ended with `terminal_type`.
pub fn job_completion_state(terminal_type: &str) -> (r: String)
    ensures
        r@ == if terminal_type@ == "job_finished"@ {
            "succeeded"@
        } else if terminal_type@ == "job_cancelled"@ {
            "cancelled"@
        } else {
            "failed"@
        },
{
    if text_eq(terminal_type, "job_finished") {
        owned("succeeded")
    } else if text_eq(terminal_type, "job_cancelled") {
        owned("cancelled")
    } else {
        owned("failed")
    }
}

/// Whether outputs of a job are saved in the project: it finished and runs
/// for a project.
pub fn should_persist_success_outputs(terminal_type: &str, has_project: bool) -> (r: bool)
    ensures
        r == (terminal_type@ == "job_finished"@ && has_project),
{
    text_eq(terminal_type, "job_finished") && has_project
}

/// Whether a failed question analysis is recorded: an `exam.analyze` job of
/// a project that failed or was cancelled.
pub fn should_persist_exam_analyze_failure(command_name: &str, terminal_type: &str, has_project: bool) -> (r:
    bool)
    ensures
        r == (command_name@ == "exam.analyze"@ && (terminal_type@ == "job_failed"@ || terminal_type@
            == "job_cancelled"@) && has_project),
{
    text_eq(command_name, "exam.analyze") && (text_eq(terminal_type, "job_failed") || text_eq(
        terminal_type,
        "job_cancelled",
    )) && has_project
}

/// What a queued rubric job needs: its project, question and whether an
/// existing rubric is replaced.
#[derive(Debug, PartialEq, Eq)]
pub struct QueuedRubricInputs {
    pub project_path: String,
    pub question_id: String,
    pub replace_existing: bool,
}

/// The inputs of a queued rubric job: it needs a project, settings and a
/// non-empty `question_id`; `replace_existing` defaults to true.
pub fn parse_queued_generate_rubric_inputs(job: &QueuedRuntimeJob) -> (r: Result<QueuedRubricInputs, String>)
    ensures
        job.project_path is None ==> (r matches Err(m) && m@ == "No project path for rubric generation."@),
        job.project_path is Some && job.settings is None ==> (r matches Err(m) && m@
            == "No settings for rubric generation."@),
        job.project_path is Some && job.settings is Some && (match json_get_text(
            job.worker_request_payload,
            "question_id"@,
        ) {
            Some(q) => q.len() == 0,
            None => true,
        }) ==> (r matches Err(m) && m@ == "Queued rubric job was missing question_id."@),
        r matches Ok(inputs) ==> opt_text(job.project_path) == Some(inputs.project_path@) && job.settings is Some
            && json_get_text(job.worker_request_payload, "question_id"@) == Some(inputs.question_id@)
            && inputs.question_id@.len() > 0 && inputs.replace_existing == match json_get_bool(
            job.worker_request_payload,
            "replace_existing"@,
        ) {
            Some(b) => b,
            None => true,
        },
        r is Ok <==> job.project_path is Some && job.settings is Some && (match json_get_text(
            job.worker_request_payload,
            "question_id"@,
        ) {
            Some(q) => q.len() > 0,
            None => false,
        }),
{
    let project_path = match &job.project_path {
        Some(p) => p.clone(),
        None => {
            return Err(owned("No project path for rubric generation."));
        },
    };
    if job.settings.is_none() {
        return Err(owned("No settings for rubric generation."));
    }
    let question_id = match get_text(&job.worker_request_payload, "question_id") {
        Some(q) => if q.unicode_len() == 0 {
            return Err(owned("Queued rubric job was missing question_id."));
        } else {
            q.clone()
        },
        None => {
            return Err(owned("Queued rubric job was missing question_id."));
        },
    };
    let replace_existing = match get_bool(&job.worker_request_payload, "replace_existing") {
        Some(b) => b,
        None => true,
    };
    Ok(QueuedRubricInputs { project_path, question_id, replace_existing })
}

} // verus!
