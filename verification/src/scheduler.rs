//! The runtime job queue of the desktop host.
//!
//! Queued jobs wait in submission order. A job that names a dependency waits
//! until that job finishes: a completed dependency releases its dependents, a
//! failed one drops the dependents that asked to be skipped and releases the
//! others. At most `max_concurrent_jobs` jobs run at once.
use vstd::prelude::*;
use crate::errors::{emit_runtime_job_event, HostError, RuntimeEventSink, RuntimeJobEvent, WorkerStatus};
use crate::json::{
    count_value, get, get_text, is_count, is_optional_text, is_text, json_get, json_get_text,
    member, members_of, items_of, JsonMember, JsonValue,
};
use crate::messages::{concat3, validation};
use crate::seqs::{
    any_where, first_index, keep, lemma_first_index_is, lemma_first_index_props, lemma_keep_step,
    retain_where,
};
use crate::text::{opt_text, owned, text_eq};

verus! {

/// A job waiting for the worker.
#[derive(Debug, PartialEq)]
pub struct QueuedRuntimeJob {
    pub job_id: String,
    pub request_id: String,
    pub command_name: String,
    pub worker_request_payload: JsonValue,
    pub persisted_request_payload: JsonValue,
    pub output_artifacts_dir: Option<String>,
    pub project_path: Option<String>,
    pub submitted_at: String,
    /// The job that must finish before this one may start.
    pub depends_on_job_id: Option<String>,
    /// Whether this job is dropped when its dependency fails.
    pub skip_if_dependency_failed: bool,
    /// The application settings the job was submitted with.
    pub settings: Option<JsonValue>,
}

/// A job the worker is running.
#[derive(Debug, PartialEq)]
pub struct ActiveRuntimeJob {
    pub job: QueuedRuntimeJob,
    /// Whether the worker was already asked to cancel the job.
    pub cancel_requested: bool,
    pub started_at: Option<String>,
}

/// A running job as the frontend sees it.
#[derive(Debug, PartialEq, Eq)]
pub struct WorkerJobSummary {
    pub job_id: String,
    pub command_name: String,
    pub started_at: Option<String>,
}

/// What `cancel_job` did, and what is left for the caller to do.
#[derive(Debug, PartialEq, Eq, Structural)]
pub enum CancelAction {
    /// The job was still queued and has been removed.
    RemovedQueued,
    /// The job is running: its worker must be signalled, then
    /// `mark_cancel_requested` recorded.
    SignalWorker,
    /// The job is running and the worker was already signalled.
    AlreadyRequested,
}

/// The queue of pending jobs and the jobs that run.
#[derive(Debug)]
pub struct RuntimeScheduler {
    pending_jobs: Vec<QueuedRuntimeJob>,
    active_jobs: Vec<ActiveRuntimeJob>,
    max_concurrent_jobs: usize,
}

// ---------------------------------------------------------------------------
// Specification
// ---------------------------------------------------------------------------

/// The question a worker payload is about: its `question_id` text, or the
/// `question_id` of its only question target.
pub open spec fn payload_question_id(payload: JsonValue) -> Option<Seq<char>> {
    match json_get_text(payload, "question_id"@) {
        Some(q) => Some(q),
        None => match json_get(payload, "question_targets"@) {
            Some(JsonValue::Array(targets)) => if targets@.len() == 1 {
                json_get_text(targets@[0], "question_id"@)
            } else {
                None
            },
            _ => None,
        },
    }
}

/// Whether `job` waits for the job `id`.
pub open spec fn depends_on(job: QueuedRuntimeJob, id: Seq<char>) -> bool {
    match job.depends_on_job_id {
        Some(d) => d@ == id,
        None => false,
    }
}

/// Jobs that wait for no other job.
pub open spec fn ready_job() -> spec_fn(QueuedRuntimeJob) -> bool {
    |j: QueuedRuntimeJob| j.depends_on_job_id is None
}

/// `job` with its dependency on `id` dropped.
pub open spec fn released(job: QueuedRuntimeJob, id: Seq<char>) -> QueuedRuntimeJob {
    if depends_on(job, id) {
        QueuedRuntimeJob { depends_on_job_id: None, ..job }
    } else {
        job
    }
}

/// `jobs` with every dependency on `id` dropped.
pub open spec fn release_all(jobs: Seq<QueuedRuntimeJob>, id: Seq<char>) -> Seq<QueuedRuntimeJob> {
    jobs.map_values(|j: QueuedRuntimeJob| released(j, id))
}

/// Jobs dropped when the job `id` fails.
pub open spec fn skipped_on_failure(id: Seq<char>) -> spec_fn(QueuedRuntimeJob) -> bool {
    |j: QueuedRuntimeJob| j.skip_if_dependency_failed && depends_on(j, id)
}

/// Jobs kept when the job `id` fails.
pub open spec fn kept_on_failure(id: Seq<char>) -> spec_fn(QueuedRuntimeJob) -> bool {
    |j: QueuedRuntimeJob| !(j.skip_if_dependency_failed && depends_on(j, id))
}

/// Queued jobs with id `id`.
pub open spec fn queued_with_id(id: Seq<char>) -> spec_fn(QueuedRuntimeJob) -> bool {
    |j: QueuedRuntimeJob| j.job_id@ == id
}

/// Running jobs with id `id`.
pub open spec fn active_with_id(id: Seq<char>) -> spec_fn(ActiveRuntimeJob) -> bool {
    |a: ActiveRuntimeJob| a.job.job_id@ == id
}

/// Running jobs with another id than `id`.
pub open spec fn active_other_than(id: Seq<char>) -> spec_fn(ActiveRuntimeJob) -> bool {
    |a: ActiveRuntimeJob| a.job.job_id@ != id
}

/// Whether `job` generates the rubric of question `question_id`.
pub open spec fn generates_rubric_for(job: QueuedRuntimeJob, question_id: Seq<char>) -> bool {
    job.command_name@ == "exam.generate-rubric"@ && payload_question_id(job.worker_request_payload)
        == Some(question_id)
}

/// Whether `v` is the JSON object `{jobId, commandName, startedAt}` of a running job.
pub open spec fn describes_active_job(v: JsonValue, a: ActiveRuntimeJob) -> bool {
    let m = members_of(v);
    &&& v is Object
    &&& m.len() == 3
    &&& m[0].key@ == "jobId"@ && is_text(m[0].value, a.job.job_id@)
    &&& m[1].key@ == "commandName"@ && is_text(m[1].value, a.job.command_name@)
    &&& m[2].key@ == "startedAt"@ && is_optional_text(m[2].value, opt_text(a.started_at))
}

/// Whether `v` is the JSON array of the running jobs `active`.
pub open spec fn describes_active_jobs(v: JsonValue, active: Seq<ActiveRuntimeJob>) -> bool {
    &&& v is Array
    &&& items_of(v).len() == active.len()
    &&& forall|i: int| 0 <= i < active.len() ==> describes_active_job(#[trigger] items_of(v)[i], active[i])
}

/// Whether `p` is the payload of a `job_queued` event: the job's queue
/// position, the scheduler's counts and running jobs, and the question of the
/// job when its payload names one.
pub open spec fn describes_queued_payload(
    p: JsonValue,
    position: nat,
    active: Seq<ActiveRuntimeJob>,
    question_id: Option<Seq<char>>,
) -> bool {
    let m = members_of(p);
    &&& p is Object
    &&& m.len() == if question_id is Some { 5nat } else { 4nat }
    &&& m[0].key@ == "queue_position"@ && is_count(m[0].value, position)
    &&& m[1].key@ == "schedulerActiveJobs"@ && is_count(m[1].value, active.len())
    &&& m[2].key@ == "schedulerActiveJobDetails"@ && describes_active_jobs(m[2].value, active)
    &&& m[3].key@ == "schedulerPendingJobs"@ && is_count(m[3].value, position)
    &&& question_id matches Some(q) ==> m[4].key@ == "questionId"@ && is_text(m[4].value, q)
}

impl RuntimeScheduler {
    /// The queued jobs, in queue order.
    pub closed spec fn pending(&self) -> Seq<QueuedRuntimeJob> {
        self.pending_jobs@
    }

    /// The running jobs, in start order.
    pub closed spec fn active(&self) -> Seq<ActiveRuntimeJob> {
        self.active_jobs@
    }

    /// How many jobs may run at once.
    pub closed spec fn max_concurrent(&self) -> nat {
        self.max_concurrent_jobs as nat
    }

    /// Whether a job may be dispatched now.
    pub open spec fn may_dispatch(&self) -> bool {
        self.active().len() < self.max_concurrent() && any_where(self.pending(), ready_job())
    }
}

impl Default for RuntimeScheduler {
    /// An empty scheduler that runs one job at a time.
    fn default() -> (s: Self)
        ensures
            s.pending() == Seq::<QueuedRuntimeJob>::empty(),
            s.active() == Seq::<ActiveRuntimeJob>::empty(),
            s.max_concurrent() == 1,
    {
        RuntimeScheduler { pending_jobs: Vec::new(), active_jobs: Vec::new(), max_concurrent_jobs: 1 }
    }
}

// ---------------------------------------------------------------------------
// Payload inspection
// ---------------------------------------------------------------------------

/// The question a worker payload is about: its `question_id`, or the
/// `question_id` of its only question target.
pub fn question_id_from_worker_payload(payload: &JsonValue) -> (r: Option<String>)
    ensures
        opt_text(r) == payload_question_id(*payload),
{
    if let Some(q) = get_text(payload, "question_id") {
        return Some(q.clone());
    }
    match get(payload, "question_targets") {
        Some(JsonValue::Array(targets)) => {
            if targets.len() == 1 {
                match get_text(&targets[0], "question_id") {
                    Some(q) => Some(q.clone()),
                    None => None,
                }
            } else {
                None
            }
        },
        _ => None,
    }
}

/// Whether `job` generates the rubric of question `question_id`.
fn is_rubric_job_for(job: &QueuedRuntimeJob, question_id: &str) -> (r: bool)
    ensures
        r == generates_rubric_for(*job, question_id@),
{
    if !text_eq(job.command_name.as_str(), "exam.generate-rubric") {
        return false;
    }
    match question_id_from_worker_payload(&job.worker_request_payload) {
        Some(q) => text_eq(q.as_str(), question_id),
        None => false,
    }
}

// ---------------------------------------------------------------------------
// Queue operations on plain vectors
// ---------------------------------------------------------------------------

/// Drops every dependency on `id` among `jobs`.
fn release_dependents(jobs: &mut Vec<QueuedRuntimeJob>, id: &str)
    ensures
        final(jobs)@ == release_all(old(jobs)@, id@),
{
    let ghost olds = jobs@;
    let mut i: usize = 0;
    while i < jobs.len()
        invariant
            olds == old(jobs)@,
            jobs@.len() == olds.len(),
            i <= olds.len(),
            forall|k: int| 0 <= k < i ==> jobs@[k] == released(#[trigger] olds[k], id@),
            forall|k: int| i <= k < olds.len() ==> jobs@[k] == #[trigger] olds[k],
        decreases olds.len() - i,
    {
        let hit = match &jobs[i].depends_on_job_id {
            Some(d) => text_eq(d.as_str(), id),
            None => false,
        };
        if hit {
            let ghost before = jobs@;
            let mut job = jobs.remove(i);
            job.depends_on_job_id = None;
            jobs.insert(i, job);
            proof {
                assert(jobs@ =~= before.update(i as int, released(olds[i as int], id@)));
            }
        }
        i += 1;
    }
    proof {
        assert(jobs@ =~= release_all(olds, id@));
    }
}

/// Drops the running jobs with id `id`.
fn remove_active(active: &mut Vec<ActiveRuntimeJob>, id: &str)
    ensures
        final(active)@ == keep(old(active)@, active_other_than(id@)),
{
    retain_where(
        active,
        (|a: &ActiveRuntimeJob| -> (b: bool)
            ensures
                b == active_other_than(id@)(*a),
            { !text_eq(a.job.job_id.as_str(), id) }),
        Ghost(active_other_than(id@)),
    );
}

/// Splits `jobs` into the ones dropped by the failure of `id` (returned) and
/// the ones kept (left in `jobs`), both in queue order.
fn split_failed_dependents(jobs: &mut Vec<QueuedRuntimeJob>, id: &str) -> (skipped: Vec<QueuedRuntimeJob>)
    ensures
        skipped@ == keep(old(jobs)@, skipped_on_failure(id@)),
        final(jobs)@ == keep(old(jobs)@, kept_on_failure(id@)),
{
    let ghost orig = jobs@;
    let mut rest: Vec<QueuedRuntimeJob> = Vec::new();
    std::mem::swap(&mut rest, jobs);
    let mut skipped: Vec<QueuedRuntimeJob> = Vec::new();
    let ghost mut i: int = 0;
    proof {
        assert(orig.take(0) =~= Seq::<QueuedRuntimeJob>::empty());
        assert(rest@ =~= orig.skip(0));
    }
    while rest.len() > 0
        invariant
            0 <= i <= orig.len(),
            rest@ == orig.skip(i),
            skipped@ == keep(orig.take(i), skipped_on_failure(id@)),
            jobs@ == keep(orig.take(i), kept_on_failure(id@)),
        decreases rest@.len(),
    {
        let ghost prev = rest@;
        let job = rest.remove(0);
        proof {
            assert(prev[0] == orig[i]);
            assert(rest@ =~= orig.skip(i + 1));
            lemma_keep_step(orig, skipped_on_failure(id@), i);
            lemma_keep_step(orig, kept_on_failure(id@), i);
        }
        let depends = match &job.depends_on_job_id {
            Some(d) => text_eq(d.as_str(), id),
            None => false,
        };
        if job.skip_if_dependency_failed && depends {
            skipped.push(job);
        } else {
            jobs.push(job);
        }
        proof {
            i = i + 1;
        }
    }
    proof {
        assert(orig.take(i) =~= orig);
    }
    skipped
}

/// The index of the first job in `jobs` with id `id`, or the length.
fn position_queued(jobs: &Vec<QueuedRuntimeJob>, id: &str) -> (r: usize)
    ensures
        r == first_index(jobs@, queued_with_id(id@)),
        r <= jobs@.len(),
{
    let mut i: usize = 0;
    while i < jobs.len()
        invariant
            i <= jobs@.len(),
            forall|k: int| 0 <= k < i ==> !queued_with_id(id@)(#[trigger] jobs@[k]),
        decreases jobs@.len() - i,
    {
        if text_eq(jobs[i].job_id.as_str(), id) {
            proof {
                lemma_first_index_is(jobs@, queued_with_id(id@), i as int);
            }
            return i;
        }
        i += 1;
    }
    proof {
        lemma_first_index_is(jobs@, queued_with_id(id@), i as int);
    }
    i
}

/// The index of the first running job in `active` with id `id`, or the length.
fn position_active(active: &Vec<ActiveRuntimeJob>, id: &str) -> (r: usize)
    ensures
        r == first_index(active@, active_with_id(id@)),
        r <= active@.len(),
{
    let mut i: usize = 0;
    while i < active.len()
        invariant
            i <= active@.len(),
            forall|k: int| 0 <= k < i ==> !active_with_id(id@)(#[trigger] active@[k]),
        decreases active@.len() - i,
    {
        if text_eq(active[i].job.job_id.as_str(), id) {
            proof {
                lemma_first_index_is(active@, active_with_id(id@), i as int);
            }
            return i;
        }
        i += 1;
    }
    proof {
        lemma_first_index_is(active@, active_with_id(id@), i as int);
    }
    i
}

/// The index of the first job in `jobs` that waits for nothing, or the length.
fn first_ready(jobs: &Vec<QueuedRuntimeJob>) -> (r: usize)
    ensures
        r == first_index(jobs@, ready_job()),
{
    let mut i: usize = 0;
    while i < jobs.len()
        invariant
            i <= jobs@.len(),
            forall|k: int| 0 <= k < i ==> !ready_job()(#[trigger] jobs@[k]),
        decreases jobs@.len() - i,
    {
        if jobs[i].depends_on_job_id.is_none() {
            proof {
                lemma_first_index_is(jobs@, ready_job(), i as int);
            }
            return i;
        }
        i += 1;
    }
    proof {
        lemma_first_index_is(jobs@, ready_job(), i as int);
    }
    i
}

// ---------------------------------------------------------------------------
// Running job summaries
// ---------------------------------------------------------------------------

/// The JSON object `{jobId, commandName, startedAt}` of a running job.
fn active_job_value(a: &ActiveRuntimeJob) -> (v: JsonValue)
    ensures
        describes_active_job(v, *a),
{
    let mut members: Vec<JsonMember> = Vec::new();
    members.push(member("jobId", JsonValue::Text(a.job.job_id.clone())));
    members.push(member("commandName", JsonValue::Text(a.job.command_name.clone())));
    let started = match &a.started_at {
        Some(s) => JsonValue::Text(s.clone()),
        None => JsonValue::Null,
    };
    members.push(member("startedAt", started));
    JsonValue::Object(members)
}

/// The JSON array of the running jobs.
fn active_jobs_value(active: &Vec<ActiveRuntimeJob>) -> (v: JsonValue)
    ensures
        describes_active_jobs(v, active@),
{
    let mut items: Vec<JsonValue> = Vec::new();
    let mut i: usize = 0;
    while i < active.len()
        invariant
            i <= active@.len(),
            items@.len() == i,
            forall|k: int| 0 <= k < i ==> describes_active_job(#[trigger] items@[k], active@[k]),
        decreases active@.len() - i,
    {
        items.push(active_job_value(&active[i]));
        i += 1;
    }
    JsonValue::Array(items)
}

impl RuntimeScheduler {
    /// The event announcing that `job` joins the queue.
    pub fn queued_job_event(&self, job: &QueuedRuntimeJob) -> (e: RuntimeJobEvent)
        requires
            self.pending().len() < usize::MAX,
        ensures
            e.event_type@ == "job_queued"@,
            e.command_name@ == job.command_name@,
            e.worker_status == WorkerStatus::Ready,
            opt_text(e.request_id) == Some(job.request_id@),
            opt_text(e.job_id) == Some(job.job_id@),
            describes_queued_payload(
                e.payload,
                (self.pending().len() + 1) as nat,
                self.active(),
                payload_question_id(job.worker_request_payload),
            ),
    {
        let position = self.pending_jobs.len() + 1;
        let mut members: Vec<JsonMember> = Vec::new();
        members.push(member("queue_position", count_value(position)));
        members.push(member("schedulerActiveJobs", count_value(self.active_jobs.len())));
        members.push(member("schedulerActiveJobDetails", active_jobs_value(&self.active_jobs)));
        members.push(member("schedulerPendingJobs", count_value(position)));
        if let Some(q) = question_id_from_worker_payload(&job.worker_request_payload) {
            members.push(member("questionId", JsonValue::Text(q)));
        }
        RuntimeJobEvent {
            event_type: owned("job_queued"),
            command_name: job.command_name.clone(),
            worker_status: WorkerStatus::Ready,
            request_id: Some(job.request_id.clone()),
            job_id: Some(job.job_id.clone()),
            payload: JsonValue::Object(members),
        }
    }

    /// Announces `job` to `event_sink`, then appends it to the queue.
    pub fn queue_job(&mut self, job: QueuedRuntimeJob, event_sink: &dyn RuntimeEventSink)
        requires
            old(self).pending().len() < usize::MAX,
        ensures
            final(self).pending() == old(self).pending().push(job),
            final(self).active() == old(self).active(),
            final(self).max_concurrent() == old(self).max_concurrent(),
    {
        let event = self.queued_job_event(&job);
        emit_runtime_job_event(event_sink, event);
        self.pending_jobs.push(job);
    }

    /// True if a job generating the rubric of `question_id` is queued or running.
    pub fn has_generate_rubric_for_question(&self, question_id: &str) -> (r: bool)
        ensures
            r == ((exists|i: int|
                0 <= i < self.pending().len() && generates_rubric_for(
                    #[trigger] self.pending()[i],
                    question_id@,
                )) || (exists|i: int|
                0 <= i < self.active().len() && generates_rubric_for(
                    #[trigger] self.active()[i].job,
                    question_id@,
                ))),
    {
        let mut i: usize = 0;
        while i < self.pending_jobs.len()
            invariant
                i <= self.pending_jobs@.len(),
                forall|k: int|
                    0 <= k < i ==> !generates_rubric_for(#[trigger] self.pending_jobs@[k], question_id@),
            decreases self.pending_jobs@.len() - i,
        {
            if is_rubric_job_for(&self.pending_jobs[i], question_id) {
                assert(self.pending()[i as int] == self.pending_jobs@[i as int]);
                return true;
            }
            i += 1;
        }
        let mut a: usize = 0;
        while a < self.active_jobs.len()
            invariant
                i == self.pending_jobs@.len(),
                forall|k: int|
                    0 <= k < i ==> !generates_rubric_for(#[trigger] self.pending_jobs@[k], question_id@),
                a <= self.active_jobs@.len(),
                forall|k: int|
                    0 <= k < a ==> !generates_rubric_for(#[trigger] self.active_jobs@[k].job, question_id@),
            decreases self.active_jobs@.len() - a,
        {
            if is_rubric_job_for(&self.active_jobs[a].job, question_id) {
                assert(self.active()[a as int] == self.active_jobs@[a as int]);
                return true;
            }
            a += 1;
        }
        false
    }

    /// Cancels the job `job_id`: a queued job leaves the queue; for a running
    /// job the caller signals the worker (once). An unknown id is an error.
    pub fn cancel_job(&mut self, job_id: &str) -> (r: Result<CancelAction, HostError>)
        ensures
            final(self).active() == old(self).active(),
            final(self).max_concurrent() == old(self).max_concurrent(),
            ({
                let q = first_index(old(self).pending(), queued_with_id(job_id@));
                let a = first_index(old(self).active(), active_with_id(job_id@));
                &&& q < old(self).pending().len() ==> r == Ok::<CancelAction, HostError>(
                    CancelAction::RemovedQueued,
                ) && final(self).pending() == old(self).pending().remove(q)
                &&& q == old(self).pending().len() ==> final(self).pending() == old(self).pending()
                &&& q == old(self).pending().len() && a < old(self).active().len()
                    && !old(self).active()[a].cancel_requested ==> r == Ok::<
                    CancelAction,
                    HostError,
                >(CancelAction::SignalWorker)
                &&& q == old(self).pending().len() && a < old(self).active().len()
                    && old(self).active()[a].cancel_requested ==> r == Ok::<CancelAction, HostError>(
                    CancelAction::AlreadyRequested,
                )
                &&& q == old(self).pending().len() && a == old(self).active().len() ==> (r matches Err(
                    e,
                ) && e is Validation && e.msg() == "No active or queued job found with id '"@
                    + job_id@ + "'."@)
            }),
    {
        let q = position_queued(&self.pending_jobs, job_id);
        if q < self.pending_jobs.len() {
            let _removed = self.pending_jobs.remove(q);
            return Ok(CancelAction::RemovedQueued);
        }
        let a = position_active(&self.active_jobs, job_id);
        if a < self.active_jobs.len() {
            if self.active_jobs[a].cancel_requested {
                return Ok(CancelAction::AlreadyRequested);
            }
            return Ok(CancelAction::SignalWorker);
        }
        Err(validation(concat3("No active or queued job found with id '", job_id, "'.")))
    }

    /// Records that the worker running `job_id` was asked to cancel it.
    pub fn mark_cancel_requested(&mut self, job_id: &str)
        ensures
            final(self).pending() == old(self).pending(),
            final(self).max_concurrent() == old(self).max_concurrent(),
            ({
                let a = first_index(old(self).active(), active_with_id(job_id@));
                &&& a < old(self).active().len() ==> final(self).active() == old(self).active().update(
                    a,
                    ActiveRuntimeJob { cancel_requested: true, ..old(self).active()[a] },
                )
                &&& a == old(self).active().len() ==> final(self).active() == old(self).active()
            }),
    {
        let a = position_active(&self.active_jobs, job_id);
        if a < self.active_jobs.len() {
            let mut entry = self.active_jobs.remove(a);
            entry.cancel_requested = true;
            self.active_jobs.insert(a, entry);
        }
    }

    /// Whether any job runs.
    pub fn has_active_jobs(&self) -> (r: bool)
        ensures
            r == (self.active().len() > 0),
    {
        self.active_jobs.len() > 0
    }

    /// `Busy` while a job runs, `Ready` otherwise.
    pub fn worker_status(&self) -> (r: WorkerStatus)
        ensures
            r == if self.active().len() > 0 {
                WorkerStatus::Busy
            } else {
                WorkerStatus::Ready
            },
    {
        if self.has_active_jobs() {
            WorkerStatus::Busy
        } else {
            WorkerStatus::Ready
        }
    }

    /// The id of the first running job.
    pub fn active_job_id(&self) -> (r: Option<&str>)
        ensures
            match r {
                Some(id) => self.active().len() > 0 && id@ == self.active()[0].job.job_id@,
                None => self.active().len() == 0,
            },
    {
        if self.active_jobs.len() == 0 {
            None
        } else {
            Some(self.active_jobs[0].job.job_id.as_str())
        }
    }

    /// Starts running `job`; its start time is its submission time until the
    /// worker reports one.
    pub fn push_active_job(&mut self, job: QueuedRuntimeJob)
        ensures
            final(self).pending() == old(self).pending(),
            final(self).max_concurrent() == old(self).max_concurrent(),
            final(self).active().len() == old(self).active().len() + 1,
            final(self).active().take(old(self).active().len() as int) == old(self).active(),
            final(self).active().last().job == job,
            !final(self).active().last().cancel_requested,
            opt_text(final(self).active().last().started_at) == Some(job.submitted_at@),
    {
        let started_at = Some(job.submitted_at.clone());
        self.active_jobs.push(ActiveRuntimeJob { job, cancel_requested: false, started_at });
        proof {
            assert(self.active_jobs@.take(old(self).active_jobs@.len() as int) =~= old(self).active_jobs@);
        }
    }

    /// Records the start time the worker reported for `job_id`.
    pub fn mark_job_started(&mut self, job_id: &str, started_at: &str)
        ensures
            final(self).pending() == old(self).pending(),
            final(self).max_concurrent() == old(self).max_concurrent(),
            ({
                let a = first_index(old(self).active(), active_with_id(job_id@));
                &&& a == old(self).active().len() ==> final(self).active() == old(self).active()
                &&& a < old(self).active().len() ==> final(self).active().len() == old(self).active().len() && (forall|k: int|
                    0 <= k < old(self).active().len() && k != a ==> final(self).active()[k] == old(self).active()[k]) && final(self).active()[a].job == old(self).active()[a].job
                    && final(self).active()[a].cancel_requested == old(self).active()[a].cancel_requested && opt_text(final(self).active()[a].started_at)
                    == Some(started_at@)
            }),
    {
        let a = position_active(&self.active_jobs, job_id);
        if a < self.active_jobs.len() {
            let mut entry = self.active_jobs.remove(a);
            entry.started_at = Some(owned(started_at));
            self.active_jobs.insert(a, entry);
        }
    }

    /// The job `job_id` finished: it stops running and its dependents are released.
    pub fn on_job_complete(&mut self, job_id: &str)
        ensures
            final(self).active() == keep(old(self).active(), active_other_than(job_id@)),
            final(self).pending() == release_all(old(self).pending(), job_id@),
            final(self).max_concurrent() == old(self).max_concurrent(),
    {
        remove_active(&mut self.active_jobs, job_id);
        self.promote_dependents(job_id);
    }

    /// The job `job_id` failed: it stops running, the dependents that asked to
    /// be skipped leave the queue (returned, in queue order), and the other
    /// dependents are released.
    pub fn on_job_failed(&mut self, job_id: &str) -> (skipped: Vec<QueuedRuntimeJob>)
        ensures
            final(self).active() == keep(old(self).active(), active_other_than(job_id@)),
            skipped@ == keep(old(self).pending(), skipped_on_failure(job_id@)),
            final(self).pending() == release_all(
                keep(old(self).pending(), kept_on_failure(job_id@)),
                job_id@,
            ),
            final(self).max_concurrent() == old(self).max_concurrent(),
    {
        remove_active(&mut self.active_jobs, job_id);
        let skipped = split_failed_dependents(&mut self.pending_jobs, job_id);
        self.promote_dependents(job_id);
        skipped
    }

    fn promote_dependents(&mut self, completed_job_id: &str)
        ensures
            final(self).pending() == release_all(old(self).pending(), completed_job_id@),
            final(self).active() == old(self).active(),
            final(self).max_concurrent() == old(self).max_concurrent(),
    {
        release_dependents(&mut self.pending_jobs, completed_job_id);
    }

    /// Whether a job may start now: fewer jobs run than allowed, and a queued
    /// job waits for nothing.
    pub fn should_dispatch_next(&self) -> (r: bool)
        ensures
            r == self.may_dispatch(),
    {
        if self.active_jobs.len() >= self.max_concurrent_jobs {
            return false;
        }
        let i = first_ready(&self.pending_jobs);
        proof {
            lemma_first_index_props(self.pending_jobs@, ready_job());
        }
        i < self.pending_jobs.len()
    }

    /// Takes the first queued job that waits for nothing.
    pub fn pop_next_job(&mut self) -> (r: Option<QueuedRuntimeJob>)
        ensures
            final(self).active() == old(self).active(),
            final(self).max_concurrent() == old(self).max_concurrent(),
            ({
                let i = first_index(old(self).pending(), ready_job());
                &&& i < old(self).pending().len() ==> r == Some(old(self).pending()[i])
                    && final(self).pending() == old(self).pending().remove(i)
                &&& i == old(self).pending().len() ==> r is None && final(self).pending() == old(self).pending()
            }),
    {
        let i = first_ready(&self.pending_jobs);
        proof {
            lemma_first_index_props(self.pending_jobs@, ready_job());
        }
        if i < self.pending_jobs.len() {
            Some(self.pending_jobs.remove(i))
        } else {
            None
        }
    }

    /// How many jobs run.
    pub fn active_job_count(&self) -> (r: usize)
        ensures
            r == self.active().len(),
    {
        self.active_jobs.len()
    }

    /// The running jobs as the frontend sees them.
    pub fn active_job_summaries(&self) -> (r: Vec<WorkerJobSummary>)
        ensures
            r@.len() == self.active().len(),
            forall|i: int|
                0 <= i < r@.len() ==> (#[trigger] r@[i]).job_id@ == self.active()[i].job.job_id@
                    && r@[i].command_name@ == self.active()[i].job.command_name@ && opt_text(
                    r@[i].started_at,
                ) == opt_text(self.active()[i].started_at),
    {
        let mut out: Vec<WorkerJobSummary> = Vec::new();
        let mut i: usize = 0;
        while i < self.active_jobs.len()
            invariant
                i <= self.active_jobs@.len(),
                out@.len() == i,
                forall|k: int|
                    0 <= k < i ==> (#[trigger] out@[k]).job_id@ == self.active_jobs@[k].job.job_id@
                        && out@[k].command_name@ == self.active_jobs@[k].job.command_name@ && opt_text(
                        out@[k].started_at,
                    ) == opt_text(self.active_jobs@[k].started_at),
            decreases self.active_jobs@.len() - i,
        {
            let a = &self.active_jobs[i];
            let started_at = match &a.started_at {
                Some(s) => Some(s.clone()),
                None => None,
            };
            out.push(
                WorkerJobSummary {
                    job_id: a.job.job_id.clone(),
                    command_name: a.job.command_name.clone(),
                    started_at,
                },
            );
            i += 1;
        }
        out
    }

    /// The JSON array of the running jobs, as event payloads carry it.
    pub fn active_jobs_json(&self) -> (v: JsonValue)
        ensures
            describes_active_jobs(v, self.active()),
    {
        active_jobs_value(&self.active_jobs)
    }

    /// How many jobs are queued.
    pub fn pending_job_count(&self) -> (r: usize)
        ensures
            r == self.pending().len(),
    {
        self.pending_jobs.len()
    }
}

// ---------------------------------------------------------------------------
// Laws
// ---------------------------------------------------------------------------

/// When a job may be dispatched, taking the next job yields one: the first
/// queued job that waits for nothing exists.
pub proof fn law_dispatch_finds_ready_job(s: RuntimeScheduler)
    requires
        s.may_dispatch(),
    ensures
        first_index(s.pending(), ready_job()) < s.pending().len(),
        (ready_job())(s.pending()[first_index(s.pending(), ready_job())]),
{
    lemma_first_index_props(s.pending(), ready_job());
}

/// Once the job `id` has completed or failed, no queued job waits for it, and
/// the released queue holds the same jobs in the same order, only without
/// that dependency.
pub proof fn law_release_clears_dependency(jobs: Seq<QueuedRuntimeJob>, id: Seq<char>)
    ensures
        release_all(jobs, id).len() == jobs.len(),
        forall|i: int| 0 <= i < jobs.len() ==> !depends_on(#[trigger] release_all(jobs, id)[i], id),
        forall|i: int|
            0 <= i < jobs.len() ==> (#[trigger] release_all(jobs, id)[i]).job_id == jobs[i].job_id
                && release_all(jobs, id)[i].command_name == jobs[i].command_name,
        forall|i: int|
            0 <= i < jobs.len() && !depends_on(jobs[i], id) ==> #[trigger] release_all(jobs, id)[i]
                == jobs[i],
{
}

/// A failure splits the queue: every queued job is either skipped or kept,
/// never both, and the counts add up to the queue's length.
pub proof fn law_failure_partitions_queue(jobs: Seq<QueuedRuntimeJob>, id: Seq<char>)
    ensures
        keep(jobs, skipped_on_failure(id)).len() + keep(jobs, kept_on_failure(id)).len() == jobs.len(),
        forall|i: int|
            0 <= i < keep(jobs, skipped_on_failure(id)).len() ==> (#[trigger] keep(
                jobs,
                skipped_on_failure(id),
            )[i]).skip_if_dependency_failed && depends_on(keep(jobs, skipped_on_failure(id))[i], id),
    decreases jobs.len(),
{
    crate::seqs::lemma_keep_props(jobs, skipped_on_failure(id));
    if jobs.len() > 0 {
        law_failure_partitions_queue(jobs.drop_last(), id);
    }
}

/// Cancelling a job right after queueing it, when no other queued job has its
/// id, leaves the queue as it was before.
pub proof fn law_cancel_undoes_queue(jobs: Seq<QueuedRuntimeJob>, job: QueuedRuntimeJob)
    requires
        forall|i: int| 0 <= i < jobs.len() ==> (#[trigger] jobs[i]).job_id@ != job.job_id@,
    ensures
        first_index(jobs.push(job), queued_with_id(job.job_id@)) == jobs.len(),
        jobs.push(job).remove(jobs.len() as int) == jobs,
{
    let s = jobs.push(job);
    assert forall|k: int| 0 <= k < jobs.len() implies !queued_with_id(job.job_id@)(#[trigger] s[k]) by {
        assert(s[k] == jobs[k]);
    }
    lemma_first_index_is(s, queued_with_id(job.job_id@), jobs.len() as int);
    assert(s.remove(jobs.len() as int) =~= jobs);
}

} // verus!
