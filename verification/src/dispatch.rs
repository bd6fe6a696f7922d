//! Dispatching queued runtime jobs: which job starts next, what a job that
//! could not start does to the queue and the frontend, and which job a
//! cancel request stops.
use vstd::prelude::*;
use crate::errors::{HostError, RuntimeJobEvent};
use crate::host_workflow::{children_of, distinct_workflows, host_workflow_child_for_cancel, HostWorkflowChildren};
use crate::runtime::{queued_job_skipped_event, runtime_error_event};
use crate::scheduler::{
    active_with_id, queued_with_id, CancelAction, kept_on_failure, ready_job, release_all, skipped_on_failure, active_other_than, QueuedRuntimeJob, RuntimeScheduler,
};
use crate::seqs::{first_index, keep};
use crate::text::{opt_text, owned, text_eq};

verus! {

/// What the dispatcher does next.
#[derive(Debug)]
pub enum DispatchStep {
    /// No job can start now.
    Idle,
    /// Generate a rubric: the job's inputs are prepared from its payload.
    GenerateRubric(QueuedRuntimeJob),
    /// Run the job as it was queued.
    Run(QueuedRuntimeJob),
}

/// Takes the next job to start, if one may start now: the first queued job
/// that waits for nothing, while fewer jobs run than allowed. Rubric jobs are
/// told apart from the others.
pub fn next_dispatch(scheduler: &mut RuntimeScheduler) -> (step: DispatchStep)
    ensures
        final(scheduler).active() == old(scheduler).active(),
        final(scheduler).max_concurrent() == old(scheduler).max_concurrent(),
        !old(scheduler).may_dispatch() ==> step is Idle && final(scheduler).pending() == old(scheduler).pending(),
        old(scheduler).may_dispatch() ==> {
            let i = first_index(old(scheduler).pending(), ready_job());
            let job = old(scheduler).pending()[i];
            &&& i < old(scheduler).pending().len()
            &&& final(scheduler).pending() == old(scheduler).pending().remove(i)
            &&& job.command_name@ == "exam.generate-rubric"@ ==> step == DispatchStep::GenerateRubric(job)
            &&& job.command_name@ != "exam.generate-rubric"@ ==> step == DispatchStep::Run(job)
        },
{
    if !scheduler.should_dispatch_next() {
        return DispatchStep::Idle;
    }
    proof {
        crate::seqs::lemma_first_index_props(scheduler.pending(), ready_job());
    }
    match scheduler.pop_next_job() {
        Some(job) => {
            if text_eq(job.command_name.as_str(), "exam.generate-rubric") {
                DispatchStep::GenerateRubric(job)
            } else {
                DispatchStep::Run(job)
            }
        },
        None => DispatchStep::Idle,
    }
}

/// A job taken from the queue could not start: the runtime error is
/// reported, the job counts as failed (its dependents that asked to be
/// skipped leave the queue, the others are released), and a skip event is
/// reported for each skipped dependent. Returns the events in order.
pub fn fail_popped_queued_job(
    scheduler: &mut RuntimeScheduler,
    command_name: &str,
    job_id: &str,
    message: &str,
) -> (events: Vec<RuntimeJobEvent>)
    ensures
        final(scheduler).active() == keep(old(scheduler).active(), active_other_than(job_id@)),
        final(scheduler).pending() == release_all(keep(old(scheduler).pending(), kept_on_failure(job_id@)), job_id@),
        final(scheduler).max_concurrent() == old(scheduler).max_concurrent(),
        events@.len() == 1 + keep(old(scheduler).pending(), skipped_on_failure(job_id@)).len(),
        crate::runtime::event_of(events@[0], "runtime_error"@, command_name@, crate::errors::WorkerStatus::Error, None, None),
        crate::json::members_of(events@[0].payload).len() == 1 && crate::json::is_text(
            crate::json::members_of(events@[0].payload)[0].value,
            message@,
        ),
        forall|k: int| 1 <= k < events@.len() ==> {
            let job = #[trigger] keep(old(scheduler).pending(), skipped_on_failure(job_id@))[k - 1];
            crate::runtime::event_of(
                events@[k],
                "job_skipped"@,
                job.command_name@,
                crate::errors::WorkerStatus::Ready,
                Some(job.request_id@),
                Some(job.job_id@),
            )
        },
{
    let mut events: Vec<RuntimeJobEvent> = Vec::new();
    events.push(runtime_error_event(command_name, message));
    let skipped = scheduler.on_job_failed(job_id);
    let mut i: usize = 0;
    while i < skipped.len()
        invariant
            i <= skipped@.len(),
            events@.len() == 1 + i,
            crate::runtime::event_of(events@[0], "runtime_error"@, command_name@, crate::errors::WorkerStatus::Error, None, None),
            crate::json::members_of(events@[0].payload).len() == 1 && crate::json::is_text(
                crate::json::members_of(events@[0].payload)[0].value,
                message@,
            ),
            forall|k: int| 1 <= k < events@.len() ==> {
                let job = #[trigger] skipped@[k - 1];
                crate::runtime::event_of(
                    events@[k],
                    "job_skipped"@,
                    job.command_name@,
                    crate::errors::WorkerStatus::Ready,
                    Some(job.request_id@),
                    Some(job.job_id@),
                )
            },
        decreases skipped@.len() - i,
    {
        events.push(queued_job_skipped_event(&skipped[i], job_id));
        i += 1;
    }
    events
}


/// The job a cancel request stops: the job asked for, else the first
/// running job (an empty id when none runs); a host workflow is stopped
/// through the last child job it started.
pub open spec fn cancel_target(
    requested: Option<Seq<char>>,
    scheduler: RuntimeScheduler,
    children: Seq<HostWorkflowChildren>,
) -> Seq<char> {
    let id = match requested {
        Some(r) => r,
        None => if scheduler.active().len() > 0 {
            scheduler.active()[0].job.job_id@
        } else {
            Seq::empty()
        },
    };
    let kids = children_of(children, id);
    if kids.len() > 0 {
        kids.last()
    } else {
        id
    }
}

/// What cancelling `job_id` does: a queued job leaves the queue; a running
/// job is to be signalled (once); an unknown id is refused and nothing
/// changes.
pub open spec fn cancels(
    before: RuntimeScheduler,
    after: RuntimeScheduler,
    job_id: Seq<char>,
    r: Result<CancelAction, HostError>,
) -> bool {
    let q = first_index(before.pending(), queued_with_id(job_id));
    let a = first_index(before.active(), active_with_id(job_id));
    &&& after.active() == before.active()
    &&& after.max_concurrent() == before.max_concurrent()
    &&& q < before.pending().len() ==> r == Ok::<CancelAction, HostError>(CancelAction::RemovedQueued)
        && after.pending() == before.pending().remove(q)
    &&& q == before.pending().len() ==> after.pending() == before.pending()
    &&& q == before.pending().len() && a < before.active().len() ==> r == Ok::<CancelAction, HostError>(
        if before.active()[a].cancel_requested {
            CancelAction::AlreadyRequested
        } else {
            CancelAction::SignalWorker
        },
    )
    &&& q == before.pending().len() && a == before.active().len() ==> (r matches Err(e) && e is Validation
        && e.msg() == "No active or queued job found with id '"@ + job_id + "'."@)
}

/// The id of the job a cancel request stops (see `cancel_target`).
pub fn cancel_target_job_id(
    requested: Option<String>,
    scheduler: &RuntimeScheduler,
    children: &Vec<HostWorkflowChildren>,
) -> (r: String)
    requires
        distinct_workflows(children@),
    ensures
        r@ == cancel_target(opt_text(requested), *scheduler, children@),
{
    let id = match requested {
        Some(r) => r,
        None => match scheduler.active_job_id() {
            Some(a) => owned(a),
            None => String::new(),
        },
    };
    match host_workflow_child_for_cancel(children, id.as_str()) {
        Some(child) => child,
        None => id,
    }
}

/// Cancels the job a cancel request is about (see `cancel_target` and
/// `cancels`).
pub fn cancel_active_job(
    scheduler: &mut RuntimeScheduler,
    children: &Vec<HostWorkflowChildren>,
    requested: Option<String>,
) -> (r: Result<CancelAction, HostError>)
    requires
        distinct_workflows(children@),
    ensures
        cancels(*old(scheduler), *final(scheduler), cancel_target(opt_text(requested), *old(scheduler), children@), r),
{
    let target = cancel_target_job_id(requested, scheduler, children);
    scheduler.cancel_job(target.as_str())
}

} // verus!
