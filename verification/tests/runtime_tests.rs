use scriptscore_state::dispatch::{cancel_active_job, cancel_target_job_id, fail_popped_queued_job, next_dispatch, DispatchStep};
use scriptscore_state::host_workflow::{record_host_workflow_child, HostWorkflowChildren};
use scriptscore_state::errors::{HostError, RuntimeEventSink, RuntimeJobEvent, WorkerStatus};
use scriptscore_state::runtime::{CompletedWorkerJob, ProtocolMessage, WorkerJobResult};
use scriptscore_state::worker_messages::{handle_worker_message, terminal_runtime_event, WorkerMessageRecord};
use scriptscore_state::json::{get, JsonMember, JsonValue};
use scriptscore_state::models::{ExamWorkspaceState, ModerationState, ProjectSummary, QuestionRecord, ResultsLmsState, RubricCriterion, RubricState, StudentWorkflowState};
use scriptscore_state::project_setup::{
    auto_rubric_question_ids_to_enqueue, eligible_auto_rubric_question_ids, queued_generate_rubric_job,
    template_status_allows_auto_rubric_enqueue,
};
use scriptscore_state::runtime::{
    job_completion_state, merge_scheduler_snapshot, parse_queued_generate_rubric_inputs,
    runtime_error_after_project_open, terminal_worker_status, updates_global_runtime_error,
};
use scriptscore_state::scheduler::{question_id_from_worker_payload, CancelAction, QueuedRuntimeJob, RuntimeScheduler};

struct NoopSink;

impl RuntimeEventSink for NoopSink {
    fn emit_runtime_event(&self, _event: RuntimeJobEvent) {}
}

fn object(members: Vec<(&str, JsonValue)>) -> JsonValue {
    JsonValue::Object(members.into_iter().map(|(k, v)| JsonMember { key: k.to_string(), value: v }).collect())
}

fn text(s: &str) -> JsonValue {
    JsonValue::Text(s.to_string())
}

fn queued_job(job_id: &str, depends_on_job_id: Option<&str>, skip_if_dependency_failed: bool) -> QueuedRuntimeJob {
    QueuedRuntimeJob {
        job_id: job_id.into(),
        request_id: format!("req-{job_id}"),
        command_name: "test.command".into(),
        worker_request_payload: object(Vec::new()),
        persisted_request_payload: object(Vec::new()),
        output_artifacts_dir: None,
        project_path: None,
        submitted_at: "0".into(),
        depends_on_job_id: depends_on_job_id.map(String::from),
        skip_if_dependency_failed,
        settings: None,
    }
}

fn rubric_job(job_id: &str) -> QueuedRuntimeJob {
    QueuedRuntimeJob {
        job_id: job_id.into(),
        request_id: format!("req-{job_id}"),
        command_name: "exam.generate-rubric".into(),
        worker_request_payload: object(Vec::new()),
        persisted_request_payload: object(Vec::new()),
        output_artifacts_dir: None,
        project_path: None,
        submitted_at: "0".into(),
        depends_on_job_id: Some("analyze".into()),
        skip_if_dependency_failed: true,
        settings: None,
    }
}

fn queued_rubric_job(worker_request_payload: JsonValue) -> QueuedRuntimeJob {
    QueuedRuntimeJob {
        job_id: "job-1".into(),
        request_id: "req-1".into(),
        command_name: "exam.generate-rubric".into(),
        worker_request_payload,
        persisted_request_payload: object(Vec::new()),
        output_artifacts_dir: None,
        project_path: Some("/tmp/project".into()),
        submitted_at: "0".into(),
        depends_on_job_id: None,
        skip_if_dependency_failed: false,
        settings: Some(object(Vec::new())),
    }
}

#[test]
fn project_open_runtime_error_policy_preserves_recovery_and_clears_stale_probe_errors() {
    assert_eq!(runtime_error_after_project_open(Some("Ollama is unreachable.".into()), None, true,), None);
    assert_eq!(
        runtime_error_after_project_open(Some("worker launch failed".into()), None, false,),
        Some("worker launch failed".into())
    );
    assert_eq!(
        runtime_error_after_project_open(
            Some("Ollama is unreachable.".into()),
            Some("Recovered abandoned jobs.".into()),
            true,
        ),
        Some("Recovered abandoned jobs.".into())
    );
}

#[test]
fn background_provider_probes_do_not_update_global_runtime_error() {
    assert!(!updates_global_runtime_error("runtime.list-llm-models"));
    assert!(!updates_global_runtime_error("runtime.validate-llm-model"));
    assert!(updates_global_runtime_error("exam.analyze"));
}

#[test]
fn question_id_from_worker_payload_reads_single_question_target() {
    let payload = object(vec![(
        "question_targets",
        JsonValue::Array(vec![object(vec![
            ("question_id", text("question_2")),
            ("template_question_png_path", text("/tmp/q2.png")),
        ])]),
    )]);

    assert_eq!(question_id_from_worker_payload(&payload).as_deref(), Some("question_2"));
}

#[test]
fn question_id_from_worker_payload_ignores_several_targets() {
    let payload = object(vec![(
        "question_targets",
        JsonValue::Array(vec![
            object(vec![("question_id", text("question_1"))]),
            object(vec![("question_id", text("question_2"))]),
        ]),
    )]);
    assert_eq!(question_id_from_worker_payload(&payload), None);
    let direct = object(vec![("question_id", text("q9"))]);
    assert_eq!(question_id_from_worker_payload(&direct).as_deref(), Some("q9"));
}

#[test]
fn completed_jobs_promote_dependents() {
    let sink = NoopSink;
    let mut scheduler = RuntimeScheduler::default();
    scheduler.queue_job(queued_job("analyze", None, false), &sink);
    scheduler.queue_job(queued_job("rubric", Some("analyze"), true), &sink);

    let next = scheduler.pop_next_job().expect("root job should dequeue");
    assert_eq!(next.job_id, "analyze");
    assert!(!scheduler.should_dispatch_next());

    scheduler.on_job_complete("analyze");
    assert!(scheduler.should_dispatch_next());

    let promoted = scheduler.pop_next_job().expect("dependent should promote");
    assert_eq!(promoted.job_id, "rubric");
    assert!(promoted.depends_on_job_id.is_none());
}

#[test]
fn failed_jobs_drop_skip_dependents() {
    let sink = NoopSink;
    let mut scheduler = RuntimeScheduler::default();
    scheduler.queue_job(queued_job("analyze", None, false), &sink);
    scheduler.queue_job(queued_job("rubric", Some("analyze"), true), &sink);
    scheduler.queue_job(queued_job("followup", Some("analyze"), false), &sink);

    let next = scheduler.pop_next_job().expect("root job should dequeue");
    assert_eq!(next.job_id, "analyze");

    let skipped = scheduler.on_job_failed("analyze");
    assert_eq!(skipped.len(), 1);
    assert_eq!(skipped[0].job_id, "rubric");

    let promoted = scheduler.pop_next_job().expect("non-skipping dependent should remain");
    assert_eq!(promoted.job_id, "followup");
    assert!(promoted.depends_on_job_id.is_none());
    assert!(scheduler.pop_next_job().is_none());
}

#[test]
fn failed_parent_drops_all_skip_dependents_that_shared_that_dependency() {
    let sink = NoopSink;
    let mut scheduler = RuntimeScheduler::default();
    scheduler.queue_job(queued_job("analyze", None, false), &sink);
    scheduler.queue_job(rubric_job("rubric_a"), &sink);
    scheduler.queue_job(rubric_job("rubric_b"), &sink);

    let next = scheduler.pop_next_job().expect("root");
    assert_eq!(next.job_id, "analyze");
    let skipped = scheduler.on_job_failed("analyze");

    assert_eq!(skipped.len(), 2);
    assert_eq!(skipped[0].job_id, "rubric_a");
    assert_eq!(skipped[1].job_id, "rubric_b");
    assert_eq!(scheduler.pending_job_count(), 0);
    assert!(scheduler.pop_next_job().is_none());
}

#[test]
fn cancelling_a_queued_job_removes_it_and_unknown_ids_are_refused() {
    let sink = NoopSink;
    let mut scheduler = RuntimeScheduler::default();
    scheduler.queue_job(queued_job("a", None, false), &sink);
    scheduler.queue_job(queued_job("b", None, false), &sink);
    assert_eq!(scheduler.cancel_job("a").expect("queued job cancels"), CancelAction::RemovedQueued);
    assert_eq!(scheduler.pending_job_count(), 1);
    let err = scheduler.cancel_job("zzz").expect_err("unknown job");
    assert_eq!(err.message(), "No active or queued job found with id 'zzz'.");
}

#[test]
fn queued_generate_rubric_requires_question_id() {
    let err = parse_queued_generate_rubric_inputs(&queued_rubric_job(object(Vec::new())))
        .expect_err("missing question id should fail");
    assert_eq!(err, "Queued rubric job was missing question_id.");
}

#[test]
fn queued_generate_rubric_defaults_replace_existing_true() {
    let inputs = parse_queued_generate_rubric_inputs(&queued_rubric_job(object(vec![("question_id", text("q1"))])))
        .expect("queued rubric inputs should parse");
    assert_eq!(inputs.question_id, "q1");
    assert!(inputs.replace_existing);
}

#[test]
fn merge_scheduler_snapshot_adds_scheduler_and_intake_fields() {
    let scheduler = RuntimeScheduler::default();
    let mut payload = object(Vec::new());
    merge_scheduler_snapshot(&mut payload, &scheduler, true, 3, 1);

    let number = |key: &str| match get(&payload, key) {
        Some(JsonValue::Number(n)) => n.clone(),
        _ => String::new(),
    };
    assert_eq!(number("schedulerActiveJobs"), "0");
    assert_eq!(number("schedulerPendingJobs"), "0");
    assert!(matches!(get(&payload, "intakePipelineActive"), Some(JsonValue::Bool(true))));
    assert_eq!(number("intakePipelineRedactTotal"), "3");
    assert_eq!(number("intakePipelineRedactIndex"), "1");
}

#[test]
fn emit_terminal_runtime_event_uses_ready_status_for_failed_and_cancelled() {
    let scheduler = RuntimeScheduler::default();
    let mut events = Vec::new();
    for terminal_type in ["job_failed", "job_cancelled"] {
        assert!(matches!(terminal_worker_status(terminal_type), WorkerStatus::Ready));
        events.push(terminal_runtime_event(
            &scheduler,
            false,
            0,
            0,
            "scans.parse",
            "req-1",
            "job-1",
            CompletedWorkerJob {
                job_id: "job-1".into(),
                result: WorkerJobResult {
                    terminal_type: terminal_type.into(),
                    terminal_payload: object(Vec::new()),
                    envelope: object(Vec::new()),
                    events: Vec::new(),
                },
            },
        ));
    }
    assert_eq!(events.len(), 2);
    assert!(events.iter().all(|event| matches!(event.worker_status, WorkerStatus::Ready)));
    assert_eq!(events[1].event_type, "job_cancelled");
    assert_eq!(get(&events[0].payload, "schedulerPendingJobs"), Some(&JsonValue::Number("0".into())));
}

#[test]
fn job_completion_states_follow_the_terminal_type() {
    assert_eq!(job_completion_state("job_finished"), "succeeded");
    assert_eq!(job_completion_state("job_cancelled"), "cancelled");
    assert_eq!(job_completion_state("job_failed"), "failed");
}

fn question(id: &str, image: bool, analysis_complete: bool, criteria: usize) -> QuestionRecord {
    QuestionRecord {
        question_id: id.into(),
        question_number: 1,
        text: "Q".into(),
        max_points: Some(5),
        page_number: 1,
        image_path: if image { Some(format!("/tmp/{id}.png")) } else { None },
        analysis_complete,
        rubric: RubricState {
            criteria: (0..criteria).map(|i| RubricCriterion { label: format!("c{i}"), points: 1 }).collect(),
            approved: false,
        },
    }
}

fn workspace(status: &str, questions: Vec<QuestionRecord>) -> ExamWorkspaceState {
    ExamWorkspaceState {
        project: ProjectSummary {
            project_id: "proj_1".into(),
            display_name: "Exam".into(),
            project_path: "/tmp/project".into(),
            lms_course_id: None,
        },
        status: status.into(),
        questions,
        student_intake_items: Vec::new(),
        student_workflow: StudentWorkflowState { status: "not_started".into(), latest_job_id: None, submissions: Vec::new() },
        student_roster: Vec::new(),
        moderation_state: ModerationState { score_overrides: Vec::new(), feedback_overrides: Vec::new(), question_reviews: Vec::new() },
        results_lms_state: ResultsLmsState {
            selected_target: None,
            finalization_records: Vec::new(),
            asset_bindings: Vec::new(),
            upload_attempts: Vec::new(),
        },
        results_lms_rows: Vec::new(),
    }
}

#[test]
fn auto_rubric_targets_questions_with_image_analysis_and_no_criteria() {
    let ws = workspace(
        "draft",
        vec![
            question("q1", true, true, 0),
            question("q2", false, true, 0),
            question("q3", true, false, 0),
            question("q4", true, true, 2),
            question("q5", true, true, 0),
        ],
    );
    assert!(template_status_allows_auto_rubric_enqueue(&ws));
    assert_eq!(eligible_auto_rubric_question_ids(&ws), vec!["q1", "q5"]);
    assert!(!template_status_allows_auto_rubric_enqueue(&workspace("setup_running", Vec::new())));
}

#[test]
fn auto_rubric_skips_questions_with_a_rubric_job_already_queued() {
    let sink = NoopSink;
    let ws = workspace("approved", vec![question("q1", true, true, 0), question("q2", true, true, 0)]);
    let mut scheduler = RuntimeScheduler::default();
    let queued = queued_generate_rubric_job("/tmp/project", None, "q1", "job-1".into(), "req-1".into(), "0".into());
    assert!(matches!(get(&queued.worker_request_payload, "replace_existing"), Some(JsonValue::Bool(true))));
    scheduler.queue_job(queued, &sink);
    assert_eq!(auto_rubric_question_ids_to_enqueue(&scheduler, &ws), vec!["q2"]);
    assert!(auto_rubric_question_ids_to_enqueue(&scheduler, &workspace("failed", vec![question("q3", true, true, 0)])).is_empty());
}

#[test]
fn dispatch_takes_the_first_ready_job_and_tells_rubric_jobs_apart() {
    let sink = NoopSink;
    let mut scheduler = RuntimeScheduler::default();
    assert!(matches!(next_dispatch(&mut scheduler), DispatchStep::Idle));
    scheduler.queue_job(rubric_job("rubric"), &sink);
    scheduler.queue_job(queued_job("analyze", None, false), &sink);
    match next_dispatch(&mut scheduler) {
        DispatchStep::Run(job) => assert_eq!(job.job_id, "analyze"),
        other => panic!("expected a plain run, got {other:?}"),
    }
    assert_eq!(scheduler.pending_job_count(), 1);
    scheduler.push_active_job(queued_job("analyze", None, false));
    assert!(matches!(next_dispatch(&mut scheduler), DispatchStep::Idle));
    scheduler.on_job_complete("analyze");
    match next_dispatch(&mut scheduler) {
        DispatchStep::GenerateRubric(job) => assert_eq!(job.job_id, "rubric"),
        other => panic!("expected a rubric job, got {other:?}"),
    }
    assert_eq!(scheduler.pending_job_count(), 0);
}

#[test]
fn failing_a_popped_job_reports_the_error_and_each_skipped_dependent() {
    let sink = NoopSink;
    let mut scheduler = RuntimeScheduler::default();
    scheduler.queue_job(queued_job("analyze", None, false), &sink);
    scheduler.queue_job(rubric_job("rubric_a"), &sink);
    scheduler.queue_job(queued_job("followup", Some("analyze"), false), &sink);
    let popped = scheduler.pop_next_job().expect("root job");
    let events = fail_popped_queued_job(&mut scheduler, &popped.command_name, &popped.job_id, "worker launch failed");
    assert_eq!(events.len(), 2);
    assert_eq!(events[0].event_type, "runtime_error");
    assert_eq!(events[0].command_name, "test.command");
    assert_eq!(events[0].worker_status, WorkerStatus::Error);
    assert_eq!(get(&events[0].payload, "message"), Some(&text("worker launch failed")));
    assert_eq!(events[1].event_type, "job_skipped");
    assert_eq!(events[1].job_id.as_deref(), Some("rubric_a"));
    assert_eq!(get(&events[1].payload, "dependencyJobId"), Some(&text("analyze")));
    let next = scheduler.pop_next_job().expect("released dependent");
    assert_eq!(next.job_id, "followup");
    assert!(next.depends_on_job_id.is_none());
}

fn worker_message(message_type: &str, job_id: Option<&str>, payload: JsonValue) -> ProtocolMessage {
    ProtocolMessage {
        message_type: message_type.into(),
        request_id: Some("req-1".into()),
        job_id: job_id.map(String::from),
        payload,
    }
}

#[test]
fn job_started_messages_record_the_start_and_relay_the_snapshot() {
    let sink = NoopSink;
    let mut scheduler = RuntimeScheduler::default();
    scheduler.queue_job(queued_job("job-1", None, false), &sink);
    let job = scheduler.pop_next_job().expect("job");
    scheduler.push_active_job(job);
    let persisted = object(vec![("question_id", text("q1")), ("student_ref", text("s-7"))]);
    let message = worker_message("job_started", Some("job-1"), object(vec![("timestamp", text("2024-05-01T10:00:00Z"))]));
    let handled = handle_worker_message(&mut scheduler, false, 0, 0, "exam.analyze", true, &persisted, message)
        .expect("complete message");
    assert_eq!(
        handled.record,
        WorkerMessageRecord::JobStarted { job_id: "job-1".into(), started_at: "2024-05-01T10:00:00Z".into() }
    );
    assert_eq!(scheduler.active_job_summaries()[0].started_at.as_deref(), Some("2024-05-01T10:00:00Z"));
    let event = handled.event;
    assert_eq!(event.event_type, "job_started");
    assert_eq!(event.command_name, "exam.analyze");
    assert_eq!(event.worker_status, WorkerStatus::Busy);
    assert_eq!(event.job_id.as_deref(), Some("job-1"));
    assert_eq!(get(&event.payload, "schedulerActiveJobs"), Some(&JsonValue::Number("1".into())));
    assert_eq!(get(&event.payload, "schedulerPendingJobs"), Some(&JsonValue::Number("0".into())));
    assert_eq!(get(&event.payload, "questionId"), Some(&text("q1")));
    assert_eq!(get(&event.payload, "studentRef"), Some(&text("s-7")));
    assert_eq!(get(&event.payload, "timestamp"), Some(&text("2024-05-01T10:00:00Z")));
}

#[test]
fn incomplete_worker_messages_are_protocol_errors() {
    let mut scheduler = RuntimeScheduler::default();
    let persisted = object(Vec::new());
    let no_time = worker_message("job_started", Some("job-1"), object(Vec::new()));
    match handle_worker_message(&mut scheduler, false, 0, 0, "exam.analyze", false, &persisted, no_time) {
        Err(HostError::Protocol(m)) => assert_eq!(m, "Worker job_started message was missing timestamp."),
        other => panic!("expected a protocol error, got {other:?}"),
    }
    let no_job = worker_message("job_started", None, object(vec![("timestamp", text("t"))]));
    match handle_worker_message(&mut scheduler, false, 0, 0, "exam.analyze", false, &persisted, no_job) {
        Err(HostError::Protocol(m)) => assert_eq!(m, "Worker job_started message was missing job_id."),
        other => panic!("expected a protocol error, got {other:?}"),
    }
    let progress = worker_message("job_progress", None, object(Vec::new()));
    match handle_worker_message(&mut scheduler, false, 0, 0, "exam.analyze", true, &persisted, progress) {
        Err(HostError::Protocol(m)) => assert_eq!(m, "Worker job_progress message was missing job_id."),
        other => panic!("expected a protocol error, got {other:?}"),
    }
}

#[test]
fn other_worker_messages_are_relayed_with_ready_status() {
    let mut scheduler = RuntimeScheduler::default();
    let persisted = object(Vec::new());
    let progress = worker_message("job_progress", None, object(Vec::new()));
    let handled = handle_worker_message(&mut scheduler, false, 0, 0, "exam.analyze", false, &persisted, progress)
        .expect("no project, nothing to record");
    assert_eq!(handled.record, WorkerMessageRecord::Nothing);
    assert_eq!(handled.event.worker_status, WorkerStatus::Busy);
    let finished = worker_message("job_finished", Some("job-1"), JsonValue::Null);
    let handled = handle_worker_message(&mut scheduler, true, 3, 1, "exam.analyze", true, &persisted, finished)
        .expect("finished message");
    assert_eq!(handled.record, WorkerMessageRecord::Nothing);
    assert_eq!(handled.event.worker_status, WorkerStatus::Ready);
    assert_eq!(handled.event.payload, JsonValue::Null);
}

#[test]
fn cancel_requests_reach_the_running_job_or_a_host_workflow_child() {
    let sink = NoopSink;
    let mut scheduler = RuntimeScheduler::default();
    let mut children: Vec<HostWorkflowChildren> = Vec::new();
    assert_eq!(cancel_target_job_id(None, &scheduler, &children), "");
    scheduler.push_active_job(queued_job("workflow-1", None, false));
    assert_eq!(cancel_target_job_id(None, &scheduler, &children), "workflow-1");
    record_host_workflow_child(&mut children, "workflow-1", "child-a");
    record_host_workflow_child(&mut children, "workflow-1", "child-b");
    assert_eq!(cancel_target_job_id(None, &scheduler, &children), "child-b");
    assert_eq!(cancel_target_job_id(Some("other".into()), &scheduler, &children), "other");

    scheduler.queue_job(queued_job("queued", None, false), &sink);
    assert_eq!(cancel_active_job(&mut scheduler, &children, Some("queued".into())).expect("queued"), CancelAction::RemovedQueued);
    assert_eq!(scheduler.pending_job_count(), 0);
    assert_eq!(cancel_active_job(&mut scheduler, &children, Some("workflow-1".into())).expect_err("child not running").message(),
        "No active or queued job found with id 'child-b'.");
    assert_eq!(
        cancel_active_job(&mut scheduler, &Vec::new(), None).expect("running job"),
        CancelAction::SignalWorker
    );
}

#[test]
fn handle_worker_message_merges_question_id_from_persisted_payload() {
    let mut scheduler = RuntimeScheduler::default();
    let message = ProtocolMessage {
        message_type: "job_started".into(),
        request_id: Some("req-gr".into()),
        job_id: Some("job-gr".into()),
        payload: object(vec![("timestamp", text("99"))]),
    };
    let handled = handle_worker_message(
        &mut scheduler,
        false,
        0,
        0,
        "exam.generate-rubric",
        false,
        &object(vec![("question_id", text("q-a"))]),
        message,
    )
    .expect("message should handle");
    assert_eq!(get(&handled.event.payload, "questionId"), Some(&text("q-a")));
}

#[test]
fn relayed_worker_payloads_carry_intake_progress_and_keep_their_members() {
    let mut scheduler = RuntimeScheduler::default();
    let message = worker_message("job_progress", Some("job-1"), object(vec![("progress", text("half"))]));
    let handled = handle_worker_message(&mut scheduler, true, 7, 2, "intake.redact", false, &object(Vec::new()), message)
        .expect("progress without a project");
    let payload = &handled.event.payload;
    assert_eq!(get(payload, "intakePipelineActive"), Some(&JsonValue::Bool(true)));
    assert_eq!(get(payload, "intakePipelineRedactTotal"), Some(&JsonValue::Number("7".into())));
    assert_eq!(get(payload, "intakePipelineRedactIndex"), Some(&JsonValue::Number("2".into())));
    assert_eq!(get(payload, "progress"), Some(&text("half")));
    assert!(get(payload, "questionId").is_none());
}
