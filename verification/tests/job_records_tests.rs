use scriptscore_state::job_records::{job_completion_record, job_progress_record, job_submission_record, skipped_dependent_records};
use scriptscore_state::json::get;
use scriptscore_state::scheduler::QueuedRuntimeJob;
use scriptscore_state::json::{as_i64, JsonMember, JsonValue};
use scriptscore_state::runtime::{CompletedWorkerJob, WorkerJobResult};

fn object(members: Vec<(&str, JsonValue)>) -> JsonValue {
    JsonValue::Object(members.into_iter().map(|(k, v)| JsonMember { key: k.to_string(), value: v }).collect())
}

fn text(s: &str) -> JsonValue {
    JsonValue::Text(s.to_string())
}

fn number(s: &str) -> JsonValue {
    JsonValue::Number(s.to_string())
}

fn completed(terminal_type: &str, envelope: JsonValue) -> CompletedWorkerJob {
    CompletedWorkerJob {
        job_id: "job-1".into(),
        result: WorkerJobResult {
            terminal_type: terminal_type.into(),
            terminal_payload: JsonValue::Null,
            envelope,
            events: Vec::new(),
        },
    }
}

#[test]
fn integers_are_read_from_json_number_text() {
    assert_eq!(as_i64(&number("42")), Some(42));
    assert_eq!(as_i64(&number("-7")), Some(-7));
    assert_eq!(as_i64(&number("0")), Some(0));
    assert_eq!(as_i64(&number("9223372036854775807")), Some(i64::MAX));
    assert_eq!(as_i64(&number("-9223372036854775808")), Some(i64::MIN));
    assert_eq!(as_i64(&number("9223372036854775808")), None);
    assert_eq!(as_i64(&number("123456789012345678901234567890")), None);
    assert_eq!(as_i64(&number("1.5")), None);
    assert_eq!(as_i64(&number("1e3")), None);
    assert_eq!(as_i64(&number("-0")), None);
    assert_eq!(as_i64(&number("007")), None);
    assert_eq!(as_i64(&number("-")), None);
    assert_eq!(as_i64(&text("5")), None);
}

#[test]
fn submitted_jobs_are_recorded_with_their_request() {
    let r = job_submission_record("exam.analyze", object(vec![("a", number("1"))]), "req-1", "job-1", "2024-01-01T00:00:00Z");
    assert_eq!(r.state, "submitted");
    assert_eq!(r.job_id, "job-1");
    assert_eq!(r.request_id, "req-1");
    assert_eq!(r.command_name, "exam.analyze");
    assert_eq!(r.request, object(vec![("a", number("1"))]));
    assert!(r.started_at.is_none() && r.finished_at.is_none() && r.result.is_none() && r.error.is_none());
}

#[test]
fn progress_events_are_recorded_with_defaults() {
    let event = object(vec![
        ("sequence", number("3")),
        ("event", text("page_done")),
        ("progress", object(vec![("done", number("2"))])),
        ("scope", JsonValue::Null),
        ("timestamp", text("2024-01-01T00:00:01Z")),
    ]);
    let r = job_progress_record(event);
    assert_eq!(r.sequence, 3);
    assert_eq!(r.event_type, "page_done");
    assert_eq!(r.progress, Some(object(vec![("done", number("2"))])));
    assert_eq!(r.scope, None);
    assert_eq!(r.data, JsonValue::Object(Vec::new()));
    assert_eq!(r.created_at, "2024-01-01T00:00:01Z");

    let bare = job_progress_record(object(vec![("sequence", number("2.5")), ("data", JsonValue::Null)]));
    assert_eq!(bare.sequence, 0);
    assert_eq!(bare.event_type, "progress");
    assert_eq!(bare.data, JsonValue::Null);
    assert_eq!(bare.created_at, "");
}

#[test]
fn job_completions_keep_the_reply_or_its_error() {
    let envelope = object(vec![("timing", object(vec![("finished_at", text("t1"))])), ("data", number("1"))]);
    let done = job_completion_record(completed("job_finished", envelope));
    assert_eq!(done.state, "succeeded");
    assert_eq!(done.finished_at, "t1");
    assert!(done.result.is_some() && done.error.is_none());

    let failed = job_completion_record(completed("job_failed", object(vec![("error", object(vec![("message", text("boom"))]))])));
    assert_eq!(failed.state, "failed");
    assert_eq!(failed.finished_at, "");
    assert_eq!(failed.result, None);
    assert_eq!(failed.error, Some(object(vec![("message", text("boom"))])));

    let cancelled = job_completion_record(completed("job_cancelled", object(Vec::new())));
    assert_eq!(cancelled.state, "cancelled");
    assert_eq!(cancelled.error, None);
}

fn queued(project_path: Option<&str>) -> QueuedRuntimeJob {
    QueuedRuntimeJob {
        job_id: "rubric".into(),
        request_id: "req-rubric".into(),
        command_name: "exam.generate-rubric".into(),
        worker_request_payload: JsonValue::Null,
        persisted_request_payload: object(vec![("question_id", text("q1"))]),
        output_artifacts_dir: None,
        project_path: project_path.map(String::from),
        submitted_at: "t0".into(),
        depends_on_job_id: Some("analyze".into()),
        skip_if_dependency_failed: true,
        settings: None,
    }
}

#[test]
fn skipped_dependents_are_recorded_only_in_a_project() {
    assert!(skipped_dependent_records(queued(None), "analyze", "t1").is_none());
    let (run, done) = skipped_dependent_records(queued(Some("/p")), "analyze", "t1").expect("project job");
    assert_eq!(run.job_id, "rubric");
    assert_eq!(run.state, "submitted");
    assert_eq!(run.submitted_at, "t0");
    assert_eq!(run.request, object(vec![("question_id", text("q1"))]));
    assert_eq!(done.state, "skipped");
    assert_eq!(done.finished_at, "t1");
    let error = done.error.expect("error payload");
    assert_eq!(get(&error, "code"), Some(&text("dependency_failed")));
    assert_eq!(get(&error, "dependencyJobId"), Some(&text("analyze")));
}
