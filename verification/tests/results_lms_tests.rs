use std::sync::{Arc, Mutex};

use scriptscore_state::errors::{RuntimeEventSink, RuntimeJobEvent, WorkerStatus};
use scriptscore_state::json::{get, JsonValue};
use scriptscore_state::models::{
    ExamWorkspaceState, LmsRosterCacheSnapshot, LmsRosterCacheStatus, LmsUploadAttemptResult, LmsUploadMode,
    LmsUploadPreparationRow, LmsUploadPublishOutcome, LmsUploadStudentResult, LmsUploadStudentStatus, ModerationState,
    ProjectSummary, ResultStudentRow, ResultsLmsAssetBinding, ResultsLmsState, ResultsLmsTarget, StudentRosterRow,
    StudentWorkflowState,
};
use scriptscore_state::results_lms::{
    new_upload_batch_id,
    apply_published_asset_bindings, build_upload_attempt, build_upload_preparation_row,
    emit_results_lms_upload_batch_failed, emit_results_lms_upload_batch_started,
    emit_results_lms_upload_student_finished, emit_results_lms_upload_student_started,
    normalize_requested_student_refs, resolve_transient_user_ids, trim_upload_attempt_history,
    tracked_upload_student_refs, validate_retry_target, validate_roster_cache, UploadPreparationContext,
};

#[derive(Clone, Default)]
struct RecordingEventSink {
    events: Arc<Mutex<Vec<RuntimeJobEvent>>>,
}

impl RecordingEventSink {
    fn snapshot(&self) -> Vec<RuntimeJobEvent> {
        let events = self.events.lock().expect("event sink lock");
        events
            .iter()
            .map(|e| RuntimeJobEvent {
                event_type: e.event_type.clone(),
                command_name: e.command_name.clone(),
                worker_status: e.worker_status,
                request_id: e.request_id.clone(),
                job_id: e.job_id.clone(),
                payload: copy_json(&e.payload),
            })
            .collect()
    }
}

impl RuntimeEventSink for RecordingEventSink {
    fn emit_runtime_event(&self, event: RuntimeJobEvent) {
        self.events.lock().expect("event sink lock").push(event);
    }
}

fn copy_json(v: &JsonValue) -> JsonValue {
    match v {
        JsonValue::Null => JsonValue::Null,
        JsonValue::Bool(b) => JsonValue::Bool(*b),
        JsonValue::Number(n) => JsonValue::Number(n.clone()),
        JsonValue::Text(s) => JsonValue::Text(s.clone()),
        JsonValue::Array(items) => JsonValue::Array(items.iter().map(copy_json).collect()),
        JsonValue::Object(members) => JsonValue::Object(
            members
                .iter()
                .map(|m| scriptscore_state::json::JsonMember { key: m.key.clone(), value: copy_json(&m.value) })
                .collect(),
        ),
    }
}

fn text_at<'a>(v: &'a JsonValue, key: &str) -> Option<&'a str> {
    match get(v, key) {
        Some(JsonValue::Text(s)) => Some(s.as_str()),
        _ => None,
    }
}

fn target(provider: &str, course_id: &str, assignment_id: &str) -> ResultsLmsTarget {
    ResultsLmsTarget { provider: provider.into(), course_id: course_id.into(), assignment_id: assignment_id.into() }
}

fn upload_attempt(attempt_id: &str, student_ref: &str) -> LmsUploadAttemptResult {
    LmsUploadAttemptResult {
        attempt_id: attempt_id.into(),
        mode: LmsUploadMode::Live,
        provider: "canvas".into(),
        course_id: "course-a".into(),
        assignment_id: "assignment-1".into(),
        started_at: "1".into(),
        finished_at: "2".into(),
        attempted_count: 1,
        success_count: 0,
        failure_count: 1,
        student_results: vec![LmsUploadStudentResult {
            student_ref: student_ref.into(),
            result_fingerprint: "fp".into(),
            status: LmsUploadStudentStatus::Failed,
            sanitized_error: Some("failed".into()),
        }],
    }
}

fn asset_binding(
    provider: &str,
    course_id: &str,
    assignment_id: &str,
    student_ref: &str,
    provider_file_id: &str,
) -> ResultsLmsAssetBinding {
    ResultsLmsAssetBinding {
        provider: provider.into(),
        course_id: course_id.into(),
        assignment_id: assignment_id.into(),
        student_ref: student_ref.into(),
        local_asset_name: "q1.jpg".into(),
        asset_fingerprint: "asset-fp".into(),
        provider_file_id: provider_file_id.into(),
    }
}

fn result_row(
    student_ref: &str,
    finalized: bool,
    stale_finalization: bool,
    result_fingerprint: Option<&str>,
) -> ResultStudentRow {
    ResultStudentRow {
        student_ref: student_ref.into(),
        aggregate_total: 10,
        aggregate_complete: true,
        ready_to_finalize: true,
        blocked_reasons: Vec::new(),
        question_rows: Vec::new(),
        result_fingerprint: result_fingerprint.map(ToOwned::to_owned),
        finalized,
        stale_finalization,
        finalized_at: None,
        uploaded: false,
        upload_failed: false,
        latest_upload_error: None,
        last_upload_attempt_id: None,
    }
}

fn empty_results_state() -> ResultsLmsState {
    ResultsLmsState {
        selected_target: None,
        finalization_records: Vec::new(),
        asset_bindings: Vec::new(),
        upload_attempts: Vec::new(),
    }
}

fn workspace_for_lms(project_path: &str, course_id: &str) -> ExamWorkspaceState {
    ExamWorkspaceState {
        project: ProjectSummary {
            project_id: "proj_1".into(),
            display_name: "Results LMS".into(),
            project_path: project_path.into(),
            lms_course_id: Some(course_id.into()),
        },
        status: "ready".into(),
        questions: Vec::new(),
        student_intake_items: Vec::new(),
        student_workflow: StudentWorkflowState { status: "not_started".into(), latest_job_id: None, submissions: Vec::new() },
        student_roster: Vec::new(),
        moderation_state: ModerationState {
            score_overrides: Vec::new(),
            feedback_overrides: Vec::new(),
            question_reviews: Vec::new(),
        },
        results_lms_state: empty_results_state(),
        results_lms_rows: Vec::new(),
    }
}

fn ready_roster_cache(project_path: &str, provider: &str, course_id: &str) -> LmsRosterCacheSnapshot {
    LmsRosterCacheSnapshot {
        status: LmsRosterCacheStatus::Ready,
        project_path: Some(project_path.into()),
        lms_provider: Some(provider.into()),
        course_id: Some(course_id.into()),
        rows: Vec::new(),
        last_error: None,
        idle_reason: None,
    }
}

fn preparation_row(student_ref: &str) -> LmsUploadPreparationRow {
    LmsUploadPreparationRow {
        student_ref: student_ref.into(),
        user_id: String::new(),
        result_fingerprint: String::new(),
        score: 0,
        report_html_template: String::new(),
        report_assets: Vec::new(),
        existing_asset_bindings: Vec::new(),
    }
}

#[test]
fn validate_retry_target_rejects_assignment_mismatch() {
    let error = validate_retry_target(
        Some(&target("canvas", "course-a", "assignment-2")),
        &LmsUploadAttemptResult {
            attempt_id: "attempt-1".into(),
            mode: LmsUploadMode::Live,
            provider: "canvas".into(),
            course_id: "course-a".into(),
            assignment_id: "assignment-1".into(),
            started_at: "1".into(),
            finished_at: "2".into(),
            attempted_count: 1,
            success_count: 0,
            failure_count: 1,
            student_results: vec![LmsUploadStudentResult {
                student_ref: "student_1".into(),
                result_fingerprint: "fp".into(),
                status: LmsUploadStudentStatus::Failed,
                sanitized_error: Some("failed".into()),
            }],
        },
    )
    .expect_err("retry should fail when the selected assignment changed");

    assert!(error.message().contains("selected LMS assignment no longer matches"));
}

#[test]
fn validate_retry_target_rejects_missing_selected_assignment() {
    let error = validate_retry_target(None, &upload_attempt("attempt-1", "student_1"))
        .expect_err("retry should fail without selected assignment");

    assert!(error.message().contains("Re-select the LMS assignment"));
}

#[test]
fn validate_retry_target_accepts_matching_assignment() {
    assert!(validate_retry_target(
        Some(&target("canvas", "course-a", "assignment-1")),
        &upload_attempt("attempt-1", "student_1")
    )
    .is_ok());
}

#[test]
fn upload_preparation_returns_preflight_failures_before_publish() {
    let selected_target = target("canvas", "course-a", "assignment-1");
    let transient_user_ids = vec![("student_1".to_string(), "42".to_string())];
    let questions = Vec::new();
    let bindings = Vec::new();
    let context = UploadPreparationContext {
        exam_title: "Exam",
        selected_target: &selected_target,
        existing_asset_bindings: &bindings,
        questions: &questions,
        transient_user_ids: &transient_user_ids,
    };
    let unfinalized = result_row("student_1", false, false, Some("fp-1"));
    let stale = result_row("student_1", true, true, Some("fp-1"));
    let missing_roster = result_row("student_2", true, false, Some("fp-2"));
    let missing_submission = result_row("student_1", true, false, Some("fp-1"));

    let unfinalized_failure = build_upload_preparation_row(&context, &unfinalized, None, Vec::new())
        .expect("preflight should not fail host validation")
        .expect_err("unfinalized result should be preflight failure");
    let stale_failure = build_upload_preparation_row(&context, &stale, None, Vec::new())
        .expect("preflight should not fail host validation")
        .expect_err("stale result should be preflight failure");
    let roster_failure = build_upload_preparation_row(&context, &missing_roster, None, Vec::new())
        .expect("preflight should not fail host validation")
        .expect_err("missing roster user should be preflight failure");
    let submission_failure = build_upload_preparation_row(&context, &missing_submission, None, Vec::new())
        .expect("preflight should not fail host validation")
        .expect_err("missing submission should be preflight failure");

    assert!(unfinalized_failure.sanitized_error.as_deref().unwrap().contains("currently finalized"));
    assert!(stale_failure.sanitized_error.as_deref().unwrap().contains("currently finalized"));
    assert!(roster_failure.sanitized_error.as_deref().unwrap().contains("current LMS roster cache"));
    assert!(submission_failure.sanitized_error.as_deref().unwrap().contains("graded submission"));
}

#[test]
fn validate_roster_cache_rejects_not_ready_project_course_and_provider_mismatches() {
    let workspace = workspace_for_lms("/tmp/project-a", "course-a");
    let ready = ready_roster_cache("/tmp/project-a", "canvas", "course-a");
    let selected_target = target("canvas", "course-a", "assignment-1");
    validate_roster_cache(&ready, &workspace, &selected_target).expect("matching ready roster cache should validate");

    let mut not_ready = ready_roster_cache("/tmp/project-a", "canvas", "course-a");
    not_ready.status = LmsRosterCacheStatus::Loading;
    assert!(validate_roster_cache(&not_ready, &workspace, &selected_target)
        .unwrap_err()
        .message()
        .contains("not ready"));

    let wrong_project = ready_roster_cache("/tmp/project-b", "canvas", "course-a");
    assert!(validate_roster_cache(&wrong_project, &workspace, &selected_target)
        .unwrap_err()
        .message()
        .contains("different project"));

    let wrong_course = ready_roster_cache("/tmp/project-a", "canvas", "course-b");
    assert!(validate_roster_cache(&wrong_course, &workspace, &selected_target)
        .unwrap_err()
        .message()
        .contains("selected course"));

    let wrong_provider = ready_roster_cache("/tmp/project-a", "schoology", "course-a");
    assert!(validate_roster_cache(&wrong_provider, &workspace, &selected_target)
        .unwrap_err()
        .message()
        .contains("selected provider"));
}

#[test]
fn resolve_transient_user_ids_maps_roster_tokens_to_persisted_student_refs() {
    let student_roster = vec![
        StudentRosterRow { student_ref: "student_1".into(), binding_token_hex: "token-for-42".into() },
        StudentRosterRow { student_ref: "student_2".into(), binding_token_hex: "unmatched".into() },
    ];
    let roster_tokens = vec![("token-for-42".to_string(), "42".to_string())];

    let resolved = resolve_transient_user_ids(&student_roster, &roster_tokens);

    assert_eq!(resolved.len(), 1);
    assert_eq!(resolved[0].0, "student_1");
    assert_eq!(resolved[0].1, "42");
    assert!(!resolved.iter().any(|(student_ref, _)| student_ref == "student_2"));
}

#[test]
fn normalize_requested_student_refs_deduplicates_trims_and_rejects_unknown_rows() {
    let rows = vec![
        result_row("student_1", true, false, Some("fp-1")),
        result_row("student_2", true, false, Some("fp-2")),
    ];

    let all = normalize_requested_student_refs(&Vec::new(), &rows).expect("empty means all selected");
    assert!(all.is_empty());

    let requested_refs =
        vec![" student_1 ".to_string(), "".to_string(), "student_1".to_string(), "student_2".to_string()];
    let requested = normalize_requested_student_refs(&requested_refs, &rows).expect("known requested refs should normalize");

    assert_eq!(requested.len(), 2);
    assert!(requested.iter().any(|r| r == "student_1"));
    assert!(requested.iter().any(|r| r == "student_2"));
    assert!(normalize_requested_student_refs(&vec!["missing".to_string()], &rows)
        .unwrap_err()
        .message()
        .contains("Result row 'missing' was not found"));
}

#[test]
fn upload_attempt_counts_ready_uploaded_and_failed_results() {
    let selected_target = target("canvas", "course-a", "assignment-1");
    let attempt = build_upload_attempt(
        &selected_target,
        LmsUploadMode::DryRun,
        "1".into(),
        "2".into(),
        vec![
            LmsUploadStudentResult {
                student_ref: "student_1".into(),
                result_fingerprint: "fp-1".into(),
                status: LmsUploadStudentStatus::Ready,
                sanitized_error: None,
            },
            LmsUploadStudentResult {
                student_ref: "student_2".into(),
                result_fingerprint: "fp-2".into(),
                status: LmsUploadStudentStatus::Uploaded,
                sanitized_error: None,
            },
            LmsUploadStudentResult {
                student_ref: "student_3".into(),
                result_fingerprint: "fp-3".into(),
                status: LmsUploadStudentStatus::Failed,
                sanitized_error: Some("failed".into()),
            },
        ],
    );

    assert_eq!(attempt.mode, LmsUploadMode::DryRun);
    assert_eq!(attempt.attempted_count, 3);
    assert_eq!(attempt.success_count, 2);
    assert_eq!(attempt.failure_count, 1);
}

#[test]
fn upload_attempt_ids_are_fresh_and_prefixed() {
    let selected_target = target("canvas", "course-a", "assignment-1");
    let a = build_upload_attempt(&selected_target, LmsUploadMode::Live, "1".into(), "2".into(), Vec::new());
    let b = build_upload_attempt(&selected_target, LmsUploadMode::Live, "1".into(), "2".into(), Vec::new());
    assert!(a.attempt_id.starts_with("attempt_"));
    assert_eq!(a.attempt_id.len(), 40);
    assert_ne!(a.attempt_id, b.attempt_id);
    assert_eq!(a.attempted_count, 0);
}

#[test]
fn tracked_upload_student_refs_merges_sort_and_deduplicates_publish_and_preflight_refs() {
    let preparation_rows = vec![preparation_row("student_2"), preparation_row("student_1")];
    let preflight_failures = vec![
        LmsUploadStudentResult {
            student_ref: "student_2".into(),
            result_fingerprint: "fp-2".into(),
            status: LmsUploadStudentStatus::Failed,
            sanitized_error: Some("failed".into()),
        },
        LmsUploadStudentResult {
            student_ref: "student_3".into(),
            result_fingerprint: "fp-3".into(),
            status: LmsUploadStudentStatus::Failed,
            sanitized_error: Some("failed".into()),
        },
    ];

    assert_eq!(
        tracked_upload_student_refs(&preparation_rows, &preflight_failures),
        vec!["student_1", "student_2", "student_3"]
    );
}

#[test]
fn trim_upload_attempt_history_keeps_most_recent_attempts() {
    let mut state = ResultsLmsState {
        upload_attempts: (0..15).map(|index| upload_attempt(&format!("attempt-{index}"), "student_1")).collect(),
        ..empty_results_state()
    };

    trim_upload_attempt_history(&mut state);

    assert_eq!(state.upload_attempts.len(), 12);
    assert_eq!(state.upload_attempts[0].attempt_id, "attempt-3");
    assert_eq!(state.upload_attempts[11].attempt_id, "attempt-14");
}

#[test]
fn published_asset_bindings_replace_only_matching_target_student() {
    let selected_target = target("canvas", "course-a", "assignment-1");
    let mut state = ResultsLmsState {
        asset_bindings: vec![
            asset_binding("canvas", "course-a", "assignment-1", "student_1", "old"),
            asset_binding("canvas", "course-a", "assignment-1", "student_2", "keep-student"),
            asset_binding("canvas", "course-a", "assignment-2", "student_1", "keep-assignment"),
            asset_binding("canvas", "course-b", "assignment-1", "student_1", "keep-course"),
        ],
        ..empty_results_state()
    };
    let replacement = asset_binding("canvas", "course-a", "assignment-1", "student_1", "new");

    apply_published_asset_bindings(
        &mut state,
        &selected_target,
        &vec![LmsUploadPublishOutcome {
            student_result: LmsUploadStudentResult {
                student_ref: "student_1".into(),
                result_fingerprint: "fp".into(),
                status: LmsUploadStudentStatus::Uploaded,
                sanitized_error: None,
            },
            active_asset_bindings: vec![replacement],
        }],
    );

    let file_ids = state.asset_bindings.iter().map(|binding| binding.provider_file_id.as_str()).collect::<Vec<_>>();
    assert!(!file_ids.contains(&"old"));
    assert!(file_ids.contains(&"new"));
    assert!(file_ids.contains(&"keep-student"));
    assert!(file_ids.contains(&"keep-assignment"));
    assert!(file_ids.contains(&"keep-course"));
}

#[test]
fn upload_runtime_events_include_privacy_safe_payloads() {
    let sink = RecordingEventSink::default();
    let student_refs = vec!["student_1".to_string(), "student_2".to_string()];
    let finished = LmsUploadStudentResult {
        student_ref: "student_1".into(),
        result_fingerprint: "fp".into(),
        status: LmsUploadStudentStatus::Failed,
        sanitized_error: Some("Canvas API error 422 while publishing this score.".into()),
    };

    emit_results_lms_upload_batch_started(&sink, "batch-1", LmsUploadMode::Live, &student_refs);
    emit_results_lms_upload_student_started(&sink, "batch-1", "student_1");
    emit_results_lms_upload_student_finished(&sink, "batch-1", &finished);
    emit_results_lms_upload_batch_failed(&sink, "batch-1", "Upload failed.");

    let events = sink.snapshot();
    assert_eq!(events.len(), 4);
    assert_eq!(text_at(&events[0].payload, "batchId"), Some("batch-1"));
    assert_eq!(text_at(&events[0].payload, "mode"), Some("live"));
    match get(&events[0].payload, "studentRefs") {
        Some(JsonValue::Array(items)) => {
            let refs: Vec<&str> = items
                .iter()
                .map(|item| match item {
                    JsonValue::Text(s) => s.as_str(),
                    _ => "",
                })
                .collect();
            assert_eq!(refs, vec!["student_1", "student_2"]);
        }
        _ => panic!("studentRefs should be an array"),
    }
    assert!(matches!(events[0].worker_status, WorkerStatus::Busy));
    assert_eq!(text_at(&events[1].payload, "studentRef"), Some("student_1"));
    assert!(get(&events[1].payload, "resultFingerprint").is_none());
    assert_eq!(text_at(&events[2].payload, "status"), Some("failed"));
    assert_eq!(text_at(&events[2].payload, "error"), Some("Canvas API error 422 while publishing this score."));
    assert!(get(&events[2].payload, "userId").is_none());
    assert_eq!(text_at(&events[3].payload, "error"), Some("Upload failed."));
    assert!(matches!(events[3].worker_status, WorkerStatus::Error));
}

#[test]
fn upload_batch_ids_are_prefixed_fresh_uuids() {
    let a = new_upload_batch_id();
    let b = new_upload_batch_id();
    assert!(a.starts_with("results_upload_"));
    assert_eq!(a.len(), 51);
    assert_eq!(a.matches('-').count(), 4);
    assert_ne!(a, b);
}

#[test]
fn upload_batch_ids_hold_a_lower_case_hyphenated_uuid() {
    let id = new_upload_batch_id();
    let uuid: Vec<char> = id["results_upload_".len()..].chars().collect();
    assert_eq!(uuid.len(), 36);
    for (i, c) in uuid.iter().enumerate() {
        if [8, 13, 18, 23].contains(&i) {
            assert_eq!(*c, '-');
        } else {
            assert!(c.is_ascii_digit() || ('a'..='f').contains(c));
        }
    }
}
