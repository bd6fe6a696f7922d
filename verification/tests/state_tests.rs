use scriptscore_state::errors::WorkerStatus;
use scriptscore_state::host_workflow::{
    host_workflow_child_for_cancel, nested_snapshot, record_host_workflow_child, workflow_error_payload,
    workflow_failed_event, workflow_finished_event, workflow_started_event, HostWorkflowChildren, HostWorkflowResultKind,
};
use scriptscore_state::json::{get, JsonValue};
use scriptscore_state::models::{
    ExamWorkspaceState, LmsRosterCacheStatus, LmsRosterRow, ModerationFeedbackOverride, ModerationScoreOverride,
    ModerationState, ProjectSummary, ResultFinalizationRecord, ResultsLmsAssetBinding, ResultsLmsState, StudentIntakeSummary,
    StudentRosterRow, StudentWorkflowAnswer, StudentWorkflowPage, StudentWorkflowState, StudentWorkflowSubmission,
};
use scriptscore_state::pii::{
    local_pii_trigger_words_by_student_ref, merge_trigger_words, pii_name_parts, pii_trigger_words_by_student_ref_from_roster,
    pii_trigger_words_for_roster_row, push_pii_trigger, trigger_words_for,
};
use scriptscore_state::project_setup::{
    binding_course_id_without_project, intake_row_has_canonical_outputs, prior_canonical_submission_exists,
    roster_match_result,
};
use scriptscore_state::roster_cache::{
    roster_cache_event,
    cached_rows_if_ready, required_cached_rows, ActiveLmsRosterLoader, CacheResolution, PreloadStep, ProjectLmsRosterCache,
    RosterReconcileOutcome,
};
use scriptscore_state::submission_delete::{
    artifact_path_candidates, delete_student_submission_records, distinct_paths, path_components_of, project_owned_artifact_paths, DeleteStudentSubmissionInput,
    RemovedStudentSubmission,
};

fn canvas_loader(course_id: &str) -> ActiveLmsRosterLoader {
    ActiveLmsRosterLoader {
        provider_id: "canvas".into(),
        course_id: course_id.into(),
        base_url: "https://canvas.example".into(),
    }
}

fn roster_row(user_id: &str, display_name: &str) -> LmsRosterRow {
    LmsRosterRow {
        user_id: user_id.into(),
        display_name: display_name.into(),
        sort_key: display_name.to_lowercase(),
        email: None,
        login_id: None,
    }
}

#[test]
fn open_project_preloads_and_reuses_cached_rows() {
    let mut cache = ProjectLmsRosterCache::default();
    let outcome = cache.reconcile(
        CacheResolution::Ready { project_path: "/tmp/project-a".into(), loader: canvas_loader("course-a") },
        true,
    );
    let generation = match outcome {
        RosterReconcileOutcome::StartedLoading(g) => g,
        other => panic!("opening a project should start a preload, got {other:?}"),
    };
    assert_eq!(cache.snapshot().status, LmsRosterCacheStatus::Loading);

    let step = cache.record_fetch_outcome(generation, Ok(vec![roster_row("course-a-student", "Test Student")]));
    assert_eq!(step, PreloadStep::NotifyAndStop);
    let snapshot = cache.snapshot();
    assert_eq!(snapshot.course_id.as_deref(), Some("course-a"));
    assert_eq!(snapshot.rows.len(), 1);

    let again = cache.reconcile(
        CacheResolution::Ready { project_path: "/tmp/project-a".into(), loader: canvas_loader("course-a") },
        true,
    );
    assert_eq!(again, RosterReconcileOutcome::Unchanged, "reading ready cache must not refetch roster");
    let (course, rows) = required_cached_rows(cache.snapshot(), "Test action").expect("ready cache should satisfy consumer reads");
    assert_eq!(course, "course-a");
    assert_eq!(rows.len(), 1);
}

#[test]
fn close_project_clears_cached_rows() {
    let mut cache = ProjectLmsRosterCache::default();
    let g = match cache.reconcile(
        CacheResolution::Ready { project_path: "/tmp/project-close".into(), loader: canvas_loader("course-close") },
        true,
    ) {
        RosterReconcileOutcome::StartedLoading(g) => g,
        _ => panic!("preload should start"),
    };
    cache.record_fetch_outcome(g, Ok(vec![roster_row("student-1", "Student One")]));

    cache.clear_for_closed_project();
    let snapshot = cache.snapshot();
    assert_eq!(snapshot.status, LmsRosterCacheStatus::Idle);
    assert!(snapshot.rows.is_empty());
    assert!(snapshot.project_path.is_none());
    assert!(cached_rows_if_ready(cache.snapshot()).is_none());
}

#[test]
fn stale_preload_results_are_ignored_and_errors_retry() {
    let mut cache = ProjectLmsRosterCache::default();
    let first = match cache.reconcile(
        CacheResolution::Ready { project_path: "/tmp/a".into(), loader: canvas_loader("course-a") },
        true,
    ) {
        RosterReconcileOutcome::StartedLoading(g) => g,
        _ => panic!("preload should start"),
    };
    assert_eq!(cache.record_fetch_outcome(first, Err("timeout".into())), PreloadStep::NotifyAndContinue);
    assert_eq!(cache.snapshot().status, LmsRosterCacheStatus::Error);
    assert!(required_cached_rows(cache.snapshot(), "Upload").is_err());
    let second = match cache.reconcile(
        CacheResolution::Ready { project_path: "/tmp/b".into(), loader: canvas_loader("course-b") },
        true,
    ) {
        RosterReconcileOutcome::StartedLoading(g) => g,
        _ => panic!("switching projects should start a new preload"),
    };
    assert_ne!(first, second);
    assert_eq!(cache.record_fetch_outcome(first, Ok(vec![roster_row("x", "X")])), PreloadStep::Stop);
    assert_eq!(cache.snapshot().status, LmsRosterCacheStatus::Loading);
}

#[test]
fn name_parts_split_on_separators_and_drop_short_pieces() {
    assert_eq!(pii_name_parts("Ada Lovelace-Byron"), vec!["Ada", "Lovelace-Byron"]);
    assert_eq!(pii_name_parts("O'Neil, J. Smith"), vec!["O'Neil", "Smith"]);
    assert_eq!(pii_name_parts("Zoë Ü"), vec!["Zoë", "Ü"]);
    assert!(pii_name_parts("").is_empty());
}

#[test]
fn trigger_words_skip_blank_and_case_insensitive_repeats() {
    let mut out = Vec::new();
    let mut seen = Vec::new();
    push_pii_trigger(&mut out, &mut seen, "  Ada  ");
    push_pii_trigger(&mut out, &mut seen, "ADA");
    push_pii_trigger(&mut out, &mut seen, "   ");
    push_pii_trigger(&mut out, &mut seen, "Byron");
    assert_eq!(out, vec!["Ada", "Byron"]);
    assert_eq!(seen, vec!["ada", "byron"]);
}

#[test]
fn roster_row_trigger_words_include_name_parts_email_and_login() {
    let row = LmsRosterRow {
        user_id: "42".into(),
        display_name: " Amy First ".into(),
        sort_key: "first, amy".into(),
        email: Some("amy@example.edu".into()),
        login_id: Some("AMY FIRST".into()),
    };
    assert_eq!(pii_trigger_words_for_roster_row(&row), vec!["Amy First", "Amy", "First", "amy@example.edu"]);
}

fn intake_item(student_ref: &str, name: Option<&str>) -> StudentIntakeSummary {
    StudentIntakeSummary {
        student_ref: student_ref.into(),
        local_display_name: name.map(String::from),
        canonical_pdf_path: format!("/tmp/{student_ref}.pdf"),
        ingest_status: "ok".into(),
        page_count: 1,
        exam_page_paths: vec!["/tmp/p1.png".into()],
        warnings: Vec::new(),
        binding_token_hex: None,
    }
}

fn workspace(intake: Vec<StudentIntakeSummary>, roster: Vec<StudentRosterRow>) -> ExamWorkspaceState {
    ExamWorkspaceState {
        project: ProjectSummary {
            project_id: "proj".into(),
            display_name: "Exam".into(),
            project_path: "/tmp/project".into(),
            lms_course_id: Some("course-a".into()),
        },
        status: "approved".into(),
        questions: Vec::new(),
        student_intake_items: intake,
        student_workflow: StudentWorkflowState { status: "not_started".into(), latest_job_id: None, submissions: Vec::new() },
        student_roster: roster,
        moderation_state: ModerationState { score_overrides: Vec::new(), feedback_overrides: Vec::new(), question_reviews: Vec::new() },
        results_lms_state: ResultsLmsState {
            selected_target: None,
            finalization_records: Vec::new(),
            asset_bindings: Vec::new(),
            upload_attempts: Vec::new(),
        },
        results_lms_rows: Vec::new(),
    }
}

#[test]
fn trigger_words_by_student_prefer_roster_entries() {
    let ws = workspace(
        vec![intake_item("student_1", Some("Ada Local")), intake_item("student_2", Some("  ")), intake_item("student_3", None)],
        vec![StudentRosterRow { student_ref: "student_1".into(), binding_token_hex: "tok-1".into() }],
    );
    let local = local_pii_trigger_words_by_student_ref(&ws);
    assert_eq!(local.len(), 1);
    assert_eq!(local[0].student_ref, "student_1");
    assert_eq!(local[0].words, vec!["Ada Local", "Ada", "Local"]);

    let roster = vec![roster_row("1", "Ada Roster"), roster_row("2", "Nobody Here")];
    let tokens = vec![Some("tok-1".to_string()), Some("tok-unknown".to_string())];
    let from_roster = pii_trigger_words_by_student_ref_from_roster(&ws, &roster, &tokens);
    assert_eq!(from_roster.len(), 1);
    assert_eq!(from_roster[0].words, vec!["Ada Roster", "Ada", "Roster"]);

    let all = merge_trigger_words(local, from_roster);
    assert_eq!(trigger_words_for(&all, "student_1").unwrap(), &vec!["Ada Roster".to_string(), "Ada".to_string(), "Roster".to_string()]);
    assert!(trigger_words_for(&all, "student_3").is_none());
}

#[test]
fn lms_binding_checks() {
    let mut without_pdf = intake_item("student_2", None);
    without_pdf.canonical_pdf_path = " ".into();
    assert!(intake_row_has_canonical_outputs(&intake_item("student_1", None)));
    assert!(!intake_row_has_canonical_outputs(&without_pdf));
    let items = vec![intake_item("student_1", None), without_pdf];
    assert!(prior_canonical_submission_exists(&items, Some("student_1")));
    assert!(!prior_canonical_submission_exists(&items, Some("student_2")));
    assert!(!prior_canonical_submission_exists(&items, None));
    assert_eq!(binding_course_id_without_project(" 123 ").unwrap(), "123");
    assert_eq!(
        binding_course_id_without_project("  ").unwrap_err().message(),
        "Canvas course id is required for LMS binding."
    );
    let matched = roster_match_result(Some("student_1".into()), "tok".into()).unwrap();
    assert_eq!(matched.student_ref, "student_1");
    assert!(roster_match_result(None, "tok".into()).unwrap_err().message().contains("Run LMS roster preload before intake."));
}

#[test]
fn host_workflow_events_report_kind_children_and_errors() {
    let started = workflow_started_event("workspace.save", HostWorkflowResultKind::Workspace, true, "req-1", "wf-1");
    assert_eq!(started.event_type, "job_started");
    assert_eq!(started.worker_status, WorkerStatus::Busy);
    assert!(matches!(get(&started.payload, "resultKind"), Some(JsonValue::Text(k)) if k == "workspace"));
    assert!(matches!(get(&started.payload, "data"), Some(JsonValue::Null)));

    let nested = vec!["job-a".to_string(), "job-b".to_string()];
    let finished = workflow_finished_event(
        "workspace.save",
        HostWorkflowResultKind::Nothing,
        false,
        "req-1",
        "wf-1",
        &nested,
        JsonValue::Bool(true),
    );
    assert_eq!(finished.worker_status, WorkerStatus::Ready);
    assert!(matches!(get(&finished.payload, "resultKind"), Some(JsonValue::Text(k)) if k == "none"));
    assert!(matches!(get(&finished.payload, "nestedJobIds"), Some(JsonValue::Array(ids)) if ids.len() == 2));

    let failed = workflow_failed_event("workspace.save", true, "req-1", "wf-1", &nested, "boom", WorkerStatus::Error);
    assert_eq!(failed.event_type, "job_failed");
    assert_eq!(failed.worker_status, WorkerStatus::Error);
    let payload = workflow_error_payload(true, &nested, "boom");
    match get(&payload, "error") {
        Some(inner) => assert!(matches!(get(inner, "message"), Some(JsonValue::Text(m)) if m == "boom")),
        None => panic!("error object expected"),
    }
}

#[test]
fn host_workflow_children_track_the_last_started_job() {
    let mut children: Vec<HostWorkflowChildren> = Vec::new();
    assert_eq!(host_workflow_child_for_cancel(&children, "wf-1"), None);
    record_host_workflow_child(&mut children, "wf-1", "job-a");
    record_host_workflow_child(&mut children, "wf-2", "job-x");
    record_host_workflow_child(&mut children, "wf-1", "job-b");
    assert_eq!(host_workflow_child_for_cancel(&children, "wf-1").as_deref(), Some("job-b"));
    assert_eq!(nested_snapshot(&children, "wf-1"), vec!["job-a", "job-b"]);
    assert_eq!(nested_snapshot(&children, "wf-2"), vec!["job-x"]);
    assert!(nested_snapshot(&children, "wf-3").is_empty());
}

fn submission_with_files(student_ref: &str) -> StudentWorkflowSubmission {
    StudentWorkflowSubmission {
        student_ref: student_ref.into(),
        canonical_pdf_path: format!("/project/artifacts/{student_ref}.pdf"),
        page_count: 1,
        stage: "graded".into(),
        latest_job_id: None,
        failure_message: None,
        warnings: Vec::new(),
        page_artifacts: vec![StudentWorkflowPage {
            page_number: 1,
            image_path: format!("/project/artifacts/{student_ref}-1.png"),
            source_pdf_path: None,
            ocr_metadata_path: Some(format!("/project/artifacts/{student_ref}-1.json")),
        }],
        alignment_pages: Vec::new(),
        detect_review: None,
        answers: vec![StudentWorkflowAnswer {
            question_id: "q1".into(),
            question_number: 1,
            crop_image_path: Some(format!("/project/artifacts/{student_ref}-q1.png")),
            manual_grading_required: false,
            manual_grading_reason: None,
            moderation_eligible: true,
            parse_status: "ok".into(),
            parse_confidence: None,
            parse_confidence_source: None,
            raw_parsed_text: None,
            verified_text: None,
            review_required: false,
            verified: true,
            stale: false,
            grading_status: "draft_ready".into(),
            grading_confidence: None,
            grading_confidence_reason: None,
            question_max_points: Some(5),
            total_points_awarded: Some(5),
            feedback_text: None,
            criterion_results: Vec::new(),
            highlights: Vec::new(),
            warnings: Vec::new(),
        }],
    }
}

#[test]
fn deletes_student_submission_current_state_and_project_scoped_refs() {
    let mut intake = vec![intake_item("student_1", None), intake_item("student_2", None)];
    intake[0].canonical_pdf_path = "/project/artifacts/student_1.pdf".into();
    let mut workflow = StudentWorkflowState {
        status: "graded".into(),
        latest_job_id: None,
        submissions: vec![submission_with_files("student_1"), submission_with_files("student_2")],
    };
    let mut moderation = ModerationState {
        score_overrides: vec![
            ModerationScoreOverride { student_ref: "student_1".into(), question_id: "q1".into(), moderated_total_points: 3 },
            ModerationScoreOverride { student_ref: "student_2".into(), question_id: "q1".into(), moderated_total_points: 4 },
        ],
        feedback_overrides: vec![ModerationFeedbackOverride {
            student_ref: "student_1".into(),
            question_id: "q1".into(),
            feedback_text: "x".into(),
        }],
        question_reviews: Vec::new(),
    };
    let mut results = ResultsLmsState {
        selected_target: None,
        finalization_records: vec![ResultFinalizationRecord {
            student_ref: "student_1".into(),
            result_fingerprint: "fp".into(),
            finalized_at: "1".into(),
        }],
        asset_bindings: vec![ResultsLmsAssetBinding {
            provider: "canvas".into(),
            course_id: "c".into(),
            assignment_id: "a".into(),
            student_ref: "student_2".into(),
            local_asset_name: "q1.jpg".into(),
            asset_fingerprint: "afp".into(),
            provider_file_id: "f".into(),
        }],
        upload_attempts: Vec::new(),
    };

    let removed = delete_student_submission_records(
        &mut intake,
        &mut workflow,
        &mut moderation,
        &mut results,
        &DeleteStudentSubmissionInput { student_ref: " student_1 ".into() },
    )
    .expect("deletion should succeed");

    assert_eq!(intake.len(), 1);
    assert_eq!(intake[0].student_ref, "student_2");
    assert_eq!(workflow.submissions.len(), 1);
    assert_eq!(workflow.submissions[0].student_ref, "student_2");
    assert_eq!(moderation.score_overrides.len(), 1);
    assert!(moderation.feedback_overrides.is_empty());
    assert!(results.finalization_records.is_empty());
    assert_eq!(results.asset_bindings.len(), 1);

    let paths = project_owned_artifact_paths(&removed);
    assert_eq!(
        paths,
        vec![
            "/project/artifacts/student_1.pdf",
            "/tmp/p1.png",
            "/project/artifacts/student_1-1.png",
            "/project/artifacts/student_1-1.json",
            "/project/artifacts/student_1-q1.png",
        ]
    );
}

#[test]
fn deleting_missing_student_returns_validation_error() {
    let mut intake = vec![intake_item("student_1", None)];
    let mut workflow = StudentWorkflowState { status: "ready".into(), latest_job_id: None, submissions: Vec::new() };
    let mut moderation = ModerationState { score_overrides: Vec::new(), feedback_overrides: Vec::new(), question_reviews: Vec::new() };
    let mut results = ResultsLmsState {
        selected_target: None,
        finalization_records: Vec::new(),
        asset_bindings: Vec::new(),
        upload_attempts: Vec::new(),
    };
    let err = delete_student_submission_records(
        &mut intake,
        &mut workflow,
        &mut moderation,
        &mut results,
        &DeleteStudentSubmissionInput { student_ref: "student_9".into() },
    )
    .unwrap_err();
    assert_eq!(err.message(), "Student submission 'student_9' was not found.");
    let blank = delete_student_submission_records(
        &mut intake,
        &mut workflow,
        &mut moderation,
        &mut results,
        &DeleteStudentSubmissionInput { student_ref: "  ".into() },
    )
    .unwrap_err();
    assert_eq!(blank.message(), "studentRef is required.");
    assert_eq!(intake.len(), 1);
}

#[test]
fn roster_cache_events_carry_the_snapshot() {
    let e = roster_cache_event(WorkerStatus::Busy, JsonValue::Bool(true));
    assert_eq!(e.event_type, "lms_roster_cache_updated");
    assert_eq!(e.command_name, "lms.roster-cache");
    assert_eq!(e.worker_status, WorkerStatus::Busy);
    assert!(e.request_id.is_none() && e.job_id.is_none());
    assert_eq!(e.payload, JsonValue::Bool(true));
}

#[test]
fn path_components_follow_path_normalization() {
    assert_eq!(path_components_of("/a//b/./c/"), vec!["/", "a", "b", "c"]);
    assert_eq!(path_components_of("./a"), vec![".", "a"]);
    assert_eq!(path_components_of("a/./b"), vec!["a", "b"]);
    assert_eq!(path_components_of("a/../b"), vec!["a", "..", "b"]);
    assert_eq!(path_components_of("."), vec!["."]);
    assert!(path_components_of("").is_empty());
}

#[test]
fn owned_paths_keep_one_of_paths_with_equal_components() {
    let mut item = intake_item("student_1", None);
    item.canonical_pdf_path = "/project/artifacts//student_1.pdf".into();
    item.exam_page_paths = vec![
        "/project/artifacts/student_1.pdf".into(),
        "/project/artifacts/./student_1.pdf/".into(),
        "./p.png".into(),
        "p.png".into(),
        "p.png".into(),
    ];
    let removed = RemovedStudentSubmission { intake: Some(item), workflow: None };
    assert_eq!(
        project_owned_artifact_paths(&removed),
        vec!["/project/artifacts//student_1.pdf", "./p.png", "p.png"]
    );
}

#[test]
fn distinct_paths_keep_the_first_spelling_of_each_path() {
    let paths: Vec<String> = vec!["a/b/".into(), "a/b".into(), "a//b".into(), "./a/b".into(), "/a/b".into()];
    assert_eq!(distinct_paths(&paths), vec!["a/b/", "./a/b", "/a/b"]);
    let removed = RemovedStudentSubmission { intake: Some(intake_item("student_1", None)), workflow: None };
    assert_eq!(artifact_path_candidates(&removed), vec!["/tmp/student_1.pdf", "/tmp/p1.png"]);
}
