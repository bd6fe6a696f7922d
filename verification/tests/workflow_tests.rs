use scriptscore_state::errors::{HostError, WorkerStatus};
use scriptscore_state::json::{get, JsonMember, JsonValue};
use scriptscore_state::models::{
    ExamWorkspaceState, ModerationState, ProjectSummary, QuestionRecord, ResultsLmsState, RubricState,
    StudentIntakeSummary, StudentWorkflowAlignmentPage, StudentWorkflowAnswer, StudentWorkflowDetectRegion,
    StudentWorkflowDetectReview, StudentWorkflowDetectReviewRow, StudentWorkflowPage, StudentWorkflowState,
    StudentWorkflowSubmission, StudentWorkflowTransform, WorkspaceWarning,
};
use scriptscore_state::runtime::{CompletedWorkerJob, WorkerJobResult};
use scriptscore_state::sorted::sorted_keys;
use scriptscore_state::stage_payloads::{
    clean_crop_row_count, completed_was_cancelled, crop_rows_from_answers, crop_targets_for_cli,
    filtered_completed_by_student, pii_identity_unavailable_warning, pii_student_request, preliminary_grading_request_payload,
    preliminary_grading_runtime_config, sanitized_pii_batch_request_payload, pii_targets_from_crop_rows, rows_for_student, sanitized_pii_request_payload, should_manual_block_pii_stage,
};
use scriptscore_state::workflow::{
    action_worker_status, apply_alignment_results, apply_parse_review, apply_stage_action, begin_existing_submission_stage,
    classify_batch_resume_points, confirm_student_detect_review, direct_stage_student_data_error,
    eligible_student_refs_for_workflow, ensure_submission_row, failed_resume_point, intake_map,
    mark_ref_for_direct_stage_error, mark_submission_failed, mark_submission_stopped, next_submission_stage_action,
    record_confirmed_alignment, record_submission_job_id, require_intake, reset_submission_for_restart,
    save_student_alignment_review, save_student_detect_review, set_submission_stage, stage_is_workflow_eligible,
    update_workflow_status, AlignmentOutcome, FailedResumePoint, ParseOutcome, PiiStageOutcome, StudentWorkflowAlignmentUpdateInput,
    StudentWorkflowDetectReviewInput, StudentWorkflowDetectReviewResolutionInput, StudentWorkflowParseReviewInput,
    SubmissionStageAction, SubmissionStageEvent,
};
use scriptscore_state::workflow::{
    apply_manual_pii_block, apply_pii_screening, begin_pii_stage, next_grading_batch_stage, next_grading_step,
    plan_grading_batch, resolved_crop_target_count, GradingBatchEvent, GradingStageAction, GradingStageEvent,
};

fn object(members: Vec<(&str, JsonValue)>) -> JsonValue {
    JsonValue::Object(members.into_iter().map(|(k, v)| JsonMember { key: k.to_string(), value: v }).collect())
}

fn text(s: &str) -> JsonValue {
    JsonValue::Text(s.to_string())
}

fn text_at<'a>(v: &'a JsonValue, key: &str) -> Option<&'a str> {
    match get(v, key) {
        Some(JsonValue::Text(s)) => Some(s.as_str()),
        _ => None,
    }
}

fn intake_summary(student_ref: &str) -> StudentIntakeSummary {
    StudentIntakeSummary {
        student_ref: student_ref.into(),
        local_display_name: None,
        canonical_pdf_path: format!("/tmp/{student_ref}.pdf"),
        ingest_status: "ready".into(),
        page_count: 2,
        exam_page_paths: vec!["/tmp/1.png".into(), "/tmp/2.png".into()],
        warnings: Vec::new(),
        binding_token_hex: None,
    }
}

fn workflow_submission(student_ref: &str) -> StudentWorkflowSubmission {
    StudentWorkflowSubmission {
        student_ref: student_ref.into(),
        canonical_pdf_path: format!("/tmp/{student_ref}.pdf"),
        page_count: 2,
        stage: "intake_ready".into(),
        latest_job_id: None,
        failure_message: None,
        warnings: Vec::new(),
        page_artifacts: Vec::new(),
        alignment_pages: Vec::new(),
        detect_review: None,
        answers: Vec::new(),
    }
}

fn transform(rotation: f64, scale: f64, translate_x: f64, translate_y: f64) -> StudentWorkflowTransform {
    StudentWorkflowTransform {
        rotation_bits: rotation.to_bits(),
        scale_bits: scale.to_bits(),
        translate_x_bits: translate_x.to_bits(),
        translate_y_bits: translate_y.to_bits(),
    }
}

fn alignment_page(page_number: i64) -> StudentWorkflowAlignmentPage {
    StudentWorkflowAlignmentPage {
        page_number,
        confidence_bits: Some(0.94f64.to_bits()),
        low_confidence: false,
        review_exempt: false,
        review_exempt_reason: None,
        question_count: 1,
        transform: transform(1.5, 0.98, 2.0, -3.0),
        warnings: Vec::new(),
    }
}

fn low_confidence_page(page_number: i64, confidence: f64, t: StudentWorkflowTransform) -> StudentWorkflowAlignmentPage {
    StudentWorkflowAlignmentPage {
        page_number,
        confidence_bits: Some(confidence.to_bits()),
        low_confidence: true,
        review_exempt: false,
        review_exempt_reason: None,
        question_count: 0,
        transform: t,
        warnings: Vec::new(),
    }
}

fn workflow_page(student_ref: &str, page_number: i64) -> StudentWorkflowPage {
    StudentWorkflowPage {
        page_number,
        image_path: format!("/tmp/{student_ref}-page-{page_number}.png"),
        source_pdf_path: Some(format!("/tmp/{student_ref}.pdf")),
        ocr_metadata_path: None,
    }
}

fn answer_seed(question_id: &str) -> StudentWorkflowAnswer {
    StudentWorkflowAnswer {
        question_id: question_id.into(),
        question_number: 1,
        crop_image_path: Some(format!("/tmp/{question_id}.png")),
        manual_grading_required: false,
        manual_grading_reason: None,
        moderation_eligible: true,
        parse_status: "pending".into(),
        parse_confidence: None,
        parse_confidence_source: None,
        raw_parsed_text: None,
        verified_text: None,
        review_required: false,
        verified: false,
        stale: false,
        grading_status: "not_started".into(),
        grading_confidence: None,
        grading_confidence_reason: None,
        question_max_points: Some(5),
        total_points_awarded: None,
        feedback_text: None,
        criterion_results: Vec::new(),
        highlights: Vec::new(),
        warnings: Vec::new(),
    }
}

fn question_on_page(page_number: i64) -> QuestionRecord {
    QuestionRecord {
        question_id: "q1".into(),
        question_number: 1,
        text: "Question 1".into(),
        max_points: None,
        page_number,
        image_path: None,
        analysis_complete: false,
        rubric: RubricState { criteria: Vec::new(), approved: false },
    }
}

fn workspace_with(questions: Vec<QuestionRecord>, intake: Vec<StudentIntakeSummary>) -> ExamWorkspaceState {
    ExamWorkspaceState {
        project: ProjectSummary {
            project_id: "proj_1".into(),
            display_name: "Workflow".into(),
            project_path: "/tmp/project".into(),
            lms_course_id: None,
        },
        status: "ready".into(),
        questions,
        student_intake_items: intake,
        student_workflow: StudentWorkflowState { status: "not_started".into(), latest_job_id: None, submissions: Vec::new() },
        student_roster: Vec::new(),
        moderation_state: ModerationState { score_overrides: Vec::new(), feedback_overrides: Vec::new(), question_reviews: Vec::new() },
        results_lms_state: ResultsLmsState {
            selected_target: None,
            finalization_records: Vec::new(),
            asset_bindings: Vec::new(),
            upload_attempts: Vec::new(),
        },
        results_lms_rows: Vec::new(),
    }
}

fn state_with(submissions: Vec<StudentWorkflowSubmission>) -> StudentWorkflowState {
    StudentWorkflowState { status: "ready".into(), latest_job_id: None, submissions }
}

#[test]
fn failed_resume_point_prefers_canonicalized_pages_then_alignment_then_restart() {
    let mut submission = workflow_submission("student_1");
    assert_eq!(failed_resume_point(&submission), FailedResumePoint::FromStart);

    let mut first = alignment_page(1);
    first.transform = transform(0.0, 1.0, 0.0, 0.0);
    first.confidence_bits = Some(0.9f64.to_bits());
    submission.alignment_pages.push(first);
    assert_eq!(failed_resume_point(&submission), FailedResumePoint::AfterAlignment);

    let mut partial_canonicalize = workflow_submission("student_1");
    partial_canonicalize.alignment_pages = vec![alignment_page(1), alignment_page(2)];
    partial_canonicalize.page_artifacts.push(StudentWorkflowPage {
        page_number: 1,
        image_path: "/tmp/partial-canonical.png".into(),
        source_pdf_path: Some("/tmp/student.pdf".into()),
        ocr_metadata_path: None,
    });
    assert_eq!(failed_resume_point(&partial_canonicalize), FailedResumePoint::AfterAlignment);

    submission.page_artifacts.push(StudentWorkflowPage {
        page_number: 1,
        image_path: "/tmp/canonical.png".into(),
        source_pdf_path: Some("/tmp/student.pdf".into()),
        ocr_metadata_path: Some("/tmp/ocr.json".into()),
    });
    assert_eq!(failed_resume_point(&submission), FailedResumePoint::AfterCanonicalize);

    submission.answers.push(StudentWorkflowAnswer {
        crop_image_path: Some("/tmp/q1.png".into()),
        moderation_eligible: false,
        parse_status: "ok".into(),
        parse_confidence: Some("high".into()),
        parse_confidence_source: Some("combined".into()),
        raw_parsed_text: Some("answer".into()),
        verified_text: Some("answer".into()),
        verified: true,
        grading_status: "draft_ready".into(),
        total_points_awarded: Some(5),
        ..answer_seed("q1")
    });
    assert_eq!(failed_resume_point(&submission), FailedResumePoint::AfterParse);
    submission.answers[0].stale = true;
    assert_eq!(failed_resume_point(&submission), FailedResumePoint::AfterPii);
}

#[test]
fn classify_batch_resume_points_groups_students_by_restart_stage() {
    let mut from_start = workflow_submission("student_1");
    let mut after_alignment = workflow_submission("student_2");
    after_alignment.alignment_pages = vec![alignment_page(1)];
    let mut after_canonicalize = workflow_submission("student_3");
    after_canonicalize.alignment_pages = vec![alignment_page(1)];
    after_canonicalize.page_artifacts = vec![workflow_page("student_3", 1)];
    let mut after_parse = workflow_submission("student_4");
    after_parse.answers = vec![answer_seed("q1")];
    after_parse.answers[0].verified = true;
    after_parse.answers[0].parse_status = "ok".into();
    let mut after_pii = workflow_submission("student_5");
    after_pii.answers = vec![answer_seed("q1")];
    after_pii.answers[0].verified = true;
    after_pii.answers[0].parse_status = "ok".into();
    after_pii.answers[0].stale = true;
    from_start.stage = "failed".into();
    after_alignment.stage = "failed".into();
    after_canonicalize.stage = "failed".into();
    after_parse.stage = "failed".into();
    after_pii.stage = "failed".into();
    let mut state = StudentWorkflowState {
        status: "attention".into(),
        latest_job_id: None,
        submissions: vec![from_start, after_alignment, after_canonicalize, after_parse, after_pii],
    };

    let plan = classify_batch_resume_points(
        &mut state,
        vec![
            "student_1".into(),
            "student_2".into(),
            "student_3".into(),
            "student_4".into(),
            "student_5".into(),
        ],
    )
    .expect("resume points should classify");

    assert_eq!(plan.from_start, vec!["student_1"]);
    assert_eq!(plan.after_alignment, vec!["student_2"]);
    assert_eq!(plan.after_canonicalize, vec!["student_3"]);
    assert_eq!(plan.after_pii, vec!["student_5"]);
    assert_eq!(plan.after_parse, vec!["student_4"]);
    let error = match classify_batch_resume_points(&mut state, vec!["missing".into()]) {
        Ok(_) => panic!("missing submission should fail validation"),
        Err(error) => error,
    };
    assert!(error.message().contains("missing"));
}

#[test]
fn ensure_submission_row_adds_only_missing_students() {
    let mut state = StudentWorkflowState {
        status: "ready".into(),
        latest_job_id: None,
        submissions: vec![workflow_submission("student_1")],
    };

    ensure_submission_row(&mut state, &intake_summary("student_1"));
    ensure_submission_row(&mut state, &intake_summary("student_2"));

    assert_eq!(state.submissions.len(), 2);
    assert_eq!(state.submissions[1].student_ref, "student_2");
}

#[test]
fn ensuring_a_row_twice_changes_nothing_the_second_time() {
    let mut state = state_with(Vec::new());
    ensure_submission_row(&mut state, &intake_summary("student_7"));
    ensure_submission_row(&mut state, &intake_summary("student_7"));
    assert_eq!(state.submissions.len(), 1);
    assert_eq!(state.submissions[0].stage, "intake_ready");
    assert_eq!(state.submissions[0].canonical_pdf_path, "/tmp/student_7.pdf");
    assert_eq!(state.submissions[0].page_count, 2);
}

#[test]
fn intake_map_requires_canonical_and_page_paths() {
    let workspace = workspace_with(
        Vec::new(),
        vec![
            intake_summary("student_1"),
            StudentIntakeSummary {
                student_ref: "student_2".into(),
                local_display_name: None,
                canonical_pdf_path: "".into(),
                ingest_status: "ready".into(),
                page_count: 0,
                exam_page_paths: vec!["/tmp/only.png".into()],
                warnings: Vec::new(),
                binding_token_hex: None,
            },
        ],
    );

    let mapped = intake_map(&workspace).expect("intake map should build");
    assert_eq!(mapped.len(), 1);
    assert_eq!(workspace.student_intake_items[mapped[0]].student_ref, "student_1");
    assert_eq!(require_intake(&workspace, "student_1").unwrap(), 0);
    assert_eq!(
        require_intake(&workspace, "student_2").unwrap_err().message(),
        "No canonical intake submission exists for 'student_2'."
    );
}

#[test]
fn intake_map_keeps_the_last_item_of_a_student() {
    let mut later = intake_summary("student_1");
    later.canonical_pdf_path = "/tmp/newer.pdf".into();
    let workspace = workspace_with(Vec::new(), vec![intake_summary("student_1"), intake_summary("student_2"), later]);
    let mapped = intake_map(&workspace).unwrap();
    assert_eq!(mapped, vec![1, 2]);
}

#[test]
fn workflow_status_derives_ready_attention_running_and_graded() {
    let mut state = StudentWorkflowState {
        status: "not_started".into(),
        latest_job_id: None,
        submissions: vec![workflow_submission("student_1")],
    };
    update_workflow_status(&mut state);
    assert_eq!(state.status, "ready");

    state.submissions[0].stage = "stopped".into();
    update_workflow_status(&mut state);
    assert_eq!(state.status, "ready");

    state.submissions[0].stage = "alignment_review".into();
    update_workflow_status(&mut state);
    assert_eq!(state.status, "attention");

    state.submissions[0].stage = "grading".into();
    update_workflow_status(&mut state);
    assert_eq!(state.status, "running");

    state.submissions[0].stage = "graded".into();
    update_workflow_status(&mut state);
    assert_eq!(state.status, "graded");

    let mut empty = state_with(Vec::new());
    update_workflow_status(&mut empty);
    assert_eq!(empty.status, "not_started");
}

#[test]
fn eligible_students_are_those_in_restartable_stages() {
    let mut a = workflow_submission("a");
    a.stage = "graded".into();
    let mut b = workflow_submission("b");
    b.stage = "failed".into();
    let c = workflow_submission("c");
    let mut d = workflow_submission("d");
    d.stage = "parse_review".into();
    let state = state_with(vec![a, b, c, d]);
    assert_eq!(eligible_student_refs_for_workflow(&state), vec!["b", "c"]);
    assert!(stage_is_workflow_eligible(""));
    assert!(!stage_is_workflow_eligible("manual_grading"));
}

#[test]
fn small_pipeline_helpers_reset_filter_record_and_sanitize_payloads() {
    let warning = WorkspaceWarning {
        code: Some("intake_warning".into()),
        message: "Check page order".into(),
        scope: Some("student".into()),
    };
    let intake = StudentIntakeSummary {
        student_ref: "student_1".into(),
        local_display_name: Some("Ada Local".into()),
        canonical_pdf_path: "/new/student.pdf".into(),
        ingest_status: "ready".into(),
        page_count: 3,
        exam_page_paths: vec!["/new/page-1.png".into()],
        warnings: vec![warning.clone()],
        binding_token_hex: None,
    };
    let mut submission = workflow_submission("student_1");
    submission.canonical_pdf_path = "/old/student.pdf".into();
    submission.page_count = 1;
    submission.stage = "failed".into();
    submission.latest_job_id = Some("old-job".into());
    submission.failure_message = Some("old failure".into());
    submission.warnings = vec![warning];
    submission.page_artifacts = vec![workflow_page("student_1", 1)];
    submission.alignment_pages = vec![alignment_page(1)];
    submission.detect_review = Some(StudentWorkflowDetectReview { pending_rows: Vec::new(), trusted_crop_targets: Vec::new() });
    submission.answers = vec![answer_seed("q1")];

    reset_submission_for_restart(&mut submission, &intake);

    assert_eq!(submission.canonical_pdf_path, "/new/student.pdf");
    assert_eq!(submission.page_count, 3);
    assert_eq!(submission.stage, "intake_ready");
    assert_eq!(submission.latest_job_id.as_deref(), Some("old-job"));
    assert!(submission.failure_message.is_none());
    assert!(submission.warnings.is_empty());
    assert!(submission.page_artifacts.is_empty());
    assert!(submission.alignment_pages.is_empty());
    assert!(submission.detect_review.is_none());
    assert!(submission.answers.is_empty());

    let rows = vec![
        object(vec![("student_ref", text("student_2")), ("question_id", text("q2"))]),
        object(vec![("student_ref", text("student_1")), ("question_id", text("q1"))]),
        object(vec![("student_ref", text("student_1")), ("question_id", text("q3"))]),
        object(vec![("question_id", text("missing_student"))]),
    ];
    let filtered = rows_for_student(rows, "student_1");
    assert_eq!(filtered.len(), 2);
    assert_eq!(text_at(&filtered[0], "question_id"), Some("q1"));

    let mut workflow_state = state_with(vec![workflow_submission("student_1")]);
    record_submission_job_id(&mut workflow_state, "student_1", "job-123").expect("job id should record");
    assert_eq!(workflow_state.submissions[0].latest_job_id.as_deref(), Some("job-123"));
    assert!(record_submission_job_id(&mut workflow_state, "missing", "job-456").is_err());

    let keyed_rows = vec![("b".to_string(), vec![object(Vec::new())]), ("a".to_string(), vec![object(Vec::new())])];
    assert_eq!(sorted_keys(&keyed_rows), vec!["a", "b"]);

    let warning = pii_identity_unavailable_warning();
    assert_eq!(warning.code.as_deref(), Some("pii_identity_unavailable"));
    assert_eq!(warning.scope.as_deref(), Some("answer"));

    let crop_rows = vec![
        object(vec![("status", text("ok")), ("question_id", text("q1")), ("question_crop_path", text("/secret/q1.png"))]),
        object(vec![("status", text("error")), ("question_id", text("q2")), ("question_crop_path", text("/secret/q2.png"))]),
    ];
    let single_payload = sanitized_pii_request_payload("student_1", &crop_rows);
    assert_eq!(text_at(&single_payload, "student_ref"), Some("student_1"));
    match get(&single_payload, "question_ids") {
        Some(JsonValue::Array(ids)) => {
            assert_eq!(ids.len(), 1);
            assert!(matches!(&ids[0], JsonValue::Text(q) if q == "q1"));
        }
        _ => panic!("question_ids should be an array"),
    }
    assert!(matches!(get(&single_payload, "pii_target_count"), Some(JsonValue::Number(n)) if n == "1"));
    assert_eq!(text_at(&single_payload, "pii_runtime"), Some("local_paddle"));
    let flat = format!("{:?}", single_payload);
    assert!(!flat.contains("/secret/"));
}

#[test]
fn crop_targets_for_cli_removes_student_scope_for_legacy_contracts() {
    let targets = vec![object(vec![
        ("student_ref", text("student_1")),
        ("page_number", JsonValue::Number("1".into())),
        ("question_id", text("q1")),
        (
            "region",
            object(vec![
                ("x", JsonValue::Number("0".into())),
                ("y", JsonValue::Number("0".into())),
                ("width", JsonValue::Number("10".into())),
                ("height", JsonValue::Number("10".into())),
                ("units", text("rendered_page_pixels")),
            ]),
        ),
    ])];
    let stripped = crop_targets_for_cli(targets);

    assert_eq!(stripped.len(), 1);
    assert!(get(&stripped[0], "student_ref").is_none());
    assert_eq!(text_at(&stripped[0], "question_id"), Some("q1"));
}

#[test]
fn completed_was_cancelled_matches_only_cancel_terminal_type() {
    let job = |terminal: &str| CompletedWorkerJob {
        job_id: "job".into(),
        result: WorkerJobResult {
            terminal_type: terminal.into(),
            terminal_payload: object(Vec::new()),
            envelope: object(vec![("data", object(Vec::new()))]),
            events: Vec::new(),
        },
    };
    assert!(completed_was_cancelled(&job("job_cancelled")));
    assert!(!completed_was_cancelled(&job("job_finished")));
}

#[test]
fn crop_rows_and_manual_pii_block_rules() {
    let mut submission = workflow_submission("student_1");
    let mut no_crop = answer_seed("q2");
    no_crop.crop_image_path = None;
    submission.answers = vec![answer_seed("q1"), no_crop, answer_seed("q3")];
    let rows = crop_rows_from_answers(&submission);
    assert_eq!(rows.len(), 2);
    assert_eq!(text_at(&rows[0], "question_id"), Some("q1"));
    assert_eq!(text_at(&rows[1], "question_crop_path"), Some("/tmp/q3.png"));
    assert_eq!(text_at(&rows[1], "status"), Some("ok"));
    assert_eq!(clean_crop_row_count(&rows), 2);
    let words = vec!["Ada".to_string()];
    assert!(!should_manual_block_pii_stage(&rows, Some(&words)));
    assert!(should_manual_block_pii_stage(&rows, None));
    assert!(should_manual_block_pii_stage(&rows, Some(&Vec::new())));
    assert!(should_manual_block_pii_stage(&Vec::new(), Some(&words)));
}

#[test]
fn apply_alignment_results_classifies_failed_and_low_confidence_rows() {
    let workspace = workspace_with(vec![question_on_page(1)], Vec::new());
    let mut workflow_state = state_with(vec![workflow_submission("student_1")]);

    let failed = apply_alignment_results(
        &workspace,
        &mut workflow_state,
        "student_1",
        "job-fail",
        vec![low_confidence_page(1, 0.28, transform(0.0, 1.0, 0.0, 0.0))],
    )
    .expect("failed alignment should parse");
    assert_eq!(failed, AlignmentOutcome::NeedsReview);
    assert_eq!(workflow_state.submissions[0].failure_message.as_deref(), None);
    assert_eq!(workflow_state.submissions[0].latest_job_id.as_deref(), Some("job-fail"));
    assert_eq!(workflow_state.submissions[0].alignment_pages.len(), 1);
    let failed_page = &workflow_state.submissions[0].alignment_pages[0];
    assert!(failed_page.low_confidence);
    assert_eq!(failed_page.confidence_bits.map(f64::from_bits), Some(0.28));
    assert_eq!(f64::from_bits(failed_page.transform.rotation_bits), 0.0);
    assert_eq!(f64::from_bits(failed_page.transform.scale_bits), 1.0);

    workflow_state.submissions[0] = workflow_submission("student_1");
    let review = apply_alignment_results(
        &workspace,
        &mut workflow_state,
        "student_1",
        "job-review",
        vec![low_confidence_page(1, 0.34, transform(0.0, 1.0, 0.0, 0.0))],
    )
    .expect("review alignment should parse");
    assert_eq!(review, AlignmentOutcome::NeedsReview);
    assert_eq!(workflow_state.submissions[0].alignment_pages.len(), 1);
    assert!(workflow_state.submissions[0].alignment_pages[0].low_confidence);
    assert_eq!(workflow_state.submissions[0].alignment_pages[0].question_count, 1);
}

#[test]
fn apply_alignment_results_exempts_low_confidence_pages_without_questions() {
    let workspace = workspace_with(Vec::new(), Vec::new());
    let mut workflow_state = state_with(vec![workflow_submission("student_1")]);

    let outcome = apply_alignment_results(
        &workspace,
        &mut workflow_state,
        "student_1",
        "job-exempt",
        vec![low_confidence_page(1, 0.34, transform(0.0, 1.0, 0.0, 0.0))],
    )
    .expect("exempt alignment should parse");

    assert_eq!(outcome, AlignmentOutcome::Continue);
    let page = &workflow_state.submissions[0].alignment_pages[0];
    assert!(page.low_confidence);
    assert!(page.review_exempt);
    assert_eq!(page.review_exempt_reason.as_deref(), Some("no_questions"));
    assert_eq!(page.question_count, 0);
}

#[test]
fn apply_alignment_results_keeps_review_for_mixed_question_bearing_pages() {
    let workspace = workspace_with(vec![question_on_page(2)], Vec::new());
    let mut workflow_state = state_with(vec![workflow_submission("student_1")]);

    let outcome = apply_alignment_results(
        &workspace,
        &mut workflow_state,
        "student_1",
        "job-mixed",
        vec![
            low_confidence_page(1, 0.34, transform(0.0, 1.0, 0.0, 0.0)),
            low_confidence_page(2, 0.31, transform(0.1, 1.0, 2.0, 0.0)),
        ],
    )
    .expect("mixed alignment should parse");

    assert_eq!(outcome, AlignmentOutcome::NeedsReview);
    assert!(workflow_state.submissions[0].alignment_pages[0].review_exempt);
    assert!(!workflow_state.submissions[0].alignment_pages[1].review_exempt);
    assert_eq!(workflow_state.submissions[0].alignment_pages[1].question_count, 1);
}

#[test]
fn alignment_without_pages_fails_the_submission() {
    let workspace = workspace_with(vec![question_on_page(1)], Vec::new());
    let mut workflow_state = state_with(vec![workflow_submission("student_1")]);
    let outcome = apply_alignment_results(&workspace, &mut workflow_state, "student_1", "job-empty", Vec::new()).unwrap();
    assert_eq!(outcome, AlignmentOutcome::Failed);
    assert_eq!(workflow_state.submissions[0].stage, "failed");
    assert_eq!(
        workflow_state.submissions[0].failure_message.as_deref(),
        Some("Alignment failed for one or more pages. Review the trace and retry.")
    );
    assert!(apply_alignment_results(&workspace, &mut workflow_state, "nobody", "job", Vec::new()).is_err());
}

#[test]
fn stopped_and_failed_ref_updates_set_stage_and_message() {
    let mut state = StudentWorkflowState {
        status: "running".into(),
        latest_job_id: Some("job-1".into()),
        submissions: vec![workflow_submission("student_1")],
    };

    mark_submission_stopped(&mut state, "student_1", "Workflow stopped before this stage completed.").expect("stop");
    assert_eq!(state.submissions[0].stage, "stopped");
    update_workflow_status(&mut state);
    assert_eq!(state.status, "ready");
    mark_submission_failed(&mut state, "student_1", "Detect failed").expect("fail");
    assert_eq!(state.submissions[0].stage, "failed");
    assert_eq!(state.submissions[0].failure_message.as_deref(), Some("Detect failed"));
    update_workflow_status(&mut state);
    assert_eq!(state.status, "attention");
    assert!(mark_submission_failed(&mut state, "student_9", "x").is_err());
}

#[test]
fn stage_errors_fail_on_student_data_and_stop_otherwise() {
    let data = HostError::Protocol("Canonicalize failed for one or more student pages.".into());
    assert_eq!(
        direct_stage_student_data_error(&data).as_deref(),
        Some("Canonicalize failed for one or more student pages.")
    );
    let other = HostError::Worker("worker crashed".into());
    assert_eq!(direct_stage_student_data_error(&other), None);

    let mut state = state_with(vec![workflow_submission("student_1"), workflow_submission("student_2")]);
    mark_ref_for_direct_stage_error(&mut state, "student_1", &data).unwrap();
    mark_ref_for_direct_stage_error(&mut state, "student_2", &other).unwrap();
    assert_eq!(state.submissions[0].stage, "failed");
    assert_eq!(state.submissions[1].stage, "stopped");
    assert_eq!(
        state.submissions[1].failure_message.as_deref(),
        Some("Workflow stopped before this stage completed: worker crashed")
    );
}

#[test]
fn single_submission_pipeline_steps() {
    assert!(matches!(next_submission_stage_action(SubmissionStageEvent::Canonicalized), SubmissionStageAction::RunDetect));
    match next_submission_stage_action(SubmissionStageEvent::Detected(0)) {
        SubmissionStageAction::FailSubmission(m) => assert_eq!(m, "No question regions were detected for crop."),
        _ => panic!("no regions should fail"),
    }
    match next_submission_stage_action(SubmissionStageEvent::ReviewResolved(0)) {
        SubmissionStageAction::FailSubmission(m) => assert_eq!(m, "No question regions were resolved for crop."),
        _ => panic!("no resolved regions should fail"),
    }
    assert!(matches!(next_submission_stage_action(SubmissionStageEvent::Detected(3)), SubmissionStageAction::RunCrop));
    assert!(matches!(next_submission_stage_action(SubmissionStageEvent::DetectNeedsReview), SubmissionStageAction::Stop));
    assert!(matches!(next_submission_stage_action(SubmissionStageEvent::Cropped), SubmissionStageAction::RunPii));
    assert!(matches!(
        next_submission_stage_action(SubmissionStageEvent::PiiScreened(PiiStageOutcome::Continue)),
        SubmissionStageAction::RunParse
    ));
    assert!(matches!(
        next_submission_stage_action(SubmissionStageEvent::PiiScreened(PiiStageOutcome::ManualOnly)),
        SubmissionStageAction::Stop
    ));
    let grade = next_submission_stage_action(SubmissionStageEvent::Parsed(ParseOutcome::Continue));
    assert!(matches!(grade, SubmissionStageAction::StartGrading));
    assert_eq!(action_worker_status(&grade), Some(WorkerStatus::Busy));
    let review = next_submission_stage_action(SubmissionStageEvent::Parsed(ParseOutcome::NeedsReview));
    assert_eq!(action_worker_status(&review), Some(WorkerStatus::Ready));

    let mut state = state_with(vec![workflow_submission("student_1")]);
    apply_stage_action(&mut state, "student_1", &review).unwrap();
    assert_eq!(state.submissions[0].stage, "parse_review");
    let fail = next_submission_stage_action(SubmissionStageEvent::Detected(0));
    apply_stage_action(&mut state, "student_1", &fail).unwrap();
    assert_eq!(state.submissions[0].stage, "failed");
    assert_eq!(state.submissions[0].failure_message.as_deref(), Some("No question regions were detected for crop."));
}

#[test]
fn stage_changes_and_existing_stage_restart() {
    let mut state = state_with(vec![workflow_submission("student_1")]);
    state.submissions[0].failure_message = Some("old".into());
    set_submission_stage(&mut state, "student_1", "detect").unwrap();
    assert_eq!(state.submissions[0].stage, "detect");
    assert_eq!(state.submissions[0].failure_message.as_deref(), Some("old"));
    begin_existing_submission_stage(&mut state, "student_1", "canonicalize").unwrap();
    assert_eq!(state.submissions[0].stage, "canonicalize");
    assert!(state.submissions[0].failure_message.is_none());
    let err = set_submission_stage(&mut state, "ghost", "detect").unwrap_err();
    assert_eq!(err.message(), "Student workflow state was missing 'ghost'.");
}

#[test]
fn parse_review_verifies_the_answer_and_moves_to_grading_when_nothing_is_left() {
    let mut submission = workflow_submission("student_1");
    submission.stage = "parse_review".into();
    let mut a = answer_seed("q1");
    a.review_required = true;
    let mut b = answer_seed("q2");
    b.review_required = true;
    submission.answers = vec![a, b];
    let mut state = state_with(vec![submission]);

    let first = apply_parse_review(
        &mut state,
        &StudentWorkflowParseReviewInput {
            student_ref: "student_1".into(),
            question_id: "q1".into(),
            corrected_text: "  fixed text  ".into(),
        },
    )
    .unwrap();
    assert!(!first);
    assert_eq!(state.submissions[0].stage, "parse_review");
    assert_eq!(state.submissions[0].answers[0].verified_text.as_deref(), Some("fixed text"));
    assert!(state.submissions[0].answers[0].verified);
    assert_eq!(state.submissions[0].answers[0].parse_status, "ok");

    let second = apply_parse_review(
        &mut state,
        &StudentWorkflowParseReviewInput {
            student_ref: "student_1".into(),
            question_id: "q2".into(),
            corrected_text: "other".into(),
        },
    )
    .unwrap();
    assert!(second);
    assert_eq!(state.submissions[0].stage, "grading");

    let err = apply_parse_review(
        &mut state,
        &StudentWorkflowParseReviewInput {
            student_ref: "student_1".into(),
            question_id: "q9".into(),
            corrected_text: "x".into(),
        },
    )
    .unwrap_err();
    assert_eq!(err.message(), "Question 'q9' is not pending parse review for 'student_1'.");
}

#[test]
fn alignment_review_saves_pages_and_waits_for_canonicalization() {
    let mut submission = workflow_submission("student_1");
    submission.stage = "alignment_review".into();
    submission.failure_message = Some("review".into());
    let mut state = state_with(vec![submission, workflow_submission("student_2")]);
    let k = save_student_alignment_review(
        &mut state,
        StudentWorkflowAlignmentUpdateInput { student_ref: "student_1".into(), pages: vec![alignment_page(1)] },
    )
    .unwrap();
    assert_eq!(k, 0);
    assert_eq!(state.submissions[0].stage, "canonicalize");
    assert_eq!(state.submissions[0].alignment_pages.len(), 1);
    assert!(state.submissions[0].failure_message.is_none());

    let err = save_student_alignment_review(
        &mut state,
        StudentWorkflowAlignmentUpdateInput { student_ref: "student_2".into(), pages: Vec::new() },
    )
    .unwrap_err();
    assert_eq!(err.message(), "Student 'student_2' is not pending alignment review.");

    record_confirmed_alignment(
        &mut state,
        StudentWorkflowAlignmentUpdateInput { student_ref: "student_2".into(), pages: vec![alignment_page(1), alignment_page(2)] },
    )
    .unwrap();
    assert_eq!(state.submissions[1].alignment_pages.len(), 2);
    assert_eq!(state.submissions[1].stage, "intake_ready");
}

fn region(x: i64) -> StudentWorkflowDetectRegion {
    StudentWorkflowDetectRegion { x, y: 0, width: 10, height: 10, units: "rendered_page_pixels".into() }
}

fn pending_row(question_id: &str, page_number: i64) -> StudentWorkflowDetectReviewRow {
    StudentWorkflowDetectReviewRow {
        question_id: question_id.into(),
        page_number,
        source_page_image_path: "/tmp/page.png".into(),
        template_region: region(0),
        warnings: Vec::new(),
        resolved_region: None,
    }
}

fn detect_review_state() -> StudentWorkflowState {
    let mut submission = workflow_submission("student_1");
    submission.stage = "detect_review".into();
    submission.detect_review = Some(StudentWorkflowDetectReview {
        pending_rows: vec![pending_row("q1", 1), pending_row("q2", 1)],
        trusted_crop_targets: Vec::new(),
    });
    state_with(vec![submission])
}

fn resolution(question_id: &str, page_number: i64, x: i64) -> StudentWorkflowDetectReviewResolutionInput {
    StudentWorkflowDetectReviewResolutionInput { question_id: question_id.into(), page_number, region: region(x) }
}

#[test]
fn detect_review_resolutions_set_regions_and_wait_for_crop() {
    let mut state = detect_review_state();
    let k = save_student_detect_review(
        &mut state,
        StudentWorkflowDetectReviewInput {
            student_ref: "student_1".into(),
            resolutions: vec![resolution("q1", 1, 5), resolution("q2", 1, 7), resolution("q1", 1, 9)],
        },
    )
    .unwrap();
    assert_eq!(k, 0);
    assert_eq!(state.submissions[0].stage, "crop");
    let rows = &state.submissions[0].detect_review.as_ref().unwrap().pending_rows;
    assert_eq!(rows[0].resolved_region.as_ref().unwrap().x, 9);
    assert_eq!(rows[1].resolved_region.as_ref().unwrap().x, 7);
}

#[test]
fn detect_review_refuses_unknown_rows_and_unresolved_rows() {
    let mut state = detect_review_state();
    let err = save_student_detect_review(
        &mut state,
        StudentWorkflowDetectReviewInput { student_ref: "student_1".into(), resolutions: vec![resolution("q3", 2, 1)] },
    )
    .unwrap_err();
    assert_eq!(err.message(), "Question 'q3' on page 2 is not pending detect review for 'student_1'.");
    assert_eq!(state.submissions[0].stage, "detect_review");

    let err = confirm_student_detect_review(
        &mut state,
        StudentWorkflowDetectReviewInput { student_ref: "student_1".into(), resolutions: vec![resolution("q1", 1, 1)] },
    )
    .unwrap_err();
    assert_eq!(err.message(), "All pending detect-review rows must have resolved regions before continuing.");
    assert!(state.submissions[0].detect_review.as_ref().unwrap().pending_rows[0].resolved_region.is_none());

    let mut not_pending = state_with(vec![workflow_submission("student_1")]);
    let err = save_student_detect_review(
        &mut not_pending,
        StudentWorkflowDetectReviewInput { student_ref: "student_1".into(), resolutions: Vec::new() },
    )
    .unwrap_err();
    assert_eq!(err.message(), "Student 'student_1' is not pending detect review.");
}

#[test]
fn pii_requests_target_only_the_clean_crops() {
    let rows = vec![
        object(vec![("status", text("ok")), ("question_id", text("q1")), ("question_crop_path", text("/c/q1.png")), ("student_ref", text("s1"))]),
        object(vec![("status", text("failed")), ("question_id", text("q2")), ("question_crop_path", text("/c/q2.png"))]),
        object(vec![("status", text("ok")), ("question_id", text("q3"))]),
    ];
    let targets = pii_targets_from_crop_rows(rows);
    assert_eq!(targets.len(), 2);
    assert_eq!(text_at(&targets[0], "question_id"), Some("q1"));
    assert_eq!(text_at(&targets[0], "question_crop_path"), Some("/c/q1.png"));
    assert!(get(&targets[0], "student_ref").is_none());
    assert_eq!(text_at(&targets[1], "question_id"), Some("q3"));
    assert_eq!(get(&targets[1], "question_crop_path"), Some(&JsonValue::Null));

    let request = pii_student_request(
        "s1",
        &vec!["Ada".to_string(), "Lovelace".to_string()],
        vec![object(vec![("status", text("ok")), ("question_id", text("q1")), ("question_crop_path", text("/c/q1.png"))])],
    );
    assert_eq!(text_at(&request, "student_ref"), Some("s1"));
    assert_eq!(get(&request, "pii_trigger_words"), Some(&JsonValue::Array(vec![text("Ada"), text("Lovelace")])));
    match get(&request, "pii_targets") {
        Some(JsonValue::Array(items)) => {
            assert_eq!(items.len(), 1);
            assert_eq!(text_at(&items[0], "question_crop_path"), Some("/c/q1.png"));
        },
        other => panic!("expected targets, got {other:?}"),
    }
}

#[test]
fn sanitized_pii_batch_payload_keeps_only_student_refs_question_ids_and_counts() {
    let crop_rows = vec![
        (
            "student_2".to_string(),
            vec![
                object(vec![("status", text("ok")), ("question_id", text("q2")), ("question_crop_path", text("/secret/q2.png"))]),
                object(vec![("status", text("error")), ("question_id", text("q3")), ("question_crop_path", text("/secret/q3.png"))]),
            ],
        ),
        (
            "student_1".to_string(),
            vec![object(vec![("status", text("ok")), ("question_id", text("q1")), ("question_crop_path", text("/secret/q1.png"))])],
        ),
    ];

    let payload = sanitized_pii_batch_request_payload(&crop_rows);

    assert_eq!(text_at(&payload, "pii_runtime"), Some("local_paddle"));
    let students = match get(&payload, "students") {
        Some(JsonValue::Array(items)) => items,
        other => panic!("students should be an array, got {other:?}"),
    };
    assert_eq!(text_at(&students[0], "student_ref"), Some("student_1"));
    assert_eq!(get(&students[0], "question_ids"), Some(&JsonValue::Array(vec![text("q1")])));
    assert_eq!(get(&students[0], "pii_target_count"), Some(&JsonValue::Number("1".into())));
    assert_eq!(text_at(&students[1], "student_ref"), Some("student_2"));
    assert_eq!(get(&students[1], "question_ids"), Some(&JsonValue::Array(vec![text("q2")])));
    assert!(!format!("{:?}", payload).contains("/secret/"));
}

fn number(s: &str) -> JsonValue {
    JsonValue::Number(s.to_string())
}

#[test]
fn preliminary_grading_runtime_config_clamps_worker_count() {
    assert_eq!(get(&preliminary_grading_runtime_config(0), "max_workers"), Some(&number("1")));
    assert_eq!(get(&preliminary_grading_runtime_config(3), "max_workers"), Some(&number("3")));
    assert_eq!(get(&preliminary_grading_runtime_config(5), "max_workers"), Some(&number("4")));
}

#[test]
fn preliminary_grading_request_payload_includes_runtime_config() {
    let answer_rows = vec![object(vec![("student_ref", text("student_1")), ("question_id", text("q1"))])];
    let llm_config = object(vec![("base_url", text("http://127.0.0.1:11434")), ("model", text("qwen3.5:9b"))]);

    let payload = preliminary_grading_request_payload(answer_rows, 2, "ollama_native", llm_config);

    assert_eq!(
        get(&payload, "answer_score_requests"),
        Some(&JsonValue::Array(vec![object(vec![("student_ref", text("student_1")), ("question_id", text("q1"))])]))
    );
    match get(&payload, "grading_runtime_config") {
        Some(config) => assert_eq!(get(config, "max_workers"), Some(&number("2"))),
        None => panic!("missing grading_runtime_config"),
    }
    match get(&payload, "providers") {
        Some(providers) => assert_eq!(text_at(providers, "llm_provider"), Some("ollama_native")),
        None => panic!("missing providers"),
    }
    match get(&payload, "llm_config") {
        Some(config) => assert_eq!(text_at(config, "model"), Some("qwen3.5:9b")),
        None => panic!("missing llm_config"),
    }
}

fn detect_row(student_ref: &str, x: &str) -> JsonValue {
    object(vec![
        ("student_ref", text(student_ref)),
        ("page_number", number("1")),
        ("question_id", text("q1")),
        ("status", text("ok")),
        (
            "region",
            object(vec![("x", number(x)), ("y", number(x)), ("width", number("10")), ("height", number("10")), ("units", text("rendered_page_pixels"))]),
        ),
        ("region_source", text("ocr_refined")),
    ])
}

#[test]
fn filtered_completed_by_student_keeps_only_scoped_rows() {
    let completed = CompletedWorkerJob {
        job_id: "job-batch".into(),
        result: WorkerJobResult {
            terminal_type: "job_finished".into(),
            terminal_payload: object(Vec::new()),
            envelope: object(vec![(
                "data",
                object(vec![
                    ("detect_results", JsonValue::Array(vec![detect_row("student_1", "0"), detect_row("student_2", "1")])),
                    (
                        "page_ocr_results",
                        JsonValue::Array(vec![
                            object(vec![("student_ref", text("student_1")), ("page_number", number("1")), ("ocr_metadata_path", text("/tmp/one.json"))]),
                            object(vec![("student_ref", text("student_2")), ("page_number", number("1")), ("ocr_metadata_path", text("/tmp/two.json"))]),
                        ]),
                    ),
                ]),
            )]),
            events: Vec::new(),
        },
    };

    let filtered = filtered_completed_by_student(completed, &vec!["detect_results", "page_ocr_results"], "student_2")
        .expect("filtered envelope should build");
    let data = get(&filtered.result.envelope, "data").expect("data should be object");
    assert!(matches!(data, JsonValue::Object(_)));

    match get(data, "detect_results") {
        Some(JsonValue::Array(rows)) => {
            assert_eq!(rows.len(), 1);
            assert_eq!(text_at(&rows[0], "student_ref"), Some("student_2"));
        },
        other => panic!("detect_results should be an array, got {other:?}"),
    }
    match get(data, "page_ocr_results") {
        Some(JsonValue::Array(rows)) => {
            assert_eq!(rows.len(), 1);
            assert_eq!(text_at(&rows[0], "ocr_metadata_path"), Some("/tmp/two.json"));
        },
        other => panic!("page_ocr_results should be an array, got {other:?}"),
    }
}

#[test]
fn filtering_a_reply_without_data_is_refused() {
    let completed = CompletedWorkerJob {
        job_id: "job-batch".into(),
        result: WorkerJobResult {
            terminal_type: "job_finished".into(),
            terminal_payload: JsonValue::Null,
            envelope: object(vec![("data", text("nope"))]),
            events: Vec::new(),
        },
    };
    match filtered_completed_by_student(completed, &vec!["detect_results"], "student_2") {
        Err(HostError::Protocol(m)) => assert_eq!(m, "Worker success envelope was missing data."),
        other => panic!("expected a protocol error, got {other:?}"),
    }
}

fn validation_message<T: std::fmt::Debug>(r: Result<T, HostError>) -> String {
    match r {
        Err(HostError::Validation(m)) => m,
        other => panic!("expected a validation error, got {other:?}"),
    }
}

#[test]
fn continuing_after_detect_review_needs_a_pending_review_and_counts_its_targets() {
    let mut state = state_with(vec![workflow_submission("student_1")]);
    assert_eq!(
        validation_message(resolved_crop_target_count(&state, "student_1")),
        "Student 'student_1' is not pending detect review."
    );
    assert_eq!(
        validation_message(resolved_crop_target_count(&state, "ghost")),
        "Student workflow state was missing 'ghost'."
    );
    let mut resolved = pending_row("q1", 1);
    resolved.resolved_region = Some(region(8));
    state.submissions[0].detect_review = Some(StudentWorkflowDetectReview {
        pending_rows: vec![resolved, pending_row("q2", 1)],
        trusted_crop_targets: vec![object(vec![("question_id", text("trusted_q"))])],
    });
    assert_eq!(resolved_crop_target_count(&state, "student_1").expect("pending review"), 2);
    state.submissions[0].detect_review = Some(StudentWorkflowDetectReview { pending_rows: Vec::new(), trusted_crop_targets: Vec::new() });
    let none = resolved_crop_target_count(&state, "student_1").expect("pending review");
    assert_eq!(none, 0);
    assert!(matches!(
        next_submission_stage_action(SubmissionStageEvent::ReviewResolved(none)),
        SubmissionStageAction::FailSubmission(m) if m == "No question regions were resolved for crop."
    ));
}

fn llm_config() -> JsonValue {
    object(vec![("model", text("qwen3.5:9b"))])
}

#[test]
fn grading_without_requests_waits_for_manual_grading_or_fails() {
    let mut manual = workflow_submission("student_1");
    let mut answer = answer_seed("q1");
    answer.manual_grading_required = true;
    manual.answers = vec![answer];
    manual.failure_message = Some("old".into());
    let mut state = state_with(vec![manual, workflow_submission("student_2")]);
    let action = next_grading_step(&mut state, "student_1", "ollama", 2, llm_config(), GradingStageEvent::Begin(Vec::new()))
        .expect("known student");
    assert!(matches!(action, GradingStageAction::ManualGrading));
    assert_eq!(state.submissions[0].stage, "manual_grading");
    assert!(state.submissions[0].failure_message.is_none());

    let action = next_grading_step(&mut state, "student_2", "ollama", 2, llm_config(), GradingStageEvent::Begin(Vec::new()))
        .expect("known student");
    assert!(matches!(&action, GradingStageAction::FailSubmission(m) if m == "No verified answers were available for grading."));
    assert_eq!(state.submissions[1].stage, "failed");
    assert_eq!(state.submissions[1].failure_message.as_deref(), Some("No verified answers were available for grading."));

    assert_eq!(
        validation_message(next_grading_step(&mut state, "ghost", "ollama", 2, llm_config(), GradingStageEvent::MarkupReturned)),
        "Student workflow state was missing 'ghost'."
    );
}

#[test]
fn grading_runs_preliminary_feedback_and_markup_then_finishes() {
    let mut submission = workflow_submission("student_1");
    submission.answers = vec![answer_seed("q1")];
    let mut state = state_with(vec![submission]);
    let request = object(vec![("student_ref", text("student_1")), ("question_id", text("q1"))]);
    match next_grading_step(&mut state, "student_1", "ollama", 9, llm_config(), GradingStageEvent::Begin(vec![request]))
        .expect("known student")
    {
        GradingStageAction::RunPreliminary(p) => {
            assert!(matches!(get(&p, "answer_score_requests"), Some(JsonValue::Array(items)) if items.len() == 1));
            match get(&p, "grading_runtime_config") {
                Some(config) => assert_eq!(get(config, "max_workers"), Some(&JsonValue::Number("4".into()))),
                None => panic!("missing runtime config"),
            }
        },
        other => panic!("expected preliminary scoring, got {other:?}"),
    }
    assert_eq!(state.submissions[0].stage, "grading");
    match next_grading_step(&mut state, "student_1", "ollama", 9, llm_config(), GradingStageEvent::PreliminaryScored(vec![text("fb")]))
        .expect("known student")
    {
        GradingStageAction::RunFeedback(p) => {
            assert_eq!(get(&p, "feedback_requests"), Some(&JsonValue::Array(vec![text("fb")])));
            assert_eq!(get(&p, "llm_config"), Some(&llm_config()));
        },
        other => panic!("expected feedback, got {other:?}"),
    }
    match next_grading_step(&mut state, "student_1", "ollama", 9, llm_config(), GradingStageEvent::FeedbackDrafted(vec![text("mk")]))
        .expect("known student")
    {
        GradingStageAction::RunMarkup(p) => assert_eq!(get(&p, "markup_requests"), Some(&JsonValue::Array(vec![text("mk")]))),
        other => panic!("expected markup, got {other:?}"),
    }
    let done = next_grading_step(&mut state, "student_1", "ollama", 9, llm_config(), GradingStageEvent::MarkupReturned)
        .expect("known student");
    assert!(matches!(done, GradingStageAction::Finish));
    assert_eq!(state.submissions[0].stage, "graded");

    let stop = next_grading_step(
        &mut state,
        "student_1",
        "ollama",
        9,
        llm_config(),
        GradingStageEvent::StageFailed(HostError::Worker("worker crashed".into())),
    )
    .expect("known student");
    assert!(matches!(stop, GradingStageAction::Stop));
    assert_eq!(state.submissions[0].stage, "stopped");
    assert_eq!(
        state.submissions[0].failure_message.as_deref(),
        Some("Workflow stopped before this stage completed: worker crashed")
    );
}

#[test]
fn grading_batches_settle_students_without_requests_and_stop_on_empty_results() {
    let mut manual = workflow_submission("student_2");
    let mut answer = answer_seed("q1");
    answer.manual_grading_required = true;
    manual.answers = vec![answer];
    let mut state = state_with(vec![workflow_submission("student_1"), manual, workflow_submission("student_3")]);
    let refs = vec!["student_1".to_string(), "student_2".to_string(), "student_3".to_string()];
    let requests = vec![("student_1".to_string(), 2), ("student_3".to_string(), 0)];
    let ready = plan_grading_batch(&mut state, &refs, &requests).expect("known students");
    assert_eq!(ready, vec!["student_1".to_string()]);
    assert_eq!(state.submissions[0].stage, "grading");
    assert_eq!(state.submissions[1].stage, "manual_grading");
    assert_eq!(state.submissions[2].stage, "failed");
    assert_eq!(state.submissions[2].failure_message.as_deref(), Some("No verified answers were available for grading."));

    let before = state_with(vec![workflow_submission("student_1")]);
    let mut unchanged = state_with(vec![workflow_submission("student_1")]);
    assert_eq!(
        validation_message(plan_grading_batch(&mut unchanged, &vec!["student_1".to_string(), "ghost".to_string()], &Vec::new())),
        "Student workflow state was missing 'ghost'."
    );
    assert_eq!(unchanged, before);

    assert!(matches!(next_grading_batch_stage("ollama", 2, llm_config(), GradingBatchEvent::Planned(Vec::new())), GradingStageAction::Stop));
    assert!(matches!(
        next_grading_batch_stage("ollama", 2, llm_config(), GradingBatchEvent::PreliminaryScored { scores: 0, feedback_requests: vec![text("fb")] }),
        GradingStageAction::Stop
    ));
    assert!(matches!(
        next_grading_batch_stage("ollama", 2, llm_config(), GradingBatchEvent::FeedbackDrafted { drafts: 1, markup_requests: Vec::new() }),
        GradingStageAction::RunMarkup(_)
    ));
    assert!(matches!(next_grading_batch_stage("ollama", 2, llm_config(), GradingBatchEvent::MarkupReturned { highlights: 3 }), GradingStageAction::Finish));
}

#[test]
fn pii_stage_blocks_manual_and_records_screened_answers() {
    let mut state = state_with(vec![workflow_submission("student_1")]);
    let clean = vec![object(vec![("status", text("ok")), ("question_id", text("q1"))])];
    assert!(begin_pii_stage(&mut state, "student_1", &clean, None).expect("known"));
    assert_eq!(state.submissions[0].stage, "pii");
    assert!(!begin_pii_stage(&mut state, "student_1", &clean, Some(&vec!["Ada".to_string()])).expect("known"));

    let mut blocked = answer_seed("q1");
    blocked.manual_grading_required = true;
    apply_manual_pii_block(&mut state, "student_1", vec![blocked]).expect("known");
    assert_eq!(state.submissions[0].stage, "manual_grading");
    assert!(state.submissions[0].latest_job_id.is_none());

    state.submissions[0].stage = "pii".into();
    let outcome = apply_pii_screening(&mut state, "student_1", "job-9", vec![answer_seed("q1")]).expect("known");
    assert_eq!(outcome, PiiStageOutcome::Continue);
    assert_eq!(state.submissions[0].stage, "pii");
    assert_eq!(state.submissions[0].latest_job_id.as_deref(), Some("job-9"));
    let mut manual = answer_seed("q1");
    manual.manual_grading_required = true;
    let outcome = apply_pii_screening(&mut state, "student_1", "job-10", vec![manual]).expect("known");
    assert_eq!(outcome, PiiStageOutcome::ManualOnly);
    assert_eq!(state.submissions[0].stage, "manual_grading");
}
