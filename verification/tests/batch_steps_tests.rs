use scriptscore_state::batch_steps::{
    apply_canonicalize_batch_results, apply_parse_batch_results, apply_pii_batch_results, record_pii_outcome, mark_refs_failed_with_message,
    mark_refs_stopped_for_error, mark_refs_stopped_with_message, pii_batch_student_refs, record_canonicalize_outcome,
    record_crop_outcome, record_parse_outcome, resolve_pii_batch_model_dir, set_refs_stage,
    batch_job_or_stop, refs_saved_event, workflow_state_updated_event, BatchJobOutcome,
};
use scriptscore_state::errors::WorkerStatus;
use scriptscore_state::errors::HostError;
use scriptscore_state::json::{JsonMember, JsonValue};
use scriptscore_state::models::{
    StudentWorkflowAlignmentPage, StudentWorkflowAnswer, StudentWorkflowDetectReview, StudentWorkflowPage,
    StudentWorkflowState, StudentWorkflowSubmission, StudentWorkflowTransform,
};

fn object(members: Vec<(&str, JsonValue)>) -> JsonValue {
    JsonValue::Object(members.into_iter().map(|(k, v)| JsonMember { key: k.to_string(), value: v }).collect())
}

fn text(s: &str) -> JsonValue {
    JsonValue::Text(s.to_string())
}

fn workflow_submission(student_ref: &str) -> StudentWorkflowSubmission {
    StudentWorkflowSubmission {
        student_ref: student_ref.into(),
        canonical_pdf_path: format!("/tmp/{student_ref}.pdf"),
        page_count: 2,
        stage: "intake_ready".into(),
        latest_job_id: None,
        failure_message: None,
        warnings: Vec::new(),
        page_artifacts: Vec::new(),
        alignment_pages: Vec::new(),
        detect_review: None,
        answers: Vec::new(),
    }
}

fn transform(rotation: f64, scale: f64, translate_x: f64, translate_y: f64) -> StudentWorkflowTransform {
    StudentWorkflowTransform {
        rotation_bits: rotation.to_bits(),
        scale_bits: scale.to_bits(),
        translate_x_bits: translate_x.to_bits(),
        translate_y_bits: translate_y.to_bits(),
    }
}

fn alignment_page(page_number: i64) -> StudentWorkflowAlignmentPage {
    StudentWorkflowAlignmentPage {
        page_number,
        confidence_bits: Some(0.94f64.to_bits()),
        low_confidence: false,
        review_exempt: false,
        review_exempt_reason: None,
        question_count: 1,
        transform: transform(1.5, 0.98, 2.0, -3.0),
        warnings: Vec::new(),
    }
}

fn workflow_page(student_ref: &str, page_number: i64) -> StudentWorkflowPage {
    StudentWorkflowPage {
        page_number,
        image_path: format!("/tmp/{student_ref}-page-{page_number}.png"),
        source_pdf_path: Some(format!("/tmp/{student_ref}.pdf")),
        ocr_metadata_path: None,
    }
}

fn answer_seed(question_id: &str) -> StudentWorkflowAnswer {
    StudentWorkflowAnswer {
        question_id: question_id.into(),
        question_number: 1,
        crop_image_path: Some(format!("/tmp/{question_id}.png")),
        manual_grading_required: false,
        manual_grading_reason: None,
        moderation_eligible: true,
        parse_status: "pending".into(),
        parse_confidence: None,
        parse_confidence_source: None,
        raw_parsed_text: None,
        verified_text: None,
        review_required: false,
        verified: false,
        stale: false,
        grading_status: "not_started".into(),
        grading_confidence: None,
        grading_confidence_reason: None,
        question_max_points: Some(5),
        total_points_awarded: None,
        feedback_text: None,
        criterion_results: Vec::new(),
        highlights: Vec::new(),
        warnings: Vec::new(),
    }
}

fn state_with(submissions: Vec<StudentWorkflowSubmission>) -> StudentWorkflowState {
    StudentWorkflowState { status: "ready".into(), latest_job_id: None, submissions }
}

fn refs(names: &[&str]) -> Vec<String> {
    names.iter().map(|n| n.to_string()).collect()
}

#[test]
fn canonicalize_batch_continues_complete_and_fails_partial_outputs() {
    let mut complete = workflow_submission("student_1");
    complete.alignment_pages = vec![alignment_page(1), alignment_page(2)];
    let mut partial = workflow_submission("student_2");
    partial.alignment_pages = vec![alignment_page(1), alignment_page(2)];
    let mut state = StudentWorkflowState { status: "running".into(), latest_job_id: None, submissions: vec![complete, partial] };
    let items = vec![
        ("student_1".to_string(), vec![workflow_page("student_1", 1), workflow_page("student_1", 2)]),
        ("student_2".to_string(), vec![workflow_page("student_2", 1)]),
    ];
    let continue_refs = apply_canonicalize_batch_results(&mut state, "canonicalize-batch", items).expect("batch applies");
    assert_eq!(continue_refs, vec!["student_1".to_string()]);
    assert_eq!(state.submissions[0].stage, "detect");
    assert_eq!(state.submissions[0].page_artifacts.len(), 2);
    assert_eq!(state.submissions[0].latest_job_id.as_deref(), Some("canonicalize-batch"));
    assert_eq!(state.submissions[1].stage, "failed");
    assert_eq!(state.submissions[1].failure_message.as_deref(), Some("Canonicalize failed for one or more student pages."));
    assert_eq!(state.submissions[1].page_artifacts.len(), 1);
}

#[test]
fn canonicalize_batch_refuses_a_missing_student_when_reached() {
    let mut state = state_with(vec![workflow_submission("student_1")]);
    let items = vec![
        ("student_1".to_string(), Vec::new()),
        ("student_9".to_string(), Vec::new()),
    ];
    let err = apply_canonicalize_batch_results(&mut state, "job", items).unwrap_err();
    assert!(matches!(err, HostError::Validation(_)));
    assert_eq!(state.submissions[0].stage, "detect");
    assert_eq!(state.submissions[0].latest_job_id.as_deref(), Some("job"));
    assert!(record_canonicalize_outcome(&mut state, "student_9", "job", Vec::new()).is_err());
}

#[test]
fn parse_batch_branches_failed_review_and_grading_rows() {
    let mut state = StudentWorkflowState {
        status: "running".into(),
        latest_job_id: None,
        submissions: vec![workflow_submission("student_1"), workflow_submission("student_2"), workflow_submission("student_3")],
    };
    let mut failed = answer_seed("q1");
    failed.parse_status = "error".into();
    let mut review = answer_seed("q1");
    review.parse_status = "ok".into();
    review.review_required = true;
    let mut clean = answer_seed("q1");
    clean.parse_status = "ok".into();
    clean.verified = true;
    let items = vec![
        ("student_1".to_string(), Ok(vec![failed])),
        ("student_2".to_string(), Ok(vec![review])),
        ("student_3".to_string(), Ok(vec![clean])),
    ];
    let grading_refs = apply_parse_batch_results(&mut state, "parse-batch", items).expect("parse batch applies");
    assert_eq!(grading_refs, vec!["student_3".to_string()]);
    assert_eq!(state.submissions[0].stage, "failed");
    assert_eq!(state.submissions[0].failure_message.as_deref(), Some("Parsing failed for one or more answers."));
    assert_eq!(state.submissions[1].stage, "parse_review");
    assert!(state.submissions[1].answers[0].review_required);
    assert_eq!(state.submissions[2].stage, "grading");
    assert!(state.submissions[2].answers[0].verified);
    assert_eq!(state.submissions[2].latest_job_id.as_deref(), Some("parse-batch"));
}

#[test]
fn missing_parse_results_stop_only_the_affected_student() {
    let mut state = state_with(vec![workflow_submission("student_1"), workflow_submission("student_2")]);
    let mut clean = answer_seed("q1");
    clean.parse_status = "cancelled".into();
    let items = vec![
        (
            "student_1".to_string(),
            Err(HostError::Protocol("Command result was missing parse_results rows for student 'student_1'.".into())),
        ),
        ("student_2".to_string(), Ok(vec![clean])),
    ];
    let grading_refs = apply_parse_batch_results(&mut state, "parse-batch", items).expect("parse batch applies");
    assert!(grading_refs.is_empty());
    assert_eq!(state.submissions[0].stage, "stopped");
    assert_eq!(
        state.submissions[0].failure_message.as_deref(),
        Some("Workflow stopped before this stage completed: Command result was missing parse_results rows for student 'student_1'.")
    );
    assert!(state.submissions[0].latest_job_id.is_none());
    assert_eq!(state.submissions[1].stage, "failed");
    assert_eq!(record_parse_outcome(&mut state, "student_2", "again", Ok(Vec::new())).unwrap(), true);
    assert_eq!(state.submissions[1].stage, "grading");
    assert_eq!(state.submissions[1].failure_message.as_deref(), Some("Parsing failed for one or more answers."));
}

#[test]
fn crop_rows_move_the_submission_to_pii() {
    let mut sub = workflow_submission("student_1");
    sub.stage = "crop".into();
    sub.detect_review = Some(StudentWorkflowDetectReview { trusted_crop_targets: Vec::new(), pending_rows: Vec::new() });
    let mut state = state_with(vec![sub, workflow_submission("student_2")]);
    let rows = vec![object(vec![("question_id", text("q1"))])];
    let out = record_crop_outcome(&mut state, "student_1", "crop-job", Ok(rows)).expect("crop recorded");
    assert_eq!(out, Some(vec![object(vec![("question_id", text("q1"))])]));
    assert_eq!(state.submissions[0].stage, "pii");
    assert!(state.submissions[0].detect_review.is_none());
    assert_eq!(state.submissions[0].latest_job_id.as_deref(), Some("crop-job"));
    assert_eq!(state.submissions[1].stage, "intake_ready");
}

#[test]
fn malformed_crop_data_stops_the_student_with_the_protocol_message() {
    let mut state = state_with(vec![workflow_submission("student_1")]);
    let out = record_crop_outcome(
        &mut state,
        "student_1",
        "crop-malformed",
        Err(HostError::Protocol("Command success envelope was missing data.".into())),
    )
    .expect("error stops the student");
    assert!(out.is_none());
    assert_eq!(state.submissions[0].stage, "stopped");
    assert_eq!(
        state.submissions[0].failure_message.as_deref(),
        Some("Workflow stopped before this stage completed: Command success envelope was missing data.")
    );
    assert!(state.submissions[0].latest_job_id.is_none());
    let missing = record_crop_outcome(&mut state, "student_9", "job", Ok(Vec::new())).unwrap_err();
    assert_eq!(missing.message(), "Student workflow state was missing 'student_9'.");
}

#[test]
fn pii_model_resolution_error_stops_the_batch_students() {
    let mut state = state_with(vec![workflow_submission("student_1"), workflow_submission("student_2")]);
    let students = vec![
        object(vec![("student_ref", text("student_1"))]),
        object(vec![("other", text("x"))]),
    ];
    let pii_refs = pii_batch_student_refs(&students);
    assert_eq!(pii_refs, vec!["student_1".to_string()]);
    let dir = resolve_pii_batch_model_dir(
        &mut state,
        &pii_refs,
        Err(HostError::Project("Paddle model directory was not found.".into())),
    )
    .expect("stopping succeeds");
    assert!(dir.is_none());
    assert_eq!(state.submissions[0].stage, "stopped");
    assert_eq!(
        state.submissions[0].failure_message.as_deref(),
        Some("Workflow stopped before this stage completed: Paddle model directory was not found.")
    );
    assert_eq!(state.submissions[1].stage, "intake_ready");
    let found = resolve_pii_batch_model_dir(&mut state, &pii_refs, Ok("/models/paddle".to_string())).unwrap();
    assert_eq!(found.as_deref(), Some("/models/paddle"));
}

#[test]
fn marking_several_students_sets_each_once_and_refuses_missing_ones() {
    let mut state = state_with(vec![workflow_submission("student_1"), workflow_submission("student_2"), workflow_submission("student_3")]);
    state.submissions[0].failure_message = Some("old".into());
    set_refs_stage(&mut state, &refs(&["student_1", "student_2", "student_1"]), "pii").unwrap();
    assert_eq!(state.submissions[0].stage, "pii");
    assert!(state.submissions[0].failure_message.is_none());
    assert_eq!(state.submissions[1].stage, "pii");
    assert_eq!(state.submissions[2].stage, "intake_ready");
    mark_refs_failed_with_message(&mut state, &refs(&["student_2"]), "No verified answers were available for grading.").unwrap();
    assert_eq!(state.submissions[1].stage, "failed");
    assert_eq!(state.submissions[1].failure_message.as_deref(), Some("No verified answers were available for grading."));
    mark_refs_stopped_with_message(&mut state, &refs(&["student_3"]), "Workflow stopped before this stage completed.").unwrap();
    assert_eq!(state.submissions[2].stage, "stopped");
    let err = mark_refs_stopped_for_error(&mut state, &refs(&["student_1", "student_9"]), &HostError::Protocol("x".into()))
        .unwrap_err();
    assert_eq!(err.message(), "Student workflow state was missing 'student_9'.");
    assert_eq!(state.submissions[0].stage, "stopped");
    assert_eq!(state.submissions[0].failure_message.as_deref(), Some("Workflow stopped before this stage completed: x"));
}

#[test]
fn pii_batch_results_send_clean_students_to_parse_and_stop_unreadable_ones() {
    let mut clean = workflow_submission("student_1");
    clean.stage = "pii".into();
    let mut manual = workflow_submission("student_2");
    manual.stage = "pii".into();
    manual.failure_message = Some("old".into());
    let mut missing_rows = workflow_submission("student_3");
    missing_rows.stage = "pii".into();
    let mut elsewhere = workflow_submission("student_4");
    elsewhere.stage = "manual_grading".into();
    let mut state = StudentWorkflowState {
        status: "running".into(),
        latest_job_id: None,
        submissions: vec![clean, manual, missing_rows, elsewhere],
    };
    let mut needs_manual = answer_seed("q1");
    needs_manual.manual_grading_required = true;
    let items = vec![
        ("student_1".to_string(), Ok(Some(vec![answer_seed("q1")]))),
        ("student_2".to_string(), Ok(Some(vec![needs_manual]))),
        (
            "student_3".to_string(),
            Err(HostError::Protocol("Command result was missing pii_results rows for student 'student_3'.".into())),
        ),
        ("student_4".to_string(), Ok(Some(vec![answer_seed("q1")]))),
    ];
    let parse_refs = apply_pii_batch_results(&mut state, "pii-batch", items).expect("pii batch applies");
    assert_eq!(parse_refs, vec!["student_1".to_string()]);
    assert_eq!(state.submissions[0].stage, "parse");
    assert_eq!(state.submissions[0].latest_job_id.as_deref(), Some("pii-batch"));
    assert_eq!(state.submissions[1].stage, "manual_grading");
    assert!(state.submissions[1].failure_message.is_none());
    assert_eq!(state.submissions[2].stage, "stopped");
    assert_eq!(
        state.submissions[2].failure_message.as_deref(),
        Some("Workflow stopped before this stage completed: Command result was missing pii_results rows for student 'student_3'.")
    );
    assert_eq!(state.submissions[3].stage, "manual_grading");
    assert!(state.submissions[3].answers.is_empty());
    assert_eq!(record_pii_outcome(&mut state, "student_1", "again", Ok(None)).unwrap(), false);
    assert!(record_pii_outcome(&mut state, "student_9", "again", Ok(None)).is_err());
}

fn payload_member<'a>(event: &'a scriptscore_state::errors::RuntimeJobEvent, key: &str) -> &'a JsonValue {
    match &event.payload {
        JsonValue::Object(members) => &members.iter().find(|m| m.key == key).expect("member").value,
        _ => panic!("payload is an object"),
    }
}

#[test]
fn stopped_and_failed_ref_updates_report_ready_with_the_derived_status() {
    let mut state = state_with(vec![workflow_submission("student_1")]);
    let refs = vec!["student_1".to_string()];
    mark_refs_stopped_with_message(&mut state, &refs, "Workflow stopped before this stage completed.").unwrap();
    let first = refs_saved_event(&mut state, &refs, WorkerStatus::Ready);
    assert_eq!(state.submissions[0].stage, "stopped");
    assert_eq!(first.worker_status, WorkerStatus::Ready);
    assert_eq!(payload_member(&first, "workflowStatus"), &text("ready"));
    mark_refs_failed_with_message(&mut state, &refs, "Detect failed").unwrap();
    let second = refs_saved_event(&mut state, &refs, WorkerStatus::Ready);
    assert_eq!(state.submissions[0].stage, "failed");
    assert_eq!(state.submissions[0].failure_message.as_deref(), Some("Detect failed"));
    assert_eq!(second.event_type, "workflow_state_updated");
    assert_eq!(second.command_name, "student.workflow");
    assert_eq!(payload_member(&second, "workflowStatus"), &text("attention"));
    assert_eq!(payload_member(&second, "studentRefs"), &JsonValue::Array(vec![text("student_1")]));
    assert_eq!(payload_member(&second, "studentRef"), &JsonValue::Null);
    assert_eq!(payload_member(&second, "workflowStateUpdated"), &JsonValue::Bool(true));
    let single = workflow_state_updated_event(&state, Some("student_1"), &Vec::new(), WorkerStatus::Busy);
    assert_eq!(payload_member(&single, "studentRef"), &text("student_1"));
    assert!(single.request_id.is_none() && single.job_id.is_none());
}

#[test]
fn batch_jobs_that_do_not_finish_stop_their_students() {
    let mut state = state_with(vec![workflow_submission("student_1"), workflow_submission("student_2")]);
    let first = refs(&["student_1"]);
    assert_eq!(batch_job_or_stop(&mut state, &first, BatchJobOutcome::Finished(7)).unwrap(), Some(7));
    assert_eq!(state.submissions[0].stage, "intake_ready");
    assert_eq!(batch_job_or_stop::<u8>(&mut state, &first, BatchJobOutcome::Cancelled).unwrap(), None);
    assert_eq!(state.submissions[0].stage, "stopped");
    assert_eq!(state.submissions[0].failure_message.as_deref(), Some("Workflow stopped before this stage completed."));
    let failed = BatchJobOutcome::Failed(HostError::Protocol("worker exited".into()));
    assert_eq!(batch_job_or_stop::<u8>(&mut state, &refs(&["student_2"]), failed).unwrap(), None);
    assert_eq!(
        state.submissions[1].failure_message.as_deref(),
        Some("Workflow stopped before this stage completed: worker exited")
    );
}
