use scriptscore_state::models::{
    ExamWorkspaceState, ModerationState, ProjectSummary, QuestionRecord, ResultQuestionRow, ResultStudentRow,
    ResultsLmsState, RubricState, StudentIntakeSummary, StudentWorkflowAnswer, StudentWorkflowState,
    StudentWorkflowSubmission,
};
use scriptscore_state::results_export::{
    build_csv_export, csv_header, csv_record_for_row, escape_csv_field, html_export_file_name, html_export_progress_percent, selected_ready_rows,
    validate_destination_path, validate_html_export_sources,
};

fn blank_row(student_ref: &str) -> ResultStudentRow {
    ResultStudentRow {
        student_ref: student_ref.into(),
        aggregate_total: 0,
        aggregate_complete: false,
        ready_to_finalize: false,
        blocked_reasons: Vec::new(),
        question_rows: Vec::new(),
        result_fingerprint: None,
        finalized: false,
        stale_finalization: false,
        finalized_at: None,
        uploaded: false,
        upload_failed: false,
        latest_upload_error: None,
        last_upload_attempt_id: None,
    }
}

fn ready_row(student_ref: &str) -> ResultStudentRow {
    ResultStudentRow {
        aggregate_total: 8,
        aggregate_complete: true,
        ready_to_finalize: true,
        question_rows: vec![ResultQuestionRow {
            question_id: "q1".into(),
            question_number: 1,
            max_points: Some(10),
            effective_total_points: Some(8),
            effective_feedback_text: "Good, \"clear\"\nwork".into(),
            uses_moderated_total: false,
            uses_moderated_feedback: false,
            blocked_reason: None,
        }],
        ..blank_row(student_ref)
    }
}

fn workspace_with_rows(rows: Vec<ResultStudentRow>) -> ExamWorkspaceState {
    ExamWorkspaceState {
        project: ProjectSummary {
            project_id: "project".into(),
            display_name: "Exam".into(),
            project_path: "/tmp/project".into(),
            lms_course_id: None,
        },
        status: "approved".into(),
        questions: vec![QuestionRecord {
            question_id: "q1".into(),
            question_number: 1,
            text: "Explain".into(),
            max_points: Some(10),
            page_number: 1,
            image_path: None,
            analysis_complete: false,
            rubric: RubricState { criteria: Vec::new(), approved: false },
        }],
        student_intake_items: vec![StudentIntakeSummary {
            student_ref: "student_1".into(),
            local_display_name: Some("Ada, Local".into()),
            canonical_pdf_path: "/tmp/a.pdf".into(),
            ingest_status: "ready".into(),
            page_count: 1,
            exam_page_paths: Vec::new(),
            warnings: Vec::new(),
            binding_token_hex: Some("do-not-export".into()),
        }],
        student_workflow: StudentWorkflowState { status: "not_started".into(), latest_job_id: None, submissions: Vec::new() },
        student_roster: Vec::new(),
        moderation_state: ModerationState { score_overrides: Vec::new(), feedback_overrides: Vec::new(), question_reviews: Vec::new() },
        results_lms_state: ResultsLmsState {
            selected_target: None,
            finalization_records: Vec::new(),
            asset_bindings: Vec::new(),
            upload_attempts: Vec::new(),
        },
        results_lms_rows: rows,
    }
}

#[test]
fn results_export_rejects_empty_or_non_ready_selection() {
    let workspace = workspace_with_rows(vec![blank_row("student_1")]);
    assert!(selected_ready_rows(&workspace.results_lms_rows, &Vec::new()).is_err());
    assert!(selected_ready_rows(&workspace.results_lms_rows, &vec!["student_1".to_string()]).is_err());
}

#[test]
fn results_export_selects_requested_ready_rows() {
    let workspace = workspace_with_rows(vec![ready_row("student_1"), ready_row("student_2")]);
    let picked = selected_ready_rows(&workspace.results_lms_rows, &vec!["student_2".to_string()]).expect("ready row");
    assert_eq!(picked, vec![1]);
    let missing = selected_ready_rows(&workspace.results_lms_rows, &vec!["student_9".to_string()]).unwrap_err();
    assert_eq!(missing.message(), "Result row 'student_9' was not found.");
}

#[test]
fn results_export_csv_includes_local_names_and_escapes_fields() {
    let mut workspace = workspace_with_rows(vec![ready_row("student_1")]);
    workspace.student_intake_items[0].local_display_name = Some("=Ada, Local".into());
    workspace.results_lms_rows[0].question_rows[0].effective_feedback_text = "+Good, \"clear\"\nwork".into();
    let rows = selected_ready_rows(&workspace.results_lms_rows, &vec!["student_1".to_string()]).unwrap();
    let percents = rows.iter().map(|_| Some("80.00".to_string())).collect::<Vec<_>>();
    let csv = build_csv_export(&workspace, &rows, &percents);
    assert!(csv.contains("\"'=Ada, Local\""));
    assert!(csv.contains("\"'+Good, \"\"clear\"\"\nwork\""));
    assert!(!csv.contains("do-not-export"));
}

#[test]
fn csv_fields_are_neutralized_and_quoted() {
    assert_eq!(escape_csv_field("plain"), "plain");
    assert_eq!(escape_csv_field("a,b"), "\"a,b\"");
    assert_eq!(escape_csv_field("=SUM(A1)"), "'=SUM(A1)");
    assert_eq!(escape_csv_field("say \"hi\""), "\"say \"\"hi\"\"\"");
}

#[test]
fn destination_paths_are_trimmed_and_required() {
    assert_eq!(validate_destination_path("  /tmp/out.csv ").unwrap(), "/tmp/out.csv");
    assert_eq!(
        validate_destination_path("   ").unwrap_err().message(),
        "Choose a destination path before exporting Results."
    );
}

#[test]
fn html_export_names_and_progress() {
    assert_eq!(html_export_file_name("student_1"), "student_1_result.html");
    assert_eq!(html_export_progress_percent(1, 2), 45);
    assert_eq!(html_export_progress_percent(3, 3), 90);
}

#[test]
fn results_export_html_rejects_missing_crop_artifacts() {
    let mut workspace = workspace_with_rows(vec![ready_row("student_1")]);
    workspace.student_workflow = StudentWorkflowState {
        status: "complete".into(),
        latest_job_id: None,
        submissions: vec![StudentWorkflowSubmission {
            student_ref: "student_1".into(),
            canonical_pdf_path: "/tmp/student.pdf".into(),
            page_count: 1,
            stage: "complete".into(),
            latest_job_id: None,
            failure_message: None,
            warnings: Vec::new(),
            page_artifacts: Vec::new(),
            alignment_pages: Vec::new(),
            detect_review: None,
            answers: vec![StudentWorkflowAnswer {
                question_id: "q1".into(),
                question_number: 1,
                crop_image_path: Some("/tmp/scriptscore-missing-crop.png".into()),
                manual_grading_required: false,
                manual_grading_reason: None,
                moderation_eligible: true,
                parse_status: "complete".into(),
                parse_confidence: None,
                parse_confidence_source: None,
                raw_parsed_text: Some("answer".into()),
                verified_text: None,
                review_required: false,
                verified: false,
                stale: false,
                grading_status: "complete".into(),
                grading_confidence: None,
                grading_confidence_reason: None,
                question_max_points: Some(10),
                total_points_awarded: Some(8),
                feedback_text: Some("Good".into()),
                criterion_results: Vec::new(),
                highlights: Vec::new(),
                warnings: Vec::new(),
            }],
        }],
    };

    let err = validate_html_export_sources(&workspace, &workspace.results_lms_rows[0], &Vec::new())
        .expect_err("missing crop should fail HTML export validation");
    assert!(err.message().contains("was not found"));
    let existing = vec!["/tmp/scriptscore-missing-crop.png".to_string()];
    assert!(validate_html_export_sources(&workspace, &workspace.results_lms_rows[0], &existing).is_ok());
}

#[test]
fn csv_record_has_as_many_fields_as_the_header() {
    let workspace = workspace_with_rows(vec![ready_row("student_1")]);
    let header = csv_header(&workspace.questions);
    let record = csv_record_for_row(
        &workspace.results_lms_rows[0],
        &workspace.student_intake_items,
        &workspace.questions,
        Some("80.00".to_string()),
    );
    assert_eq!(header.len(), 4 + 2 * workspace.questions.len());
    assert_eq!(record.len(), header.len());
    assert_eq!(record[0], "student_1");
    assert_eq!(record[3], "80.00");
    let bare = csv_record_for_row(&workspace.results_lms_rows[0], &Vec::new(), &Vec::new(), None);
    assert_eq!(bare, vec!["student_1".to_string(), String::new(), workspace.results_lms_rows[0].aggregate_total.to_string(), String::new()]);
}
