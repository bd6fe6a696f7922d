use scriptscore_state::models::{
    ExamWorkspaceState, ModerationQuestionReview, ModerationState, ProjectSummary, QuestionRecord, ResultsLmsState,
    RubricCriterion, RubricState, StudentWorkflowAnswer, StudentWorkflowCriterionResult, StudentWorkflowState,
    StudentWorkflowSubmission,
};
use scriptscore_state::moderation::{
    save_criterion_score, save_moderated_feedback, save_moderated_score, set_question_reviewed, SaveCriterionScoreInput,
    SaveModeratedFeedbackInput, SaveModeratedScoreInput, SetModerationQuestionReviewedInput,
};

fn empty_moderation() -> ModerationState {
    ModerationState { score_overrides: Vec::new(), feedback_overrides: Vec::new(), question_reviews: Vec::new() }
}

fn question() -> QuestionRecord {
    QuestionRecord {
        question_id: "question_1".into(),
        question_number: 1,
        text: "Question 1".into(),
        max_points: Some(5),
        page_number: 1,
        image_path: None,
        analysis_complete: true,
        rubric: RubricState {
            criteria: vec![
                RubricCriterion { label: "Main point".into(), points: 2 },
                RubricCriterion { label: "Supporting detail".into(), points: 3 },
            ],
            approved: false,
        },
    }
}

fn graded_answer() -> StudentWorkflowAnswer {
    StudentWorkflowAnswer {
        question_id: "question_1".into(),
        question_number: 1,
        crop_image_path: None,
        manual_grading_required: false,
        manual_grading_reason: None,
        moderation_eligible: true,
        parse_status: "ok".into(),
        parse_confidence: Some("high".into()),
        parse_confidence_source: Some("combined".into()),
        raw_parsed_text: Some("Answer".into()),
        verified_text: Some("Answer".into()),
        review_required: false,
        verified: true,
        stale: false,
        grading_status: "draft_ready".into(),
        grading_confidence: Some("high".into()),
        grading_confidence_reason: None,
        question_max_points: Some(5),
        total_points_awarded: Some(4),
        feedback_text: Some("Solid answer.".into()),
        criterion_results: vec![
            StudentWorkflowCriterionResult {
                criterion_index: 1,
                label: "Supporting detail".into(),
                points: 3,
                points_awarded: 3,
                rationale: "Has the detail.".into(),
            },
            StudentWorkflowCriterionResult {
                criterion_index: 0,
                label: "Main point".into(),
                points: 2,
                points_awarded: 1,
                rationale: "Missed part of the main point.".into(),
            },
        ],
        highlights: Vec::new(),
        warnings: Vec::new(),
    }
}

fn manual_answer() -> StudentWorkflowAnswer {
    StudentWorkflowAnswer {
        crop_image_path: Some("/tmp/q1.png".into()),
        manual_grading_required: true,
        manual_grading_reason: Some("pii_detected".into()),
        parse_status: "blocked".into(),
        parse_confidence: None,
        parse_confidence_source: None,
        raw_parsed_text: None,
        verified_text: None,
        verified: false,
        grading_status: "manual_required".into(),
        grading_confidence: None,
        total_points_awarded: None,
        feedback_text: None,
        criterion_results: Vec::new(),
        ..graded_answer()
    }
}

fn workflow_with(stage: &str, answer: StudentWorkflowAnswer) -> StudentWorkflowState {
    StudentWorkflowState {
        status: "graded".into(),
        latest_job_id: None,
        submissions: vec![StudentWorkflowSubmission {
            student_ref: "student_1".into(),
            canonical_pdf_path: "/tmp/student_1.pdf".into(),
            page_count: 1,
            stage: stage.into(),
            latest_job_id: None,
            failure_message: None,
            warnings: Vec::new(),
            page_artifacts: Vec::new(),
            alignment_pages: Vec::new(),
            detect_review: None,
            answers: vec![answer],
        }],
    }
}

fn workspace_with(workflow: StudentWorkflowState) -> ExamWorkspaceState {
    ExamWorkspaceState {
        project: ProjectSummary {
            project_id: "proj_1".into(),
            display_name: "Moderation".into(),
            project_path: "/tmp/project".into(),
            lms_course_id: None,
        },
        status: "approved".into(),
        questions: vec![question()],
        student_intake_items: Vec::new(),
        student_workflow: workflow,
        student_roster: Vec::new(),
        moderation_state: empty_moderation(),
        results_lms_state: ResultsLmsState {
            selected_target: None,
            finalization_records: Vec::new(),
            asset_bindings: Vec::new(),
            upload_attempts: Vec::new(),
        },
        results_lms_rows: Vec::new(),
    }
}

#[test]
fn save_criterion_score_updates_matching_criterion_index_not_vector_position() {
    let workspace = workspace_with(workflow_with("graded", graded_answer()));
    let mut workflow = workflow_with("graded", graded_answer());

    save_criterion_score(
        &workspace,
        &mut workflow,
        SaveCriterionScoreInput {
            student_ref: "student_1".into(),
            question_id: "question_1".into(),
            criterion_index: 0,
            points_awarded: 2,
        },
    )
    .expect("criterion score should save");

    let answer = &workflow.submissions[0].answers[0];
    assert_eq!(answer.total_points_awarded, Some(5));
    assert_eq!(answer.feedback_text.as_deref(), Some("Solid answer."));
    let criterion_zero =
        answer.criterion_results.iter().find(|result| result.criterion_index == 0).expect("criterion 0 should still exist");
    let criterion_one =
        answer.criterion_results.iter().find(|result| result.criterion_index == 1).expect("criterion 1 should still exist");
    assert_eq!(criterion_zero.points_awarded, 2);
    assert_eq!(criterion_one.points_awarded, 3);
}

#[test]
fn save_criterion_score_seeds_manual_answer_criteria_from_rubric() {
    let workspace = workspace_with(workflow_with("manual_grading", manual_answer()));
    let mut workflow = workflow_with("manual_grading", manual_answer());

    save_criterion_score(
        &workspace,
        &mut workflow,
        SaveCriterionScoreInput {
            student_ref: "student_1".into(),
            question_id: "question_1".into(),
            criterion_index: 1,
            points_awarded: 2,
        },
    )
    .expect("criterion score should save for manual answer");

    let answer = &workflow.submissions[0].answers[0];
    assert_eq!(answer.criterion_results.len(), 2);
    assert_eq!(answer.criterion_results[0].criterion_index, 0);
    assert_eq!(answer.criterion_results[0].points_awarded, 0);
    assert_eq!(answer.criterion_results[1].criterion_index, 1);
    assert_eq!(answer.criterion_results[1].points_awarded, 2);
    assert_eq!(answer.total_points_awarded, Some(2));
}

#[test]
fn save_criterion_score_rejects_missing_criterion_result_by_identifier() {
    let workspace = workspace_with(workflow_with("graded", graded_answer()));
    let mut workflow = workflow_with("graded", graded_answer());

    let error = save_criterion_score(
        &workspace,
        &mut workflow,
        SaveCriterionScoreInput {
            student_ref: "student_1".into(),
            question_id: "question_1".into(),
            criterion_index: 5,
            points_awarded: 1,
        },
    )
    .expect_err("missing criterion result should fail");

    assert!(
        error.message().contains("Criterion index 5 is out of range for question 'question_1'"),
        "unexpected error: {}",
        error.message()
    );
}

#[test]
fn save_criterion_score_rejects_points_above_criterion_max() {
    let workspace = workspace_with(workflow_with("graded", graded_answer()));
    let mut workflow = workflow_with("graded", graded_answer());

    let error = save_criterion_score(
        &workspace,
        &mut workflow,
        SaveCriterionScoreInput {
            student_ref: "student_1".into(),
            question_id: "question_1".into(),
            criterion_index: 0,
            points_awarded: 3,
        },
    )
    .expect_err("score above criterion max should fail");

    assert!(
        error.message().contains("Points awarded (3) cannot exceed criterion max points (2)."),
        "unexpected error: {}",
        error.message()
    );
    assert_eq!(workflow.submissions[0].answers[0].total_points_awarded, Some(4));
}

#[test]
fn save_moderated_score_persists_override_without_touching_original_criteria() {
    let workspace = workspace_with(workflow_with("graded", graded_answer()));
    let mut moderation = empty_moderation();

    save_moderated_score(
        &workspace,
        &mut moderation,
        SaveModeratedScoreInput {
            student_ref: "student_1".into(),
            question_id: "question_1".into(),
            moderated_total_points: 2,
        },
    )
    .expect("moderated score should save");

    let answer = &workspace.student_workflow.submissions[0].answers[0];
    assert_eq!(answer.total_points_awarded, Some(4));
    assert_eq!(answer.criterion_results[0].points_awarded, 3);
    assert_eq!(answer.criterion_results[1].points_awarded, 1);
    assert_eq!(moderation.score_overrides.len(), 1);
    assert!(moderation.feedback_overrides.is_empty());
    assert_eq!(moderation.score_overrides[0].moderated_total_points, 2);
}

#[test]
fn save_moderated_score_clears_review_and_redundant_override() {
    let workspace = workspace_with(workflow_with("graded", graded_answer()));
    let mut moderation = ModerationState {
        score_overrides: Vec::new(),
        feedback_overrides: Vec::new(),
        question_reviews: vec![ModerationQuestionReview { question_id: "question_1".into(), reviewed_at: "123".into() }],
    };

    save_moderated_score(
        &workspace,
        &mut moderation,
        SaveModeratedScoreInput {
            student_ref: "student_1".into(),
            question_id: "question_1".into(),
            moderated_total_points: 4,
        },
    )
    .expect("matching original score should clear override");

    assert!(moderation.score_overrides.is_empty());
    assert!(moderation.feedback_overrides.is_empty());
    assert!(moderation.question_reviews.is_empty());
}

#[test]
fn save_moderated_score_rejects_points_above_question_max() {
    let workspace = workspace_with(workflow_with("graded", graded_answer()));
    let mut moderation = empty_moderation();
    let result = save_moderated_score(
        &workspace,
        &mut moderation,
        SaveModeratedScoreInput {
            student_ref: "student_1".into(),
            question_id: "question_1".into(),
            moderated_total_points: 6,
        },
    );
    assert!(result.is_err());
    assert!(moderation.score_overrides.is_empty());
}

#[test]
fn set_question_reviewed_marks_and_clears_review_state() {
    let workspace = workspace_with(workflow_with("graded", graded_answer()));
    let mut moderation = empty_moderation();

    set_question_reviewed(
        &workspace,
        &mut moderation,
        SetModerationQuestionReviewedInput { question_id: "question_1".into(), reviewed: true },
        "123".into(),
    )
    .expect("review should save");
    assert_eq!(moderation.question_reviews.len(), 1);

    set_question_reviewed(
        &workspace,
        &mut moderation,
        SetModerationQuestionReviewedInput { question_id: "question_1".into(), reviewed: false },
        "124".into(),
    )
    .expect("review should clear");
    assert!(moderation.question_reviews.is_empty());
}

#[test]
fn save_moderated_feedback_persists_override_without_touching_original_feedback() {
    let workspace = workspace_with(workflow_with("graded", graded_answer()));
    let mut moderation = empty_moderation();

    save_moderated_feedback(
        &workspace,
        &mut moderation,
        SaveModeratedFeedbackInput {
            student_ref: "student_1".into(),
            question_id: "question_1".into(),
            feedback_text: "Edited by moderator".into(),
        },
    )
    .expect("moderated feedback should save");

    let answer = &workspace.student_workflow.submissions[0].answers[0];
    assert_eq!(answer.feedback_text.as_deref(), Some("Solid answer."));
    assert!(moderation.score_overrides.is_empty());
    assert_eq!(moderation.feedback_overrides.len(), 1);
    assert_eq!(moderation.feedback_overrides[0].feedback_text, "Edited by moderator");
}

#[test]
fn save_moderated_feedback_preserves_question_review_state() {
    let workspace = workspace_with(workflow_with("graded", graded_answer()));
    let mut moderation = empty_moderation();

    set_question_reviewed(
        &workspace,
        &mut moderation,
        SetModerationQuestionReviewedInput { question_id: "question_1".into(), reviewed: true },
        "123".into(),
    )
    .expect("review should save");
    assert_eq!(moderation.question_reviews.len(), 1);

    save_moderated_feedback(
        &workspace,
        &mut moderation,
        SaveModeratedFeedbackInput {
            student_ref: "student_1".into(),
            question_id: "question_1".into(),
            feedback_text: "Edited by moderator".into(),
        },
    )
    .expect("moderated feedback should save");

    assert_eq!(moderation.question_reviews.len(), 1);
    assert_eq!(moderation.question_reviews[0].question_id, "question_1");
}

#[test]
fn saving_a_moderated_score_twice_keeps_one_override() {
    let workspace = workspace_with(workflow_with("graded", graded_answer()));
    let mut moderation = empty_moderation();
    for total in [2, 3] {
        save_moderated_score(
            &workspace,
            &mut moderation,
            SaveModeratedScoreInput {
                student_ref: "student_1".into(),
                question_id: "question_1".into(),
                moderated_total_points: total,
            },
        )
        .expect("moderated score should save");
    }
    assert_eq!(moderation.score_overrides.len(), 1);
    assert_eq!(moderation.score_overrides[0].moderated_total_points, 3);
}

#[test]
fn marking_a_question_reviewed_twice_leaves_one_mark() {
    let workspace = workspace_with(workflow_with("graded", graded_answer()));
    let mut moderation = empty_moderation();
    for at in ["123", "124"] {
        set_question_reviewed(
            &workspace,
            &mut moderation,
            SetModerationQuestionReviewedInput { question_id: "question_1".into(), reviewed: true },
            at.into(),
        )
        .expect("review should save");
    }
    assert_eq!(moderation.question_reviews.len(), 1);
    assert_eq!(moderation.question_reviews[0].question_id, "question_1");
    assert_eq!(moderation.question_reviews[0].reviewed_at, "124");
}
