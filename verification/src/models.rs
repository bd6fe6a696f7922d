//! Records of an exam project that the host logic reads and writes.
//!
//! Floating-point values of the desktop records are held here as the bit
//! patterns of their IEEE-754 `f64` values: the library carries them through
//! unchanged and never computes with them.
use vstd::prelude::*;

verus! {

/// How a results upload runs.
#[derive(Clone, Copy, Debug, PartialEq, Eq, Structural)]
pub enum LmsUploadMode {
    Live,
    DryRun,
}

/// The state of one student's upload.
#[derive(Clone, Copy, Debug, PartialEq, Eq, Structural)]
pub enum LmsUploadStudentStatus {
    Ready,
    Uploaded,
    Failed,
}

/// The state of the shared LMS roster preload.
#[derive(Clone, Copy, Debug, PartialEq, Eq, Structural)]
pub enum LmsRosterCacheStatus {
    Idle,
    Loading,
    Ready,
    Error,
}

/// A warning attached to a workspace item.
#[derive(Debug, PartialEq, Eq)]
pub struct WorkspaceWarning {
    pub code: Option<String>,
    pub message: String,
    pub scope: Option<String>,
}

impl Clone for WorkspaceWarning {
    fn clone(&self) -> (r: Self)
        ensures
            r == *self,
    {
        WorkspaceWarning {
            code: self.code.clone(),
            message: self.message.clone(),
            scope: self.scope.clone(),
        }
    }
}

/// One scored criterion of a question rubric.
#[derive(Debug, PartialEq, Eq)]
pub struct RubricCriterion {
    pub label: String,
    pub points: i64,
}

impl Clone for RubricCriterion {
    fn clone(&self) -> (r: Self)
        ensures
            r == *self,
    {
        RubricCriterion {
            label: self.label.clone(),
            points: self.points,
        }
    }
}

/// The points a student earned on one rubric criterion.
#[derive(Debug, PartialEq, Eq)]
pub struct StudentWorkflowCriterionResult {
    pub criterion_index: i64,
    pub label: String,
    pub points: i64,
    pub points_awarded: i64,
    pub rationale: String,
}

impl Clone for StudentWorkflowCriterionResult {
    fn clone(&self) -> (r: Self)
        ensures
            r == *self,
    {
        StudentWorkflowCriterionResult {
            criterion_index: self.criterion_index,
            label: self.label.clone(),
            points: self.points,
            points_awarded: self.points_awarded,
            rationale: self.rationale.clone(),
        }
    }
}

/// A highlighted span of an answer's text.
#[derive(Debug, PartialEq, Eq)]
pub struct StudentWorkflowHighlightSpan {
    pub kind: String,
    pub start_char: i64,
    pub end_char: i64,
    pub text: String,
}

impl Clone for StudentWorkflowHighlightSpan {
    fn clone(&self) -> (r: Self)
        ensures
            r == *self,
    {
        StudentWorkflowHighlightSpan {
            kind: self.kind.clone(),
            start_char: self.start_char,
            end_char: self.end_char,
            text: self.text.clone(),
        }
    }
}

/// A moderator's replacement total for one answer.
#[derive(Debug, PartialEq, Eq)]
pub struct ModerationScoreOverride {
    pub student_ref: String,
    pub question_id: String,
    pub moderated_total_points: i64,
}

impl Clone for ModerationScoreOverride {
    fn clone(&self) -> (r: Self)
        ensures
            r == *self,
    {
        ModerationScoreOverride {
            student_ref: self.student_ref.clone(),
            question_id: self.question_id.clone(),
            moderated_total_points: self.moderated_total_points,
        }
    }
}

/// A moderator's replacement feedback for one answer.
#[derive(Debug, PartialEq, Eq)]
pub struct ModerationFeedbackOverride {
    pub student_ref: String,
    pub question_id: String,
    pub feedback_text: String,
}

impl Clone for ModerationFeedbackOverride {
    fn clone(&self) -> (r: Self)
        ensures
            r == *self,
    {
        ModerationFeedbackOverride {
            student_ref: self.student_ref.clone(),
            question_id: self.question_id.clone(),
            feedback_text: self.feedback_text.clone(),
        }
    }
}

/// A question the moderator marked as reviewed.
#[derive(Debug, PartialEq, Eq)]
pub struct ModerationQuestionReview {
    pub question_id: String,
    pub reviewed_at: String,
}

impl Clone for ModerationQuestionReview {
    fn clone(&self) -> (r: Self)
        ensures
            r == *self,
    {
        ModerationQuestionReview {
            question_id: self.question_id.clone(),
            reviewed_at: self.reviewed_at.clone(),
        }
    }
}

/// The LMS assignment that results are published to.
#[derive(Debug, PartialEq, Eq)]
pub struct ResultsLmsTarget {
    pub provider: String,
    pub course_id: String,
    pub assignment_id: String,
}

impl Clone for ResultsLmsTarget {
    fn clone(&self) -> (r: Self)
        ensures
            r == *self,
    {
        ResultsLmsTarget {
            provider: self.provider.clone(),
            course_id: self.course_id.clone(),
            assignment_id: self.assignment_id.clone(),
        }
    }
}

/// The upload outcome for one student.
#[derive(Debug, PartialEq, Eq)]
pub struct LmsUploadStudentResult {
    pub student_ref: String,
    pub result_fingerprint: String,
    pub status: LmsUploadStudentStatus,
    pub sanitized_error: Option<String>,
}

impl Clone for LmsUploadStudentResult {
    fn clone(&self) -> (r: Self)
        ensures
            r == *self,
    {
        LmsUploadStudentResult {
            student_ref: self.student_ref.clone(),
            result_fingerprint: self.result_fingerprint.clone(),
            status: self.status,
            sanitized_error: self.sanitized_error.clone(),
        }
    }
}

/// An uploaded report image that the LMS holds for one student.
#[derive(Debug, PartialEq, Eq)]
pub struct ResultsLmsAssetBinding {
    pub provider: String,
    pub course_id: String,
    pub assignment_id: String,
    pub student_ref: String,
    pub local_asset_name: String,
    pub asset_fingerprint: String,
    pub provider_file_id: String,
}

impl Clone for ResultsLmsAssetBinding {
    fn clone(&self) -> (r: Self)
        ensures
            r == *self,
    {
        ResultsLmsAssetBinding {
            provider: self.provider.clone(),
            course_id: self.course_id.clone(),
            assignment_id: self.assignment_id.clone(),
            student_ref: self.student_ref.clone(),
            local_asset_name: self.local_asset_name.clone(),
            asset_fingerprint: self.asset_fingerprint.clone(),
            provider_file_id: self.provider_file_id.clone(),
        }
    }
}

/// A result that the instructor finalized, with the fingerprint it had.
#[derive(Debug, PartialEq, Eq)]
pub struct ResultFinalizationRecord {
    pub student_ref: String,
    pub result_fingerprint: String,
    pub finalized_at: String,
}

impl Clone for ResultFinalizationRecord {
    fn clone(&self) -> (r: Self)
        ensures
            r == *self,
    {
        ResultFinalizationRecord {
            student_ref: self.student_ref.clone(),
            result_fingerprint: self.result_fingerprint.clone(),
            finalized_at: self.finalized_at.clone(),
        }
    }
}

/// A report image prepared for upload.
#[derive(Debug, PartialEq, Eq)]
pub struct LmsUploadReportAsset {
    pub question_id: String,
    pub local_asset_name: String,
    pub asset_fingerprint: String,
    pub local_file_path: String,
}

impl Clone for LmsUploadReportAsset {
    fn clone(&self) -> (r: Self)
        ensures
            r == *self,
    {
        LmsUploadReportAsset {
            question_id: self.question_id.clone(),
            local_asset_name: self.local_asset_name.clone(),
            asset_fingerprint: self.asset_fingerprint.clone(),
            local_file_path: self.local_file_path.clone(),
        }
    }
}

/// A persisted roster entry: the student reference and its LMS binding token.
#[derive(Debug, PartialEq, Eq)]
pub struct StudentRosterRow {
    pub student_ref: String,
    pub binding_token_hex: String,
}

impl Clone for StudentRosterRow {
    fn clone(&self) -> (r: Self)
        ensures
            r == *self,
    {
        StudentRosterRow {
            student_ref: self.student_ref.clone(),
            binding_token_hex: self.binding_token_hex.clone(),
        }
    }
}

/// One student of the LMS course roster.
#[derive(Debug, PartialEq, Eq)]
pub struct LmsRosterRow {
    pub user_id: String,
    pub display_name: String,
    pub sort_key: String,
    pub email: Option<String>,
    pub login_id: Option<String>,
}

impl Clone for LmsRosterRow {
    fn clone(&self) -> (r: Self)
        ensures
            r == *self,
    {
        LmsRosterRow {
            user_id: self.user_id.clone(),
            display_name: self.display_name.clone(),
            sort_key: self.sort_key.clone(),
            email: self.email.clone(),
            login_id: self.login_id.clone(),
        }
    }
}

/// A canonicalized page image of a submission.
#[derive(Debug, PartialEq, Eq)]
pub struct StudentWorkflowPage {
    pub page_number: i64,
    pub image_path: String,
    pub source_pdf_path: Option<String>,
    pub ocr_metadata_path: Option<String>,
}

impl Clone for StudentWorkflowPage {
    fn clone(&self) -> (r: Self)
        ensures
            r == *self,
    {
        StudentWorkflowPage {
            page_number: self.page_number,
            image_path: self.image_path.clone(),
            source_pdf_path: self.source_pdf_path.clone(),
            ocr_metadata_path: self.ocr_metadata_path.clone(),
        }
    }
}

/// A question region on a page, in rendered page pixels.
#[derive(Debug, PartialEq, Eq)]
pub struct StudentWorkflowDetectRegion {
    pub x: i64,
    pub y: i64,
    pub width: i64,
    pub height: i64,
    pub units: String,
}

impl Clone for StudentWorkflowDetectRegion {
    fn clone(&self) -> (r: Self)
        ensures
            r == *self,
    {
        StudentWorkflowDetectRegion {
            x: self.x,
            y: self.y,
            width: self.width,
            height: self.height,
            units: self.units.clone(),
        }
    }
}


/// A copy of a list of texts.
pub fn clone_strings(v: &Vec<String>) -> (r: Vec<String>)
    ensures
        r@ == v@,
{
    let r = v.clone();
    proof {
        assert forall|i: int| 0 <= i < v@.len() implies r@[i] == v@[i] by {
            assert(cloned::<String>(v@[i], r@[i]));
        }
        assert(r@ =~= v@);
    }
    r
}

/// A copy of a list of warnings.
pub fn clone_warnings(v: &Vec<WorkspaceWarning>) -> (r: Vec<WorkspaceWarning>)
    ensures
        r@ == v@,
{
    let r = v.clone();
    proof {
        assert forall|i: int| 0 <= i < v@.len() implies r@[i] == v@[i] by {
            assert(cloned::<WorkspaceWarning>(v@[i], r@[i]));
        }
        assert(r@ =~= v@);
    }
    r
}

/// The rubric of a question.
#[derive(Debug, PartialEq, Eq)]
pub struct RubricState {
    pub criteria: Vec<RubricCriterion>,
    /// Whether the instructor approved the rubric.
    pub approved: bool,
}

/// A question of the exam template.
#[derive(Debug, PartialEq, Eq)]
pub struct QuestionRecord {
    pub question_id: String,
    pub question_number: i64,
    pub text: String,
    pub max_points: Option<i64>,
    pub page_number: i64,
    pub image_path: Option<String>,
    /// Whether question analysis finished for this question.
    pub analysis_complete: bool,
    pub rubric: RubricState,
}

/// One answer of a student submission.
#[derive(Debug, PartialEq, Eq)]
pub struct StudentWorkflowAnswer {
    pub question_id: String,
    pub question_number: i64,
    pub crop_image_path: Option<String>,
    pub manual_grading_required: bool,
    pub manual_grading_reason: Option<String>,
    pub moderation_eligible: bool,
    pub parse_status: String,
    pub parse_confidence: Option<String>,
    pub parse_confidence_source: Option<String>,
    pub raw_parsed_text: Option<String>,
    pub verified_text: Option<String>,
    pub review_required: bool,
    pub verified: bool,
    pub stale: bool,
    pub grading_status: String,
    pub grading_confidence: Option<String>,
    pub grading_confidence_reason: Option<String>,
    pub question_max_points: Option<i64>,
    pub total_points_awarded: Option<i64>,
    pub feedback_text: Option<String>,
    pub criterion_results: Vec<StudentWorkflowCriterionResult>,
    pub highlights: Vec<StudentWorkflowHighlightSpan>,
    pub warnings: Vec<WorkspaceWarning>,
}

/// The page transform found by alignment, as `f64` bit patterns.
#[derive(Clone, Copy, Debug, PartialEq, Eq, Structural)]
pub struct StudentWorkflowTransform {
    pub rotation_bits: u64,
    pub scale_bits: u64,
    pub translate_x_bits: u64,
    pub translate_y_bits: u64,
}

/// The alignment of one student page to the template.
#[derive(Debug, PartialEq, Eq)]
pub struct StudentWorkflowAlignmentPage {
    pub page_number: i64,
    /// The alignment confidence, as the bit pattern of its `f64` value.
    pub confidence_bits: Option<u64>,
    pub low_confidence: bool,
    pub review_exempt: bool,
    pub review_exempt_reason: Option<String>,
    pub question_count: i64,
    pub transform: StudentWorkflowTransform,
    pub warnings: Vec<WorkspaceWarning>,
}

/// A detected question region waiting for the instructor.
#[derive(Debug, PartialEq, Eq)]
pub struct StudentWorkflowDetectReviewRow {
    pub question_id: String,
    pub page_number: i64,
    pub source_page_image_path: String,
    pub template_region: StudentWorkflowDetectRegion,
    pub warnings: Vec<WorkspaceWarning>,
    pub resolved_region: Option<StudentWorkflowDetectRegion>,
}

impl Clone for StudentWorkflowDetectReviewRow {
    fn clone(&self) -> (r: Self)
        ensures
            r.question_id == self.question_id,
            r.page_number == self.page_number,
            r.source_page_image_path == self.source_page_image_path,
            r.template_region == self.template_region,
            r.warnings@ == self.warnings@,
            r.resolved_region == self.resolved_region,
    {
        StudentWorkflowDetectReviewRow {
            question_id: self.question_id.clone(),
            page_number: self.page_number,
            source_page_image_path: self.source_page_image_path.clone(),
            template_region: self.template_region.clone(),
            warnings: clone_warnings(&self.warnings),
            resolved_region: match &self.resolved_region {
                Some(region) => Some(region.clone()),
                None => None,
            },
        }
    }
}

/// Detect results that need review before cropping.
#[derive(Debug, PartialEq)]
pub struct StudentWorkflowDetectReview {
    pub pending_rows: Vec<StudentWorkflowDetectReviewRow>,
    pub trusted_crop_targets: Vec<crate::json::JsonValue>,
}

/// The workflow record of one student submission.
#[derive(Debug, PartialEq)]
pub struct StudentWorkflowSubmission {
    pub student_ref: String,
    pub canonical_pdf_path: String,
    pub page_count: i64,
    pub stage: String,
    pub latest_job_id: Option<String>,
    pub failure_message: Option<String>,
    pub warnings: Vec<WorkspaceWarning>,
    pub page_artifacts: Vec<StudentWorkflowPage>,
    pub alignment_pages: Vec<StudentWorkflowAlignmentPage>,
    pub detect_review: Option<StudentWorkflowDetectReview>,
    pub answers: Vec<StudentWorkflowAnswer>,
}

/// The workflow records of all submissions.
#[derive(Debug, PartialEq)]
pub struct StudentWorkflowState {
    pub status: String,
    pub latest_job_id: Option<String>,
    pub submissions: Vec<StudentWorkflowSubmission>,
}

/// One ingested student submission.
#[derive(Debug, PartialEq, Eq)]
pub struct StudentIntakeSummary {
    pub student_ref: String,
    pub local_display_name: Option<String>,
    pub canonical_pdf_path: String,
    pub ingest_status: String,
    pub page_count: i64,
    pub exam_page_paths: Vec<String>,
    pub warnings: Vec<WorkspaceWarning>,
    pub binding_token_hex: Option<String>,
}

/// Moderation decisions of a project.
#[derive(Debug, PartialEq, Eq)]
pub struct ModerationState {
    pub score_overrides: Vec<ModerationScoreOverride>,
    pub feedback_overrides: Vec<ModerationFeedbackOverride>,
    pub question_reviews: Vec<ModerationQuestionReview>,
}

/// The effective result of one question for one student.
#[derive(Debug, PartialEq, Eq)]
pub struct ResultQuestionRow {
    pub question_id: String,
    pub question_number: i64,
    pub max_points: Option<i64>,
    pub effective_total_points: Option<i64>,
    pub effective_feedback_text: String,
    pub uses_moderated_total: bool,
    pub uses_moderated_feedback: bool,
    pub blocked_reason: Option<String>,
}

/// The effective result of one student.
#[derive(Debug, PartialEq, Eq)]
pub struct ResultStudentRow {
    pub student_ref: String,
    pub aggregate_total: i64,
    pub aggregate_complete: bool,
    pub ready_to_finalize: bool,
    pub blocked_reasons: Vec<String>,
    pub question_rows: Vec<ResultQuestionRow>,
    pub result_fingerprint: Option<String>,
    pub finalized: bool,
    pub stale_finalization: bool,
    pub finalized_at: Option<String>,
    pub uploaded: bool,
    pub upload_failed: bool,
    pub latest_upload_error: Option<String>,
    pub last_upload_attempt_id: Option<String>,
}

/// One upload run and the outcome for each student.
#[derive(Debug, PartialEq, Eq)]
pub struct LmsUploadAttemptResult {
    pub attempt_id: String,
    pub mode: LmsUploadMode,
    pub provider: String,
    pub course_id: String,
    pub assignment_id: String,
    pub started_at: String,
    pub finished_at: String,
    pub attempted_count: i64,
    pub success_count: i64,
    pub failure_count: i64,
    pub student_results: Vec<LmsUploadStudentResult>,
}

/// Persisted results/LMS state of a project.
#[derive(Debug, PartialEq, Eq)]
pub struct ResultsLmsState {
    pub selected_target: Option<ResultsLmsTarget>,
    pub finalization_records: Vec<ResultFinalizationRecord>,
    pub asset_bindings: Vec<ResultsLmsAssetBinding>,
    pub upload_attempts: Vec<LmsUploadAttemptResult>,
}

/// Everything the publisher needs to upload one student's result.
#[derive(Debug, PartialEq, Eq)]
pub struct LmsUploadPreparationRow {
    pub student_ref: String,
    pub user_id: String,
    pub result_fingerprint: String,
    /// The score to post: the row's aggregate total.
    pub score: i64,
    pub report_html_template: String,
    pub report_assets: Vec<LmsUploadReportAsset>,
    pub existing_asset_bindings: Vec<ResultsLmsAssetBinding>,
}

/// What publishing returned for one student.
#[derive(Debug, PartialEq, Eq)]
pub struct LmsUploadPublishOutcome {
    pub student_result: LmsUploadStudentResult,
    pub active_asset_bindings: Vec<ResultsLmsAssetBinding>,
}

/// A copy of the roster cache as consumers see it.
#[derive(Debug, PartialEq, Eq)]
pub struct LmsRosterCacheSnapshot {
    pub status: LmsRosterCacheStatus,
    pub project_path: Option<String>,
    pub lms_provider: Option<String>,
    pub course_id: Option<String>,
    pub rows: Vec<LmsRosterRow>,
    pub last_error: Option<String>,
    pub idle_reason: Option<String>,
}

/// Identity of the open project.
#[derive(Debug, PartialEq, Eq)]
pub struct ProjectSummary {
    pub project_id: String,
    pub display_name: String,
    pub project_path: String,
    pub lms_course_id: Option<String>,
}

/// The loaded state of an exam project.
#[derive(Debug, PartialEq)]
pub struct ExamWorkspaceState {
    pub project: ProjectSummary,
    /// Template setup status (`draft`, `approved`, ...).
    pub status: String,
    pub questions: Vec<QuestionRecord>,
    pub student_intake_items: Vec<StudentIntakeSummary>,
    pub student_workflow: StudentWorkflowState,
    pub student_roster: Vec<StudentRosterRow>,
    pub moderation_state: ModerationState,
    pub results_lms_state: ResultsLmsState,
    pub results_lms_rows: Vec<ResultStudentRow>,
}

} // verus!
