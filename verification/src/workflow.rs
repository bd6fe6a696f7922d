//! The student workflow: review inputs, where a stopped or failed submission
//! resumes, submission rows for new intake, the derived workflow status, and
//! the steps of the pipeline (detect review, PII screening, grading).
use vstd::prelude::*;
use crate::errors::{HostError, WorkerStatus};
use crate::json::JsonValue;
use crate::messages::{concat3, concat5, validation};
use crate::models::{
    clone_warnings, ExamWorkspaceState, QuestionRecord, StudentIntakeSummary, StudentWorkflowAlignmentPage, StudentWorkflowAnswer,
    StudentWorkflowDetectRegion, StudentWorkflowDetectReview, StudentWorkflowDetectReviewRow, StudentWorkflowState, StudentWorkflowSubmission,
};
use crate::moderation::{answer_index, find_answer, find_submission, submission_index};
use crate::stage_payloads::{
    grading_stage_request, is_grading_stage_request, is_preliminary_grading_request, preliminary_grading_request_payload,
};
use crate::seqs::{count_where, first_index, keep, lemma_count_step, lemma_first_index_is, lemma_keep_step};
use crate::sorted::texts;
use crate::text::{blank, int_decimal, is_blank, opt_text, owned, push_i64, push_text, text_eq, trim, trimmed};

verus! {

/// The instructor's confirmed alignment pages for one student.
#[derive(Debug)]
pub struct StudentWorkflowAlignmentUpdateInput {
    pub student_ref: String,
    pub pages: Vec<StudentWorkflowAlignmentPage>,
}

/// The instructor's corrected text for one parsed answer.
#[derive(Debug)]
pub struct StudentWorkflowParseReviewInput {
    pub student_ref: String,
    pub question_id: String,
    pub corrected_text: String,
}

/// A region chosen by the instructor for one pending detect-review row.
#[derive(Debug)]
pub struct StudentWorkflowDetectReviewResolutionInput {
    pub question_id: String,
    pub page_number: i64,
    pub region: StudentWorkflowDetectRegion,
}

/// The instructor's resolutions of one student's pending detect review.
#[derive(Debug)]
pub struct StudentWorkflowDetectReviewInput {
    pub student_ref: String,
    pub resolutions: Vec<StudentWorkflowDetectReviewResolutionInput>,
}

// ---------------------------------------------------------------------------
// Where a submission resumes
// ---------------------------------------------------------------------------

/// The stage after which a stopped or failed submission can pick up again.
#[derive(Clone, Copy, Debug, PartialEq, Eq, Structural)]
pub enum FailedResumePoint {
    FromStart,
    AfterAlignment,
    AfterCanonicalize,
    AfterPii,
    AfterParse,
}

/// Whether an answer needs no further parsing: it is left to manual grading,
/// or it was verified, needs no review, is not stale and did not fail to parse.
pub open spec fn answer_parse_settled(a: StudentWorkflowAnswer) -> bool {
    a.manual_grading_required || (a.verified && !a.review_required && !a.stale
        && a.parse_status@ != "error"@ && a.parse_status@ != "cancelled"@)
}

/// Whether an answer can be parsed again from its crop: it is left to
/// manual grading, or it has a non-empty crop image path.
pub open spec fn answer_has_crop(a: StudentWorkflowAnswer) -> bool {
    a.manual_grading_required || (a.crop_image_path matches Some(p) && p@.len() > 0)
}

/// Whether an answer is stale and not left to manual grading.
pub open spec fn answer_needs_reparse(a: StudentWorkflowAnswer) -> bool {
    a.stale && !a.manual_grading_required
}

/// The submission has answers and every one of them is settled.
pub open spec fn resumable_parse_outputs(s: StudentWorkflowSubmission) -> bool {
    s.answers@.len() > 0 && forall|i: int| 0 <= i < s.answers@.len() ==> #[trigger] answer_parse_settled(s.answers@[i])
}

/// The submission has answers, some need parsing again, and all can be.
pub open spec fn reparseable_answer_crops(s: StudentWorkflowSubmission) -> bool {
    &&& s.answers@.len() > 0
    &&& exists|i: int| 0 <= i < s.answers@.len() && #[trigger] answer_needs_reparse(s.answers@[i])
    &&& forall|i: int| 0 <= i < s.answers@.len() ==> #[trigger] answer_has_crop(s.answers@[i])
}

/// The submission has canonicalized pages, one for each aligned page when
/// there are aligned pages.
pub open spec fn complete_canonicalize_outputs(s: StudentWorkflowSubmission) -> bool {
    s.page_artifacts@.len() > 0 && (s.alignment_pages@.len() == 0 || s.page_artifacts@.len()
        == s.alignment_pages@.len())
}

/// Where a submission resumes: after parsing, after PII screening, after
/// canonicalization, after alignment, or from the start, in that order of
/// preference.
pub open spec fn resume_point(s: StudentWorkflowSubmission) -> FailedResumePoint {
    if resumable_parse_outputs(s) {
        FailedResumePoint::AfterParse
    } else if reparseable_answer_crops(s) {
        FailedResumePoint::AfterPii
    } else if complete_canonicalize_outputs(s) {
        FailedResumePoint::AfterCanonicalize
    } else if s.alignment_pages@.len() > 0 {
        FailedResumePoint::AfterAlignment
    } else {
        FailedResumePoint::FromStart
    }
}

fn answer_parse_settled_exec(a: &StudentWorkflowAnswer) -> (r: bool)
    ensures
        r == answer_parse_settled(*a),
{
    a.manual_grading_required || (a.verified && !a.review_required && !a.stale
        && !text_eq(a.parse_status.as_str(), "error") && !text_eq(a.parse_status.as_str(), "cancelled"))
}

fn answer_has_crop_exec(a: &StudentWorkflowAnswer) -> (r: bool)
    ensures
        r == answer_has_crop(*a),
{
    if a.manual_grading_required {
        return true;
    }
    match &a.crop_image_path {
        Some(p) => p.unicode_len() > 0,
        None => false,
    }
}

/// Whether every answer of the submission is settled, and there is one.
pub fn has_resumable_parse_outputs(submission: &StudentWorkflowSubmission) -> (r: bool)
    ensures
        r == resumable_parse_outputs(*submission),
{
    let answers = &submission.answers;
    if answers.len() == 0 {
        return false;
    }
    let mut i: usize = 0;
    while i < answers.len()
        invariant
            i <= answers@.len(),
            answers@ == submission.answers@,
            forall|k: int| 0 <= k < i ==> #[trigger] answer_parse_settled(answers@[k]),
        decreases answers@.len() - i,
    {
        if !answer_parse_settled_exec(&answers[i]) {
            return false;
        }
        i += 1;
    }
    true
}

/// Whether some answer needs parsing again and every answer has a crop.
pub fn has_reparseable_answer_crops(submission: &StudentWorkflowSubmission) -> (r: bool)
    ensures
        r == reparseable_answer_crops(*submission),
{
    let answers = &submission.answers;
    let mut any_stale = false;
    let mut all_cropped = true;
    let mut i: usize = 0;
    while i < answers.len()
        invariant
            i <= answers@.len(),
            answers@ == submission.answers@,
            any_stale == exists|k: int| 0 <= k < i && #[trigger] answer_needs_reparse(answers@[k]),
            all_cropped == forall|k: int| 0 <= k < i ==> #[trigger] answer_has_crop(answers@[k]),
        decreases answers@.len() - i,
    {
        let ghost was_stale = any_stale;
        if answers[i].stale && !answers[i].manual_grading_required {
            any_stale = true;
        }
        proof {
            if was_stale {
                let w = choose|w: int| 0 <= w < i && #[trigger] answer_needs_reparse(answers@[w]);
                assert(0 <= w < i + 1 && answer_needs_reparse(answers@[w]));
            } else if any_stale {
                assert(answer_needs_reparse(answers@[i as int]));
            }
        }
        if !answer_has_crop_exec(&answers[i]) {
            all_cropped = false;
        }
        proof {
            if !any_stale {
                assert forall|k: int| 0 <= k < i + 1 implies !#[trigger] answer_needs_reparse(answers@[k]) by {
                    if k < i {
                        assert(!answer_needs_reparse(answers@[k]));
                    }
                }
            }
            if !all_cropped && answer_has_crop(answers@[i as int]) {
                let w = choose|w: int| 0 <= w < i && !#[trigger] answer_has_crop(answers@[w]);
                assert(0 <= w < i + 1 && !answer_has_crop(answers@[w]));
            }
        }
        i += 1;
    }
    answers.len() > 0 && any_stale && all_cropped
}

/// Whether the submission has a complete set of canonicalized pages.
pub fn has_complete_canonicalize_outputs(submission: &StudentWorkflowSubmission) -> (r: bool)
    ensures
        r == complete_canonicalize_outputs(*submission),
{
    submission.page_artifacts.len() > 0 && (submission.alignment_pages.len() == 0
        || submission.page_artifacts.len() == submission.alignment_pages.len())
}

/// Where a stopped or failed submission resumes.
pub fn failed_resume_point(submission: &StudentWorkflowSubmission) -> (r: FailedResumePoint)
    ensures
        r == resume_point(*submission),
{
    if has_resumable_parse_outputs(submission) {
        FailedResumePoint::AfterParse
    } else if has_reparseable_answer_crops(submission) {
        FailedResumePoint::AfterPii
    } else if has_complete_canonicalize_outputs(submission) {
        FailedResumePoint::AfterCanonicalize
    } else if submission.alignment_pages.len() > 0 {
        FailedResumePoint::AfterAlignment
    } else {
        FailedResumePoint::FromStart
    }
}

/// The eligible students grouped by the stage after which each resumes.
#[derive(Debug)]
pub struct BatchResumePlan {
    pub from_start: Vec<String>,
    pub after_alignment: Vec<String>,
    pub after_canonicalize: Vec<String>,
    pub after_pii: Vec<String>,
    pub after_parse: Vec<String>,
}

/// Whether the workflow holds a submission of `student_ref`.
pub open spec fn has_submission(subs: Seq<StudentWorkflowSubmission>, student_ref: Seq<char>) -> bool {
    submission_index(subs, student_ref) < subs.len()
}

/// Where the submission of `student_ref` resumes.
pub open spec fn ref_resume_point(subs: Seq<StudentWorkflowSubmission>, student_ref: Seq<char>) -> FailedResumePoint {
    resume_point(subs[submission_index(subs, student_ref)])
}

/// The students of `refs` that resume at `p`, in order.
pub open spec fn refs_resuming_at(
    subs: Seq<StudentWorkflowSubmission>,
    refs: Seq<Seq<char>>,
    p: FailedResumePoint,
) -> Seq<Seq<char>> {
    keep(refs, |r: Seq<char>| ref_resume_point(subs, r) == p)
}

/// The five groups of a resume plan hold every eligible student once: their
/// sizes add up to the number of eligible students.
pub proof fn law_resume_plan_partitions_students(subs: Seq<StudentWorkflowSubmission>, refs: Seq<Seq<char>>)
    ensures
        refs_resuming_at(subs, refs, FailedResumePoint::FromStart).len() + refs_resuming_at(subs, refs, FailedResumePoint::AfterAlignment).len()
            + refs_resuming_at(subs, refs, FailedResumePoint::AfterCanonicalize).len() + refs_resuming_at(subs, refs, FailedResumePoint::AfterPii).len()
            + refs_resuming_at(subs, refs, FailedResumePoint::AfterParse).len() == refs.len(),
    decreases refs.len(),
{
    if refs.len() > 0 {
        law_resume_plan_partitions_students(subs, refs.drop_last());
    }
}

/// The message for a student that the workflow state does not hold.
pub open spec fn missing_submission_message(student_ref: Seq<char>) -> Seq<char> {
    "Student workflow state was missing '"@ + student_ref + "'."@
}

/// The error for a student that the workflow state does not hold.
pub fn missing_submission_error(student_ref: &str) -> (e: HostError)
    ensures
        e is Validation,
        e.msg() == missing_submission_message(student_ref@),
{
    validation(concat3("Student workflow state was missing '", student_ref, "'."))
}

/// Groups the eligible students by the stage after which each resumes; the
/// first student without a submission is refused.
pub fn classify_batch_resume_points(
    workflow_state: &StudentWorkflowState,
    eligible_refs: Vec<String>,
) -> (r: Result<BatchResumePlan, HostError>)
    ensures
        (forall|i: int| 0 <= i < eligible_refs@.len() ==> has_submission(
            workflow_state.submissions@,
            #[trigger] eligible_refs@[i]@,
        )) <==> r is Ok,
        r matches Ok(plan) ==> {
            let subs = workflow_state.submissions@;
            let refs = texts(eligible_refs@);
            &&& texts(plan.from_start@) == refs_resuming_at(subs, refs, FailedResumePoint::FromStart)
            &&& texts(plan.after_alignment@) == refs_resuming_at(subs, refs, FailedResumePoint::AfterAlignment)
            &&& texts(plan.after_canonicalize@) == refs_resuming_at(subs, refs, FailedResumePoint::AfterCanonicalize)
            &&& texts(plan.after_pii@) == refs_resuming_at(subs, refs, FailedResumePoint::AfterPii)
            &&& texts(plan.after_parse@) == refs_resuming_at(subs, refs, FailedResumePoint::AfterParse)
        },
        r matches Err(e) ==> e is Validation && exists|i: int|
            0 <= i < eligible_refs@.len() && !has_submission(workflow_state.submissions@, eligible_refs@[i]@)
                && (forall|j: int| 0 <= j < i ==> has_submission(
                workflow_state.submissions@,
                #[trigger] eligible_refs@[j]@,
            )) && e.msg() == missing_submission_message(eligible_refs@[i]@),
{
    let ghost subs = workflow_state.submissions@;
    let ghost refs = texts(eligible_refs@);
    let mut from_start: Vec<String> = Vec::new();
    let mut after_alignment: Vec<String> = Vec::new();
    let mut after_canonicalize: Vec<String> = Vec::new();
    let mut after_pii: Vec<String> = Vec::new();
    let mut after_parse: Vec<String> = Vec::new();
    let mut i: usize = 0;
    proof {
        assert(refs.take(0) =~= Seq::<Seq<char>>::empty());
    }
    while i < eligible_refs.len()
        invariant
            i <= eligible_refs@.len(),
            subs == workflow_state.submissions@,
            refs == texts(eligible_refs@),
            forall|j: int| 0 <= j < i ==> has_submission(subs, #[trigger] eligible_refs@[j]@),
            texts(from_start@) == refs_resuming_at(subs, refs.take(i as int), FailedResumePoint::FromStart),
            texts(after_alignment@) == refs_resuming_at(subs, refs.take(i as int), FailedResumePoint::AfterAlignment),
            texts(after_canonicalize@) == refs_resuming_at(subs, refs.take(i as int), FailedResumePoint::AfterCanonicalize),
            texts(after_pii@) == refs_resuming_at(subs, refs.take(i as int), FailedResumePoint::AfterPii),
            texts(after_parse@) == refs_resuming_at(subs, refs.take(i as int), FailedResumePoint::AfterParse),
        decreases eligible_refs@.len() - i,
    {
        let student_ref = eligible_refs[i].as_str();
        let k = find_submission(&workflow_state.submissions, student_ref);
        if k == workflow_state.submissions.len() {
            return Err(missing_submission_error(student_ref));
        }
        let point = failed_resume_point(&workflow_state.submissions[k]);
        let name = owned(student_ref);
        proof {
            assert(refs[i as int] == student_ref@);
            assert(ref_resume_point(subs, student_ref@) == point);
            lemma_keep_step(refs, |r: Seq<char>| ref_resume_point(subs, r) == FailedResumePoint::FromStart, i as int);
            lemma_keep_step(refs, |r: Seq<char>| ref_resume_point(subs, r) == FailedResumePoint::AfterAlignment, i as int);
            lemma_keep_step(refs, |r: Seq<char>| ref_resume_point(subs, r) == FailedResumePoint::AfterCanonicalize, i as int);
            lemma_keep_step(refs, |r: Seq<char>| ref_resume_point(subs, r) == FailedResumePoint::AfterPii, i as int);
            lemma_keep_step(refs, |r: Seq<char>| ref_resume_point(subs, r) == FailedResumePoint::AfterParse, i as int);
        }
        match point {
            FailedResumePoint::FromStart => {
                let ghost before = from_start@;
                from_start.push(name);
                proof { assert(texts(from_start@) =~= texts(before).push(student_ref@)); }
            },
            FailedResumePoint::AfterAlignment => {
                let ghost before = after_alignment@;
                after_alignment.push(name);
                proof { assert(texts(after_alignment@) =~= texts(before).push(student_ref@)); }
            },
            FailedResumePoint::AfterCanonicalize => {
                let ghost before = after_canonicalize@;
                after_canonicalize.push(name);
                proof { assert(texts(after_canonicalize@) =~= texts(before).push(student_ref@)); }
            },
            FailedResumePoint::AfterPii => {
                let ghost before = after_pii@;
                after_pii.push(name);
                proof { assert(texts(after_pii@) =~= texts(before).push(student_ref@)); }
            },
            FailedResumePoint::AfterParse => {
                let ghost before = after_parse@;
                after_parse.push(name);
                proof { assert(texts(after_parse@) =~= texts(before).push(student_ref@)); }
            },
        }
        i += 1;
    }
    proof {
        assert(refs.take(i as int) =~= refs);
    }
    Ok(BatchResumePlan { from_start, after_alignment, after_canonicalize, after_pii, after_parse })
}

// ---------------------------------------------------------------------------
// Submission rows and their control fields
// ---------------------------------------------------------------------------

/// The work recorded in a submission (everything but its stage, failure
/// message and latest job id) is the same in `a` and `b`.
pub open spec fn same_work(a: StudentWorkflowSubmission, b: StudentWorkflowSubmission) -> bool {
    &&& a.student_ref == b.student_ref
    &&& a.canonical_pdf_path == b.canonical_pdf_path
    &&& a.page_count == b.page_count
    &&& a.warnings == b.warnings
    &&& a.page_artifacts == b.page_artifacts
    &&& a.alignment_pages == b.alignment_pages
    &&& a.detect_review == b.detect_review
    &&& a.answers == b.answers
}

/// `after` is `before` with at most the submission at `k` changed.
pub open spec fn only_submission_changed(before: StudentWorkflowState, after: StudentWorkflowState, k: int) -> bool {
    &&& after.status == before.status
    &&& after.latest_job_id == before.latest_job_id
    &&& after.submissions@.len() == before.submissions@.len()
    &&& forall|j: int| 0 <= j < before.submissions@.len() && j != k ==> after.submissions@[j] == before.submissions@[j]
}

/// A new submission row made from an intake item.
pub open spec fn fresh_submission_of(s: StudentWorkflowSubmission, intake: StudentIntakeSummary) -> bool {
    &&& s.student_ref@ == intake.student_ref@
    &&& s.canonical_pdf_path@ == intake.canonical_pdf_path@
    &&& s.page_count == intake.page_count
    &&& s.stage@ == "intake_ready"@
    &&& s.latest_job_id is None
    &&& s.failure_message is None
    &&& s.warnings@ == intake.warnings@
    &&& s.page_artifacts@.len() == 0
    &&& s.alignment_pages@.len() == 0
    &&& s.detect_review is None
    &&& s.answers@.len() == 0
}

/// What `ensure_submission_row` makes of `before`: the same state when the
/// student already has a row, else the state with a fresh row appended.
pub open spec fn submission_row_ensured(
    before: StudentWorkflowState,
    after: StudentWorkflowState,
    intake: StudentIntakeSummary,
) -> bool {
    if has_submission(before.submissions@, intake.student_ref@) {
        after == before
    } else {
        &&& after.status == before.status
        &&& after.latest_job_id == before.latest_job_id
        &&& after.submissions@.len() == before.submissions@.len() + 1
        &&& after.submissions@.take(before.submissions@.len() as int) == before.submissions@
        &&& fresh_submission_of(after.submissions@.last(), intake)
    }
}

/// Adds a workflow row for an intake item unless the student has one.
pub fn ensure_submission_row(workflow_state: &mut StudentWorkflowState, intake: &StudentIntakeSummary)
    ensures
        submission_row_ensured(*old(workflow_state), *final(workflow_state), *intake),
{
    let k = find_submission(&workflow_state.submissions, intake.student_ref.as_str());
    if k < workflow_state.submissions.len() {
        return;
    }
    let ghost before = workflow_state.submissions@;
    workflow_state.submissions.push(
        StudentWorkflowSubmission {
            student_ref: intake.student_ref.clone(),
            canonical_pdf_path: intake.canonical_pdf_path.clone(),
            page_count: intake.page_count,
            stage: owned("intake_ready"),
            latest_job_id: None,
            failure_message: None,
            warnings: clone_warnings(&intake.warnings),
            page_artifacts: Vec::new(),
            alignment_pages: Vec::new(),
            detect_review: None,
            answers: Vec::new(),
        },
    );
    proof {
        assert(workflow_state.submissions@.take(before.len() as int) =~= before);
    }
}

/// Ensuring a row twice is ensuring it once: after the first call the
/// student has a row, so the second leaves the state as it is.
pub proof fn law_ensure_submission_row_idempotent(
    s0: StudentWorkflowState,
    s1: StudentWorkflowState,
    s2: StudentWorkflowState,
    intake: StudentIntakeSummary,
)
    requires
        submission_row_ensured(s0, s1, intake),
        submission_row_ensured(s1, s2, intake),
    ensures
        s2 == s1,
        has_submission(s1.submissions@, intake.student_ref@),
{
    if !has_submission(s0.submissions@, intake.student_ref@) {
        let subs = s1.submissions@;
        let p = crate::moderation::submission_has_ref(intake.student_ref@);
        crate::seqs::lemma_first_index_props(subs, p);
        assert(p(subs[subs.len() - 1]));
    }
}

/// Puts a submission back to the state of fresh intake: the intake's PDF
/// and page count, stage `intake_ready`, and no failure, warnings, pages,
/// alignment, detect review or answers. The latest job id is kept.
pub fn reset_submission_for_restart(submission: &mut StudentWorkflowSubmission, intake: &StudentIntakeSummary)
    ensures
        final(submission).student_ref == old(submission).student_ref,
        final(submission).canonical_pdf_path@ == intake.canonical_pdf_path@,
        final(submission).page_count == intake.page_count,
        final(submission).stage@ == "intake_ready"@,
        final(submission).latest_job_id == old(submission).latest_job_id,
        final(submission).failure_message is None,
        final(submission).warnings@.len() == 0,
        final(submission).page_artifacts@.len() == 0,
        final(submission).alignment_pages@.len() == 0,
        final(submission).detect_review is None,
        final(submission).answers@.len() == 0,
{
    submission.canonical_pdf_path = intake.canonical_pdf_path.clone();
    submission.page_count = intake.page_count;
    submission.stage = owned("intake_ready");
    submission.failure_message = None;
    submission.warnings = Vec::new();
    submission.page_artifacts = Vec::new();
    submission.alignment_pages = Vec::new();
    submission.detect_review = None;
    submission.answers = Vec::new();
}

/// Sets the control fields of the submission at `k`: its stage always, its
/// failure message when `failure` is `Some`, its latest job id when `job` is
/// `Some`.
pub(crate) fn set_controls(
    workflow_state: &mut StudentWorkflowState,
    k: usize,
    stage: Option<String>,
    failure: Option<Option<String>>,
    job: Option<Option<String>>,
)
    requires
        k < old(workflow_state).submissions@.len(),
    ensures
        only_submission_changed(*old(workflow_state), *final(workflow_state), k as int),
        same_work(old(workflow_state).submissions@[k as int], final(workflow_state).submissions@[k as int]),
        final(workflow_state).submissions@[k as int].stage == match stage {
            Some(s) => s,
            None => old(workflow_state).submissions@[k as int].stage,
        },
        final(workflow_state).submissions@[k as int].failure_message == match failure {
            Some(f) => f,
            None => old(workflow_state).submissions@[k as int].failure_message,
        },
        final(workflow_state).submissions@[k as int].latest_job_id == match job {
            Some(j) => j,
            None => old(workflow_state).submissions@[k as int].latest_job_id,
        },
{
    let ghost before = workflow_state.submissions@;
    let mut submission = workflow_state.submissions.remove(k);
    if let Some(s) = stage {
        submission.stage = s;
    }
    if let Some(f) = failure {
        submission.failure_message = f;
    }
    if let Some(j) = job {
        submission.latest_job_id = j;
    }
    workflow_state.submissions.insert(k, submission);
    proof {
        assert(workflow_state.submissions@ =~= before.update(k as int, submission));
    }
}

/// The submission of `student_ref` takes the given control fields; a
/// student without a submission is refused and nothing changes.
pub open spec fn controls_set(
    before: StudentWorkflowState,
    after: StudentWorkflowState,
    student_ref: Seq<char>,
    stage: Option<Seq<char>>,
    failure: Option<Option<Seq<char>>>,
    job: Option<Option<Seq<char>>>,
) -> bool {
    let k = submission_index(before.submissions@, student_ref);
    &&& only_submission_changed(before, after, k)
    &&& same_work(before.submissions@[k], after.submissions@[k])
    &&& after.submissions@[k].stage@ == match stage {
        Some(s) => s,
        None => before.submissions@[k].stage@,
    }
    &&& crate::text::opt_text(after.submissions@[k].failure_message) == match failure {
        Some(f) => f,
        None => crate::text::opt_text(before.submissions@[k].failure_message),
    }
    &&& crate::text::opt_text(after.submissions@[k].latest_job_id) == match job {
        Some(j) => j,
        None => crate::text::opt_text(before.submissions@[k].latest_job_id),
    }
}

/// Sets the stage of `student_ref`'s submission.
pub fn set_submission_stage(workflow_state: &mut StudentWorkflowState, student_ref: &str, stage: &str) -> (r: Result<(), HostError>)
    ensures
        has_submission(old(workflow_state).submissions@, student_ref@) <==> r is Ok,
        r is Ok ==> controls_set(*old(workflow_state), *final(workflow_state), student_ref@, Some(stage@), None, None),
        r matches Err(e) ==> e is Validation && e.msg() == missing_submission_message(student_ref@)
            && *final(workflow_state) == *old(workflow_state),
{
    let k = find_submission(&workflow_state.submissions, student_ref);
    if k == workflow_state.submissions.len() {
        return Err(missing_submission_error(student_ref));
    }
    set_controls(workflow_state, k, Some(owned(stage)), None, None);
    Ok(())
}

/// Records the job that last worked on `student_ref`'s submission.
pub fn record_submission_job_id(workflow_state: &mut StudentWorkflowState, student_ref: &str, job_id: &str) -> (r: Result<(), HostError>)
    ensures
        has_submission(old(workflow_state).submissions@, student_ref@) <==> r is Ok,
        r is Ok ==> controls_set(*old(workflow_state), *final(workflow_state), student_ref@, None, None, Some(Some(job_id@))),
        r matches Err(e) ==> e is Validation && e.msg() == missing_submission_message(student_ref@)
            && *final(workflow_state) == *old(workflow_state),
{
    let k = find_submission(&workflow_state.submissions, student_ref);
    if k == workflow_state.submissions.len() {
        return Err(missing_submission_error(student_ref));
    }
    set_controls(workflow_state, k, None, None, Some(Some(owned(job_id))));
    Ok(())
}

/// Marks `student_ref`'s submission `failed` with the given message.
pub fn mark_submission_failed(workflow_state: &mut StudentWorkflowState, student_ref: &str, message: &str) -> (r: Result<(), HostError>)
    ensures
        has_submission(old(workflow_state).submissions@, student_ref@) <==> r is Ok,
        r is Ok ==> controls_set(*old(workflow_state), *final(workflow_state), student_ref@, Some("failed"@), Some(Some(message@)), None),
        r matches Err(e) ==> e is Validation && e.msg() == missing_submission_message(student_ref@)
            && *final(workflow_state) == *old(workflow_state),
{
    let k = find_submission(&workflow_state.submissions, student_ref);
    if k == workflow_state.submissions.len() {
        return Err(missing_submission_error(student_ref));
    }
    set_controls(workflow_state, k, Some(owned("failed")), Some(Some(owned(message))), None);
    Ok(())
}

/// Marks `student_ref`'s submission `stopped` with the given message.
pub fn mark_submission_stopped(workflow_state: &mut StudentWorkflowState, student_ref: &str, message: &str) -> (r: Result<(), HostError>)
    ensures
        has_submission(old(workflow_state).submissions@, student_ref@) <==> r is Ok,
        r is Ok ==> controls_set(*old(workflow_state), *final(workflow_state), student_ref@, Some("stopped"@), Some(Some(message@)), None),
        r matches Err(e) ==> e is Validation && e.msg() == missing_submission_message(student_ref@)
            && *final(workflow_state) == *old(workflow_state),
{
    let k = find_submission(&workflow_state.submissions, student_ref);
    if k == workflow_state.submissions.len() {
        return Err(missing_submission_error(student_ref));
    }
    set_controls(workflow_state, k, Some(owned("stopped")), Some(Some(owned(message))), None);
    Ok(())
}

/// Moves `student_ref`'s submission into `stage` and clears its failure
/// message, before that stage runs on an existing submission.
pub fn begin_existing_submission_stage(workflow_state: &mut StudentWorkflowState, student_ref: &str, stage: &str) -> (r: Result<(), HostError>)
    ensures
        has_submission(old(workflow_state).submissions@, student_ref@) <==> r is Ok,
        r is Ok ==> controls_set(*old(workflow_state), *final(workflow_state), student_ref@, Some(stage@), Some(None), None),
        r matches Err(e) ==> e is Validation && e.msg() == missing_submission_message(student_ref@)
            && *final(workflow_state) == *old(workflow_state),
{
    let k = find_submission(&workflow_state.submissions, student_ref);
    if k == workflow_state.submissions.len() {
        return Err(missing_submission_error(student_ref));
    }
    set_controls(workflow_state, k, Some(owned(stage)), Some(None), None);
    Ok(())
}

// ---------------------------------------------------------------------------
// Workflow status and eligible students
// ---------------------------------------------------------------------------

/// Stages that wait for the instructor.
pub open spec fn attention_stage(stage: Seq<char>) -> bool {
    stage == "alignment_review"@ || stage == "detect_review"@ || stage == "parse_review"@
        || stage == "manual_grading"@ || stage == "failed"@
}

/// Stages in which no work is under way.
pub open spec fn idle_stage(stage: Seq<char>) -> bool {
    stage == "intake_ready"@ || stage == "stopped"@
}

/// The workflow status that the submissions' stages give: `not_started`
/// without submissions, `attention` when one waits for the instructor,
/// `graded` when all are graded, `running` when one is past intake and not
/// stopped, else `ready`.
pub open spec fn derived_workflow_status(subs: Seq<StudentWorkflowSubmission>) -> Seq<char> {
    if subs.len() == 0 {
        "not_started"@
    } else if exists|i: int| 0 <= i < subs.len() && attention_stage(#[trigger] subs[i].stage@) {
        "attention"@
    } else if forall|i: int| 0 <= i < subs.len() ==> #[trigger] subs[i].stage@ == "graded"@ {
        "graded"@
    } else if exists|i: int| 0 <= i < subs.len() && !idle_stage(#[trigger] subs[i].stage@) {
        "running"@
    } else {
        "ready"@
    }
}

fn attention_stage_exec(stage: &str) -> (r: bool)
    ensures
        r == attention_stage(stage@),
{
    text_eq(stage, "alignment_review") || text_eq(stage, "detect_review") || text_eq(stage, "parse_review")
        || text_eq(stage, "manual_grading") || text_eq(stage, "failed")
}

fn idle_stage_exec(stage: &str) -> (r: bool)
    ensures
        r == idle_stage(stage@),
{
    text_eq(stage, "intake_ready") || text_eq(stage, "stopped")
}

/// Sets the workflow status from the submissions' stages.
pub fn update_workflow_status(workflow_state: &mut StudentWorkflowState)
    ensures
        final(workflow_state).status@ == derived_workflow_status(old(workflow_state).submissions@),
        final(workflow_state).submissions == old(workflow_state).submissions,
        final(workflow_state).latest_job_id == old(workflow_state).latest_job_id,
{
    let subs = &workflow_state.submissions;
    let mut any_attention = false;
    let mut all_graded = true;
    let mut any_busy = false;
    let mut i: usize = 0;
    while i < subs.len()
        invariant
            i <= subs@.len(),
            subs@ == workflow_state.submissions@,
            any_attention == exists|k: int| 0 <= k < i && attention_stage(#[trigger] subs@[k].stage@),
            all_graded == forall|k: int| 0 <= k < i ==> #[trigger] subs@[k].stage@ == "graded"@,
            any_busy == exists|k: int| 0 <= k < i && !idle_stage(#[trigger] subs@[k].stage@),
        decreases subs@.len() - i,
    {
        let stage = subs[i].stage.as_str();
        let ghost (a0, g0, b0) = (any_attention, all_graded, any_busy);
        if attention_stage_exec(stage) {
            any_attention = true;
        }
        if !text_eq(stage, "graded") {
            all_graded = false;
        }
        if !idle_stage_exec(stage) {
            any_busy = true;
        }
        proof {
            if a0 {
                let w = choose|w: int| 0 <= w < i && attention_stage(#[trigger] subs@[w].stage@);
                assert(0 <= w < i + 1 && attention_stage(subs@[w].stage@));
            } else if any_attention {
                assert(attention_stage(subs@[i as int].stage@));
            } else {
                assert forall|k: int| 0 <= k < i + 1 implies !attention_stage(#[trigger] subs@[k].stage@) by {
                    if k < i {
                        assert(!attention_stage(subs@[k].stage@));
                    }
                }
            }
            if !all_graded {
                if !g0 {
                    let w = choose|w: int| 0 <= w < i && #[trigger] subs@[w].stage@ != "graded"@;
                    assert(0 <= w < i + 1 && subs@[w].stage@ != "graded"@);
                } else {
                    assert(subs@[i as int].stage@ != "graded"@);
                }
            }
            if b0 {
                let w = choose|w: int| 0 <= w < i && !idle_stage(#[trigger] subs@[w].stage@);
                assert(0 <= w < i + 1 && !idle_stage(subs@[w].stage@));
            } else if any_busy {
                assert(!idle_stage(subs@[i as int].stage@));
            } else {
                assert forall|k: int| 0 <= k < i + 1 implies idle_stage(#[trigger] subs@[k].stage@) by {
                    if k < i {
                        assert(idle_stage(subs@[k].stage@));
                    }
                }
            }
        }
        i += 1;
    }
    let status = if subs.len() == 0 {
        owned("not_started")
    } else if any_attention {
        owned("attention")
    } else if all_graded {
        owned("graded")
    } else if any_busy {
        owned("running")
    } else {
        owned("ready")
    };
    workflow_state.status = status;
}

/// Stages from which a workflow run picks a submission up.
pub open spec fn workflow_eligible_stage(stage: Seq<char>) -> bool {
    stage == ""@ || stage == "intake_ready"@ || stage == "stopped"@ || stage == "failed"@
        || stage == "alignment"@ || stage == "canonicalize"@ || stage == "detect"@ || stage == "crop"@
        || stage == "pii"@ || stage == "parse"@ || stage == "grading"@
}

/// The workflow status follows the stages: `not_started` without
/// submissions; `attention` as soon as one submission waits in alignment,
/// detect or parse review, manual grading or failed; otherwise `graded` when
/// all are graded, and `ready` when every submission is at intake or stopped.
pub proof fn law_workflow_status_from_stages(subs: Seq<StudentWorkflowSubmission>)
    ensures
        subs.len() == 0 ==> derived_workflow_status(subs) == "not_started"@,
        (exists|i: int|
            0 <= i < subs.len() && {
                let st = (#[trigger] subs[i]).stage@;
                st == "alignment_review"@ || st == "detect_review"@ || st == "parse_review"@ || st
                    == "manual_grading"@ || st == "failed"@
            }) ==> derived_workflow_status(subs) == "attention"@,
        subs.len() > 0 && (forall|i: int| 0 <= i < subs.len() ==> (#[trigger] subs[i]).stage@ == "graded"@)
            ==> derived_workflow_status(subs) == "graded"@,
        subs.len() > 0 && (forall|i: int|
            0 <= i < subs.len() ==> (#[trigger] subs[i]).stage@ == "intake_ready"@ || subs[i].stage@ == "stopped"@)
            ==> derived_workflow_status(subs) == "ready"@,
        (forall|i: int|
            0 <= i < subs.len() ==> {
                let st = (#[trigger] subs[i]).stage@;
                st != "alignment_review"@ && st != "detect_review"@ && st != "parse_review"@ && st != "manual_grading"@
                    && st != "failed"@
            }) && (exists|i: int|
            0 <= i < subs.len() && (#[trigger] subs[i]).stage@ != "graded"@ && subs[i].stage@ != "intake_ready"@
                && subs[i].stage@ != "stopped"@) ==> derived_workflow_status(subs) == "running"@,
{
    reveal_strlit("graded");
    reveal_strlit("intake_ready");
    reveal_strlit("stopped");
    reveal_strlit("alignment_review");
    reveal_strlit("detect_review");
    reveal_strlit("parse_review");
    reveal_strlit("manual_grading");
    reveal_strlit("failed");
    assert("graded"@.len() == 6 && "intake_ready"@.len() == 12 && "stopped"@.len() == 7);
    assert("alignment_review"@.len() == 16 && "detect_review"@.len() == 13 && "parse_review"@.len() == 12);
    assert("manual_grading"@.len() == 14 && "failed"@.len() == 6);
    assert("failed"@[0] != "graded"@[0]);
    assert("intake_ready"@[0] != "parse_review"@[0]);
    if subs.len() > 0 && (forall|i: int|
        0 <= i < subs.len() ==> (#[trigger] subs[i]).stage@ == "intake_ready"@ || subs[i].stage@ == "stopped"@) {
        assert(subs[0].stage@ != "graded"@);
        assert forall|i: int| 0 <= i < subs.len() implies !attention_stage(#[trigger] subs[i].stage@) by {}
    }
    if subs.len() > 0 && (forall|i: int| 0 <= i < subs.len() ==> (#[trigger] subs[i]).stage@ == "graded"@) {
        assert forall|i: int| 0 <= i < subs.len() implies !attention_stage(#[trigger] subs[i].stage@) by {}
    }
}

/// A workflow run picks up exactly the submissions at intake or with no
/// stage, stopped or failed ones (to resume them), and those in a stage the
/// run itself moves through (alignment, canonicalize, detect, crop, pii,
/// parse, grading): each such submission's student is among the students
/// picked, and each student picked has such a submission.
pub proof fn law_eligible_stages(subs: Seq<StudentWorkflowSubmission>)
    ensures
        forall|k: int|
            0 <= k < subs.len() && {
                let st = (#[trigger] subs[k]).stage@;
                st == ""@ || st == "intake_ready"@ || st == "stopped"@ || st == "failed"@ || st == "alignment"@ || st
                    == "canonicalize"@ || st == "detect"@ || st == "crop"@ || st == "pii"@ || st == "parse"@ || st
                    == "grading"@
            } ==> eligible_refs(subs).contains(subs[k].student_ref@),
        forall|x: Seq<char>|
            #[trigger] eligible_refs(subs).contains(x) ==> exists|k: int|
                0 <= k < subs.len() && (#[trigger] subs[k]).student_ref@ == x && {
                    let st = subs[k].stage@;
                    st == ""@ || st == "intake_ready"@ || st == "stopped"@ || st == "failed"@ || st == "alignment"@
                        || st == "canonicalize"@ || st == "detect"@ || st == "crop"@ || st == "pii"@ || st == "parse"@
                        || st == "grading"@
                },
{
    let p = |s: StudentWorkflowSubmission| workflow_eligible_stage(s.stage@);
    let f = |s: StudentWorkflowSubmission| s.student_ref@;
    let kept = keep(subs, p);
    crate::seqs::lemma_keep_props(subs, p);
    assert forall|k: int|
        0 <= k < subs.len() && {
            let st = (#[trigger] subs[k]).stage@;
            st == ""@ || st == "intake_ready"@ || st == "stopped"@ || st == "failed"@ || st == "alignment"@ || st
                == "canonicalize"@ || st == "detect"@ || st == "crop"@ || st == "pii"@ || st == "parse"@ || st
                == "grading"@
        } implies eligible_refs(subs).contains(subs[k].student_ref@) by {
        assert(p(subs[k]));
        assert(kept.contains(subs[k]));
        let w = choose|w: int| 0 <= w < kept.len() && kept[w] == subs[k];
        assert(eligible_refs(subs)[w] == subs[k].student_ref@);
    }
    assert forall|x: Seq<char>| #[trigger] eligible_refs(subs).contains(x) implies exists|k: int|
        0 <= k < subs.len() && (#[trigger] subs[k]).student_ref@ == x && {
            let st = subs[k].stage@;
            st == ""@ || st == "intake_ready"@ || st == "stopped"@ || st == "failed"@ || st == "alignment"@ || st
                == "canonicalize"@ || st == "detect"@ || st == "crop"@ || st == "pii"@ || st == "parse"@ || st
                == "grading"@
        } by {
        let w = choose|w: int| 0 <= w < eligible_refs(subs).len() && eligible_refs(subs)[w] == x;
        assert(p(kept[w]));
        assert(kept.contains(kept[w]));
        assert(subs.contains(kept[w]));
        let k = choose|k: int| 0 <= k < subs.len() && subs[k] == kept[w];
        assert(subs[k].student_ref@ == x);
    }
}

/// Whether a workflow run picks up a submission in `stage`.
pub fn stage_is_workflow_eligible(stage: &str) -> (r: bool)
    ensures
        r == workflow_eligible_stage(stage@),
{
    text_eq(stage, "") || text_eq(stage, "intake_ready") || text_eq(stage, "stopped") || text_eq(stage, "failed")
        || text_eq(stage, "alignment") || text_eq(stage, "canonicalize") || text_eq(stage, "detect")
        || text_eq(stage, "crop") || text_eq(stage, "pii") || text_eq(stage, "parse") || text_eq(stage, "grading")
}

/// The students of the submissions that a workflow run picks up, in order.
pub open spec fn eligible_refs(subs: Seq<StudentWorkflowSubmission>) -> Seq<Seq<char>> {
    keep(subs, |s: StudentWorkflowSubmission| workflow_eligible_stage(s.stage@)).map_values(
        |s: StudentWorkflowSubmission| s.student_ref@,
    )
}

/// The students whose submissions a workflow run picks up, in order.
pub fn eligible_student_refs_for_workflow(workflow_state: &StudentWorkflowState) -> (r: Vec<String>)
    ensures
        texts(r@) == eligible_refs(workflow_state.submissions@),
{
    let subs = &workflow_state.submissions;
    let ghost p = |s: StudentWorkflowSubmission| workflow_eligible_stage(s.stage@);
    let ghost f = |s: StudentWorkflowSubmission| s.student_ref@;
    let mut out: Vec<String> = Vec::new();
    let mut i: usize = 0;
    proof {
        assert(subs@.take(0) =~= Seq::<StudentWorkflowSubmission>::empty());
        assert(texts(out@) =~= keep(subs@.take(0), p).map_values(f));
    }
    while i < subs.len()
        invariant
            i <= subs@.len(),
            subs@ == workflow_state.submissions@,
            p == (|s: StudentWorkflowSubmission| workflow_eligible_stage(s.stage@)),
            f == (|s: StudentWorkflowSubmission| s.student_ref@),
            texts(out@) == keep(subs@.take(i as int), p).map_values(f),
        decreases subs@.len() - i,
    {
        proof {
            lemma_keep_step(subs@, p, i as int);
        }
        if stage_is_workflow_eligible(subs[i].stage.as_str()) {
            let ghost before = out@;
            out.push(owned(subs[i].student_ref.as_str()));
            proof {
                assert(texts(out@) =~= texts(before).push(subs@[i as int].student_ref@));
                assert(keep(subs@.take(i + 1), p).map_values(f) =~= keep(subs@.take(i as int), p).map_values(f).push(
                    subs@[i as int].student_ref@,
                ));
            }
        }
        i += 1;
    }
    proof {
        assert(subs@.take(i as int) =~= subs@);
    }
    out
}

// ---------------------------------------------------------------------------
// Intake items ready for the workflow
// ---------------------------------------------------------------------------

/// An intake item has a canonical PDF path and at least one page image.
pub open spec fn intake_ready(item: StudentIntakeSummary) -> bool {
    !is_blank(item.canonical_pdf_path@) && item.exam_page_paths@.len() > 0
}

/// Item `i` is the entry of its student in the intake map: it is ready and
/// no later ready item has the same student.
pub open spec fn intake_entry(items: Seq<StudentIntakeSummary>, i: int) -> bool {
    &&& intake_ready(items[i])
    &&& forall|j: int| i < j < items.len() && intake_ready(#[trigger] items[j]) ==> items[j].student_ref@ != items[i].student_ref@
}

/// The positions `0..n`.
pub open spec fn positions(n: nat) -> Seq<int> {
    Seq::new(n, |i: int| i)
}

/// The positions of the items that make up the intake map, in order.
pub open spec fn intake_map_positions(items: Seq<StudentIntakeSummary>) -> Seq<int> {
    keep(positions(items.len()), |i: int| intake_entry(items, i))
}

fn intake_ready_exec(item: &StudentIntakeSummary) -> (r: bool)
    ensures
        r == intake_ready(*item),
{
    !blank(item.canonical_pdf_path.as_str()) && item.exam_page_paths.len() > 0
}

fn intake_entry_exec(items: &Vec<StudentIntakeSummary>, i: usize) -> (r: bool)
    requires
        i < items@.len(),
    ensures
        r == intake_entry(items@, i as int),
{
    if !intake_ready_exec(&items[i]) {
        return false;
    }
    let n = items.len();
    let mut j: usize = i + 1;
    while j < n
        invariant
            i < j <= items@.len(),
            n == items@.len(),
            forall|m: int| i < m < j && intake_ready(#[trigger] items@[m]) ==> items@[m].student_ref@ != items@[i as int].student_ref@,
        decreases items@.len() - j,
    {
        if intake_ready_exec(&items[j]) && text_eq(items[j].student_ref.as_str(), items[i].student_ref.as_str()) {
            return false;
        }
        j += 1;
    }
    true
}

/// The intake map of the workspace: for each student with a ready intake
/// item, the position of the last such item, in order of position.
pub fn intake_map(workspace: &ExamWorkspaceState) -> (r: Result<Vec<usize>, HostError>)
    ensures
        r matches Ok(v) && v@.map_values(|x: usize| x as int) == intake_map_positions(workspace.student_intake_items@),
{
    let items = &workspace.student_intake_items;
    let ghost p = |i: int| intake_entry(items@, i);
    let ghost all = positions(items@.len());
    let mut out: Vec<usize> = Vec::new();
    let mut i: usize = 0;
    proof {
        assert(all.take(0) =~= Seq::<int>::empty());
        assert(out@.map_values(|x: usize| x as int) =~= keep(all.take(0), p));
    }
    while i < items.len()
        invariant
            i <= items@.len(),
            items@ == workspace.student_intake_items@,
            all == positions(items@.len()),
            p == (|i: int| intake_entry(items@, i)),
            out@.map_values(|x: usize| x as int) == keep(all.take(i as int), p),
        decreases items@.len() - i,
    {
        proof {
            lemma_keep_step(all, p, i as int);
            assert(all[i as int] == i);
        }
        if intake_entry_exec(items, i) {
            let ghost before = out@;
            out.push(i);
            proof {
                assert(out@.map_values(|x: usize| x as int) =~= before.map_values(|x: usize| x as int).push(i as int));
            }
        }
        i += 1;
    }
    proof {
        assert(all.take(i as int) =~= all);
    }
    Ok(out)
}

/// The intake entry of `student_ref`: the last ready item of that student.
pub fn find_intake(workspace: &ExamWorkspaceState, student_ref: &str) -> (r: Option<usize>)
    ensures
        r matches Some(i) ==> i < workspace.student_intake_items@.len() && intake_entry(
            workspace.student_intake_items@,
            i as int,
        ) && workspace.student_intake_items@[i as int].student_ref@ == student_ref@,
        r is None ==> forall|i: int| 0 <= i < workspace.student_intake_items@.len() && intake_ready(
            #[trigger] workspace.student_intake_items@[i],
        ) ==> workspace.student_intake_items@[i].student_ref@ != student_ref@,
{
    let items = &workspace.student_intake_items;
    let mut i: usize = items.len();
    while i > 0
        invariant
            i <= items@.len(),
            items@ == workspace.student_intake_items@,
            forall|m: int| i <= m < items@.len() && intake_ready(#[trigger] items@[m]) ==> items@[m].student_ref@ != student_ref@,
        decreases i,
    {
        i -= 1;
        if intake_ready_exec(&items[i]) && text_eq(items[i].student_ref.as_str(), student_ref) {
            return Some(i);
        }
    }
    None
}

/// The intake entry of `student_ref`, or the error that no canonical intake
/// submission exists for that student.
pub fn require_intake(workspace: &ExamWorkspaceState, student_ref: &str) -> (r: Result<usize, HostError>)
    ensures
        r matches Ok(i) ==> i < workspace.student_intake_items@.len() && intake_entry(
            workspace.student_intake_items@,
            i as int,
        ) && workspace.student_intake_items@[i as int].student_ref@ == student_ref@,
        r matches Err(e) ==> e is Validation && e.msg() == "No canonical intake submission exists for '"@
            + student_ref@ + "'."@ && forall|i: int| 0 <= i < workspace.student_intake_items@.len() && intake_ready(
            #[trigger] workspace.student_intake_items@[i],
        ) ==> workspace.student_intake_items@[i].student_ref@ != student_ref@,
{
    match find_intake(workspace, student_ref) {
        Some(i) => Ok(i),
        None => Err(validation(concat3("No canonical intake submission exists for '", student_ref, "'."))),
    }
}

// ---------------------------------------------------------------------------
// Alignment review
// ---------------------------------------------------------------------------

/// The number of template questions on page `page_number`.
pub open spec fn questions_on_page(questions: Seq<QuestionRecord>, page_number: i64) -> nat {
    count_where(questions, |q: QuestionRecord| q.page_number == page_number)
}

/// `after` is `before` annotated for review: its question count is the
/// number of questions on its page, and a page without questions is exempt
/// from review for the reason `no_questions`.
pub open spec fn page_annotated(
    before: StudentWorkflowAlignmentPage,
    after: StudentWorkflowAlignmentPage,
    questions: Seq<QuestionRecord>,
) -> bool {
    let n = questions_on_page(questions, before.page_number);
    &&& after.page_number == before.page_number
    &&& after.confidence_bits == before.confidence_bits
    &&& after.low_confidence == before.low_confidence
    &&& after.transform == before.transform
    &&& after.warnings == before.warnings
    &&& after.question_count == n
    &&& after.review_exempt == (n == 0)
    &&& opt_text(after.review_exempt_reason) == if n == 0 {
        Some("no_questions"@)
    } else {
        None
    }
}

fn questions_on_page_exec(questions: &Vec<QuestionRecord>, page_number: i64) -> (n: usize)
    ensures
        n == questions_on_page(questions@, page_number),
        n <= questions@.len(),
{
    let ghost p = |q: QuestionRecord| q.page_number == page_number;
    let mut n: usize = 0;
    let mut i: usize = 0;
    proof {
        assert(questions@.take(0) =~= Seq::<QuestionRecord>::empty());
    }
    while i < questions.len()
        invariant
            i <= questions@.len(),
            n <= i,
            p == (|q: QuestionRecord| q.page_number == page_number),
            n == count_where(questions@.take(i as int), p),
        decreases questions@.len() - i,
    {
        proof {
            lemma_count_step(questions@, p, i as int);
        }
        if questions[i].page_number == page_number {
            n += 1;
        }
        i += 1;
    }
    proof {
        assert(questions@.take(i as int) =~= questions@);
    }
    n
}

/// Annotates alignment pages for review: each page gets the number of
/// template questions on it, and pages without questions are exempt.
pub fn apply_alignment_review_metadata(
    alignment_pages: Vec<StudentWorkflowAlignmentPage>,
    questions: &Vec<QuestionRecord>,
) -> (r: Vec<StudentWorkflowAlignmentPage>)
    requires
        questions@.len() <= i64::MAX,
    ensures
        r@.len() == alignment_pages@.len(),
        forall|i: int| 0 <= i < r@.len() ==> page_annotated(alignment_pages@[i], #[trigger] r@[i], questions@),
{
    let ghost orig = alignment_pages@;
    let mut rest = alignment_pages;
    let mut out: Vec<StudentWorkflowAlignmentPage> = Vec::new();
    let ghost mut i: int = 0;
    proof {
        assert(rest@ =~= orig.skip(0));
    }
    while rest.len() > 0
        invariant
            0 <= i <= orig.len(),
            rest@ == orig.skip(i),
            out@.len() == i,
            questions@.len() <= i64::MAX,
            forall|k: int| 0 <= k < i ==> page_annotated(orig[k], #[trigger] out@[k], questions@),
        decreases rest@.len(),
    {
        let ghost prev = rest@;
        let mut page = rest.remove(0);
        proof {
            assert(prev[0] == orig[i]);
            assert(rest@ =~= orig.skip(i + 1));
        }
        let n = questions_on_page_exec(questions, page.page_number);
        page.question_count = n as i64;
        if n == 0 {
            page.review_exempt = true;
            page.review_exempt_reason = Some(owned("no_questions"));
        } else {
            page.review_exempt = false;
            page.review_exempt_reason = None;
        }
        out.push(page);
        proof {
            i = i + 1;
        }
    }
    out
}

/// How a submission goes on after alignment.
#[derive(Clone, Copy, Debug, PartialEq, Eq, Structural)]
pub enum AlignmentOutcome {
    Failed,
    NeedsReview,
    Continue,
}

/// A page whose low alignment confidence the instructor must review.
pub open spec fn actionable_low_confidence(page: StudentWorkflowAlignmentPage) -> bool {
    page.low_confidence && !page.review_exempt
}

/// The message of a submission whose alignment produced no pages.
pub open spec fn alignment_failed_message() -> Seq<char> {
    "Alignment failed for one or more pages. Review the trace and retry."@
}

/// Everything of a submission but its alignment pages and control fields
/// is the same in `a` and `b`.
pub open spec fn same_except_alignment(a: StudentWorkflowSubmission, b: StudentWorkflowSubmission) -> bool {
    &&& a.student_ref == b.student_ref
    &&& a.canonical_pdf_path == b.canonical_pdf_path
    &&& a.page_count == b.page_count
    &&& a.warnings == b.warnings
    &&& a.page_artifacts == b.page_artifacts
    &&& a.detect_review == b.detect_review
    &&& a.answers == b.answers
}

/// Records the alignment pages that job `job_id` produced for `student_ref`:
/// they are annotated for review and stored, and the job is recorded. No
/// pages fails the submission; a page of low confidence that is not exempt
/// asks for review; otherwise the workflow goes on.
pub fn apply_alignment_results(
    workspace: &ExamWorkspaceState,
    workflow_state: &mut StudentWorkflowState,
    student_ref: &str,
    job_id: &str,
    alignment_pages: Vec<StudentWorkflowAlignmentPage>,
) -> (r: Result<AlignmentOutcome, HostError>)
    requires
        workspace.questions@.len() <= i64::MAX,
    ensures
        has_submission(old(workflow_state).submissions@, student_ref@) <==> r is Ok,
        r matches Err(e) ==> e is Validation && e.msg() == missing_submission_message(student_ref@)
            && *final(workflow_state) == *old(workflow_state),
        r matches Ok(outcome) ==> {
            let k = submission_index(old(workflow_state).submissions@, student_ref@);
            let before = old(workflow_state).submissions@[k];
            let after = final(workflow_state).submissions@[k];
            let pages = after.alignment_pages@;
            &&& only_submission_changed(*old(workflow_state), *final(workflow_state), k)
            &&& same_except_alignment(before, after)
            &&& opt_text(after.latest_job_id) == Some(job_id@)
            &&& pages.len() == alignment_pages@.len()
            &&& forall|i: int| 0 <= i < pages.len() ==> page_annotated(alignment_pages@[i], #[trigger] pages[i], workspace.questions@)
            &&& (pages.len() == 0 ==> outcome == AlignmentOutcome::Failed && after.stage@ == "failed"@
                && opt_text(after.failure_message) == Some(alignment_failed_message()))
            &&& (pages.len() > 0 ==> after.stage == before.stage && after.failure_message == before.failure_message)
            &&& (pages.len() > 0 && (exists|i: int| 0 <= i < pages.len() && #[trigger] actionable_low_confidence(pages[i]))
                ==> outcome == AlignmentOutcome::NeedsReview)
            &&& (pages.len() > 0 && !(exists|i: int| 0 <= i < pages.len() && #[trigger] actionable_low_confidence(pages[i]))
                ==> outcome == AlignmentOutcome::Continue)
        },
{
    let k = find_submission(&workflow_state.submissions, student_ref);
    if k == workflow_state.submissions.len() {
        return Err(missing_submission_error(student_ref));
    }
    let pages = apply_alignment_review_metadata(alignment_pages, &workspace.questions);
    let mut actionable = false;
    let mut i: usize = 0;
    while i < pages.len()
        invariant
            i <= pages@.len(),
            actionable == exists|m: int| 0 <= m < i && #[trigger] actionable_low_confidence(pages@[m]),
        decreases pages@.len() - i,
    {
        let ghost a0 = actionable;
        if pages[i].low_confidence && !pages[i].review_exempt {
            actionable = true;
        }
        proof {
            if a0 {
                let w = choose|w: int| 0 <= w < i && #[trigger] actionable_low_confidence(pages@[w]);
                assert(0 <= w < i + 1 && actionable_low_confidence(pages@[w]));
            } else if actionable {
                assert(actionable_low_confidence(pages@[i as int]));
            } else {
                assert forall|m: int| 0 <= m < i + 1 implies !#[trigger] actionable_low_confidence(pages@[m]) by {
                    if m < i {
                        assert(!actionable_low_confidence(pages@[m]));
                    }
                }
            }
        }
        i += 1;
    }
    let empty = pages.len() == 0;
    let ghost before = workflow_state.submissions@;
    let mut submission = workflow_state.submissions.remove(k);
    submission.latest_job_id = Some(owned(job_id));
    submission.alignment_pages = pages;
    if empty {
        submission.stage = owned("failed");
        submission.failure_message = Some(owned("Alignment failed for one or more pages. Review the trace and retry."));
    }
    workflow_state.submissions.insert(k, submission);
    proof {
        assert(workflow_state.submissions@ =~= before.update(k as int, submission));
    }
    if empty {
        Ok(AlignmentOutcome::Failed)
    } else if actionable {
        Ok(AlignmentOutcome::NeedsReview)
    } else {
        Ok(AlignmentOutcome::Continue)
    }
}

/// Stores the instructor's confirmed alignment pages for `student_ref`
/// before the workflow continues from canonicalization.
pub fn record_confirmed_alignment(
    workflow_state: &mut StudentWorkflowState,
    input: StudentWorkflowAlignmentUpdateInput,
) -> (r: Result<(), HostError>)
    ensures
        has_submission(old(workflow_state).submissions@, input.student_ref@) <==> r is Ok,
        r matches Err(e) ==> e is Validation && e.msg() == missing_submission_message(input.student_ref@)
            && *final(workflow_state) == *old(workflow_state),
        r is Ok ==> {
            let k = submission_index(old(workflow_state).submissions@, input.student_ref@);
            let before = old(workflow_state).submissions@[k];
            let after = final(workflow_state).submissions@[k];
            &&& only_submission_changed(*old(workflow_state), *final(workflow_state), k)
            &&& same_except_alignment(before, after)
            &&& after.alignment_pages@ == input.pages@
            &&& after.stage == before.stage
            &&& after.failure_message == before.failure_message
            &&& after.latest_job_id == before.latest_job_id
        },
{
    let k = find_submission(&workflow_state.submissions, input.student_ref.as_str());
    if k == workflow_state.submissions.len() {
        return Err(missing_submission_error(input.student_ref.as_str()));
    }
    let ghost before = workflow_state.submissions@;
    let mut submission = workflow_state.submissions.remove(k);
    submission.alignment_pages = input.pages;
    workflow_state.submissions.insert(k, submission);
    proof {
        assert(workflow_state.submissions@ =~= before.update(k as int, submission));
    }
    Ok(())
}

/// Saves the instructor's alignment pages for a submission pending
/// alignment review, which then waits for canonicalization. Returns the
/// position of the saved submission.
pub fn save_student_alignment_review(
    workflow_state: &mut StudentWorkflowState,
    input: StudentWorkflowAlignmentUpdateInput,
) -> (r: Result<usize, HostError>)
    ensures
        ({
            let subs = old(workflow_state).submissions@;
            let k = submission_index(subs, input.student_ref@);
            &&& !has_submission(subs, input.student_ref@) ==> (r matches Err(e) && e is Validation && e.msg()
                == missing_submission_message(input.student_ref@))
            &&& has_submission(subs, input.student_ref@) && subs[k].stage@ != "alignment_review"@ ==> (r matches Err(e)
                && e is Validation && e.msg() == "Student '"@ + input.student_ref@ + "' is not pending alignment review."@)
            &&& r is Err ==> *final(workflow_state) == *old(workflow_state)
            &&& r is Ok <==> has_submission(subs, input.student_ref@) && subs[k].stage@ == "alignment_review"@
            &&& r matches Ok(idx) ==> {
                let after = final(workflow_state).submissions@[k];
                &&& idx == k
                &&& only_submission_changed(*old(workflow_state), *final(workflow_state), k)
                &&& same_except_alignment(subs[k], after)
                &&& after.alignment_pages@ == input.pages@
                &&& after.stage@ == "canonicalize"@
                &&& after.failure_message is None
                &&& after.latest_job_id == subs[k].latest_job_id
            }
        }),
{
    let k = find_submission(&workflow_state.submissions, input.student_ref.as_str());
    if k == workflow_state.submissions.len() {
        return Err(missing_submission_error(input.student_ref.as_str()));
    }
    if !text_eq(workflow_state.submissions[k].stage.as_str(), "alignment_review") {
        return Err(validation(concat3("Student '", input.student_ref.as_str(), "' is not pending alignment review.")));
    }
    let ghost before = workflow_state.submissions@;
    let mut submission = workflow_state.submissions.remove(k);
    submission.alignment_pages = input.pages;
    submission.stage = owned("canonicalize");
    submission.failure_message = None;
    workflow_state.submissions.insert(k, submission);
    proof {
        assert(workflow_state.submissions@ =~= before.update(k as int, submission));
    }
    Ok(k)
}

// ---------------------------------------------------------------------------
// Parse review
// ---------------------------------------------------------------------------

/// `after` is `before` with its text set by the instructor: verified with
/// `text`, needing no review, not stale, and parsed `ok`; all else is kept.
pub open spec fn answer_reviewed(before: StudentWorkflowAnswer, after: StudentWorkflowAnswer, text: Seq<char>) -> bool {
    &&& after.question_id == before.question_id
    &&& after.question_number == before.question_number
    &&& after.crop_image_path == before.crop_image_path
    &&& after.manual_grading_required == before.manual_grading_required
    &&& after.manual_grading_reason == before.manual_grading_reason
    &&& after.moderation_eligible == before.moderation_eligible
    &&& after.parse_confidence == before.parse_confidence
    &&& after.parse_confidence_source == before.parse_confidence_source
    &&& after.raw_parsed_text == before.raw_parsed_text
    &&& after.grading_status == before.grading_status
    &&& after.grading_confidence == before.grading_confidence
    &&& after.grading_confidence_reason == before.grading_confidence_reason
    &&& after.question_max_points == before.question_max_points
    &&& after.total_points_awarded == before.total_points_awarded
    &&& after.feedback_text == before.feedback_text
    &&& after.criterion_results == before.criterion_results
    &&& after.highlights == before.highlights
    &&& after.warnings == before.warnings
    &&& opt_text(after.verified_text) == Some(text)
    &&& !after.review_required
    &&& after.verified
    &&& !after.stale
    &&& after.parse_status@ == "ok"@
}

/// Everything of a submission but its answers and control fields is the
/// same in `a` and `b`.
pub open spec fn same_except_answers(a: StudentWorkflowSubmission, b: StudentWorkflowSubmission) -> bool {
    &&& a.student_ref == b.student_ref
    &&& a.canonical_pdf_path == b.canonical_pdf_path
    &&& a.page_count == b.page_count
    &&& a.warnings == b.warnings
    &&& a.page_artifacts == b.page_artifacts
    &&& a.alignment_pages == b.alignment_pages
    &&& a.detect_review == b.detect_review
}

/// The message for an answer that is not pending parse review.
pub open spec fn not_pending_parse_review_message(question_id: Seq<char>, student_ref: Seq<char>) -> Seq<char> {
    "Question '"@ + question_id + "' is not pending parse review for '"@ + student_ref + "'."@
}

/// Applies the instructor's corrected text to one answer: the answer is
/// verified with the trimmed text, and the submission waits for further
/// parse review while an answer still needs it, else goes on to grading.
/// Returns whether grading should run.
pub fn apply_parse_review(
    workflow_state: &mut StudentWorkflowState,
    input: &StudentWorkflowParseReviewInput,
) -> (r: Result<bool, HostError>)
    ensures
        ({
            let subs = old(workflow_state).submissions@;
            let k = submission_index(subs, input.student_ref@);
            let found = has_submission(subs, input.student_ref@);
            let a = answer_index(subs[k].answers@, input.question_id@);
            &&& !found ==> (r matches Err(e) && e is Validation && e.msg() == missing_submission_message(input.student_ref@))
            &&& found && a == subs[k].answers@.len() ==> (r matches Err(e) && e is Validation && e.msg()
                == not_pending_parse_review_message(input.question_id@, input.student_ref@))
            &&& r is Err ==> *final(workflow_state) == *old(workflow_state)
            &&& r is Ok <==> found && a < subs[k].answers@.len()
            &&& r matches Ok(grade) ==> {
                let before = subs[k];
                let after = final(workflow_state).submissions@[k];
                let answers = after.answers@;
                let still_review = exists|j: int| 0 <= j < answers.len() && #[trigger] answers[j].review_required;
                &&& only_submission_changed(*old(workflow_state), *final(workflow_state), k)
                &&& same_except_answers(before, after)
                &&& after.latest_job_id == before.latest_job_id
                &&& answers.len() == before.answers@.len()
                &&& forall|j: int| 0 <= j < answers.len() && j != a ==> answers[j] == before.answers@[j]
                &&& answer_reviewed(before.answers@[a], answers[a], trim(input.corrected_text@))
                &&& after.failure_message is None
                &&& after.stage@ == if still_review { "parse_review"@ } else { "grading"@ }
                &&& grade == !still_review
            }
        }),
{
    let k = find_submission(&workflow_state.submissions, input.student_ref.as_str());
    if k == workflow_state.submissions.len() {
        return Err(missing_submission_error(input.student_ref.as_str()));
    }
    let a = find_answer(&workflow_state.submissions[k].answers, input.question_id.as_str());
    if a == workflow_state.submissions[k].answers.len() {
        return Err(
            validation(
                concat5(
                    "Question '",
                    input.question_id.as_str(),
                    "' is not pending parse review for '",
                    input.student_ref.as_str(),
                    "'.",
                ),
            ),
        );
    }
    let ghost before = workflow_state.submissions@;
    let mut submission = workflow_state.submissions.remove(k);
    let ghost sub0 = submission;
    let mut answer = submission.answers.remove(a);
    answer.verified_text = Some(trimmed(input.corrected_text.as_str()));
    answer.review_required = false;
    answer.verified = true;
    answer.stale = false;
    answer.parse_status = owned("ok");
    submission.answers.insert(a, answer);
    proof {
        assert(submission.answers@ =~= sub0.answers@.update(a as int, answer));
    }
    let mut still_review = false;
    let mut j: usize = 0;
    while j < submission.answers.len()
        invariant
            j <= submission.answers@.len(),
            still_review == exists|m: int| 0 <= m < j && #[trigger] submission.answers@[m].review_required,
        decreases submission.answers@.len() - j,
    {
        let ghost s0 = still_review;
        if submission.answers[j].review_required {
            still_review = true;
        }
        proof {
            if s0 {
                let w = choose|w: int| 0 <= w < j && #[trigger] submission.answers@[w].review_required;
                assert(0 <= w < j + 1 && submission.answers@[w].review_required);
            } else if still_review {
                assert(submission.answers@[j as int].review_required);
            } else {
                assert forall|m: int| 0 <= m < j + 1 implies !#[trigger] submission.answers@[m].review_required by {
                    if m < j {
                        assert(!submission.answers@[m].review_required);
                    }
                }
            }
        }
        j += 1;
    }
    submission.stage = if still_review { owned("parse_review") } else { owned("grading") };
    submission.failure_message = None;
    workflow_state.submissions.insert(k, submission);
    proof {
        assert(workflow_state.submissions@ =~= before.update(k as int, submission));
    }
    Ok(!still_review)
}

// ---------------------------------------------------------------------------
// Errors of a single-submission stage
// ---------------------------------------------------------------------------

/// The protocol messages that mean the student's own data cannot go
/// through a stage, so the submission fails rather than stops.
pub open spec fn student_data_error_message(m: Seq<char>) -> bool {
    m == "Canonicalize failed for one or more student pages."@ || m
        == "PII screening produced no parseable answer rows."@
}

/// The message of a stage error that fails the submission, if it is one.
pub open spec fn direct_stage_data_message(err: HostError) -> Option<Seq<char>> {
    if err is Protocol && student_data_error_message(err.msg()) {
        Some(err.msg())
    } else {
        None
    }
}

/// The message of a stage error that fails the submission, if it is one.
pub fn direct_stage_student_data_error(err: &HostError) -> (r: Option<String>)
    ensures
        opt_text(r) == direct_stage_data_message(*err),
{
    match err {
        HostError::Protocol(m) => {
            if text_eq(m.as_str(), "Canonicalize failed for one or more student pages.") || text_eq(
                m.as_str(),
                "PII screening produced no parseable answer rows.",
            ) {
                Some(m.clone())
            } else {
                None
            }
        },
        _ => None,
    }
}

/// The failure message of a submission stopped by an error.
pub open spec fn stopped_message(err: HostError) -> Seq<char> {
    "Workflow stopped before this stage completed: "@ + err.msg()
}

/// The failure message of a submission stopped by `err`.
pub fn stopped_message_for_error(err: &HostError) -> (m: String)
    ensures
        m@ == stopped_message(*err),
{
    let mut m = owned("Workflow stopped before this stage completed: ");
    let text = err.message();
    crate::text::push_text(&mut m, text.as_str());
    m
}

/// Records a stage error on `student_ref`'s submission: an error in the
/// student's own data fails it with that message, any other stops it.
pub fn mark_ref_for_direct_stage_error(
    workflow_state: &mut StudentWorkflowState,
    student_ref: &str,
    err: &HostError,
) -> (r: Result<(), HostError>)
    ensures
        has_submission(old(workflow_state).submissions@, student_ref@) <==> r is Ok,
        r matches Err(e) ==> e is Validation && e.msg() == missing_submission_message(student_ref@)
            && *final(workflow_state) == *old(workflow_state),
        r is Ok ==> match direct_stage_data_message(*err) {
            Some(m) => controls_set(*old(workflow_state), *final(workflow_state), student_ref@, Some("failed"@), Some(Some(m)), None),
            None => controls_set(
                *old(workflow_state),
                *final(workflow_state),
                student_ref@,
                Some("stopped"@),
                Some(Some(stopped_message(*err))),
                None,
            ),
        },
{
    match direct_stage_student_data_error(err) {
        Some(m) => mark_submission_failed(workflow_state, student_ref, m.as_str()),
        None => {
            let m = stopped_message_for_error(err);
            mark_submission_stopped(workflow_state, student_ref, m.as_str())
        },
    }
}

// ---------------------------------------------------------------------------
// The single-submission pipeline: from one stage's outcome to the next step
// ---------------------------------------------------------------------------

/// How a submission goes on after PII screening.
#[derive(Clone, Copy, Debug, PartialEq, Eq, Structural)]
pub enum PiiStageOutcome {
    Continue,
    ManualOnly,
    Stopped,
}

/// How a submission goes on after parsing.
#[derive(Clone, Copy, Debug, PartialEq, Eq, Structural)]
pub enum ParseOutcome {
    Failed,
    NeedsReview,
    Continue,
}

/// What the stage that just ran for one submission came to.
#[derive(Debug)]
pub enum SubmissionStageEvent {
    /// Canonicalization finished.
    Canonicalized,
    /// Detection found this many crop targets.
    Detected(usize),
    /// Detection needs the instructor's review.
    DetectNeedsReview,
    /// The instructor's detect review resolved this many crop targets.
    ReviewResolved(usize),
    /// Cropping finished.
    Cropped,
    /// PII screening finished.
    PiiScreened(PiiStageOutcome),
    /// Parsing finished.
    Parsed(ParseOutcome),
    /// The stage failed with this error.
    StageFailed(HostError),
}

/// What the workflow does next for the submission.
#[derive(Debug)]
pub enum SubmissionStageAction {
    RunDetect,
    RunCrop,
    RunPii,
    RunParse,
    /// Fail the submission with this message and report the worker ready.
    FailSubmission(String),
    /// Record the stage error on the submission and report the worker ready.
    HandleStageError(HostError),
    /// Nothing more to do now.
    Stop,
    /// Save the state and report the worker ready.
    SaveReady,
    /// Wait for parse review: set the stage and report the worker ready.
    AwaitParseReview,
    /// Save the state, report the worker busy, and grade the submission.
    StartGrading,
}

/// Whether `a` is the next step of the single-submission pipeline after
/// `event`: detection follows canonicalization; crop follows a detection or a
/// resolved review that found regions, and one that found none fails the
/// submission; PII screening follows crop; parsing follows a clean screening;
/// parsing's outcome saves, waits for review or starts grading.
pub open spec fn is_next_stage_action(event: SubmissionStageEvent, a: SubmissionStageAction) -> bool {
    match event {
        SubmissionStageEvent::Canonicalized => a is RunDetect,
        SubmissionStageEvent::Detected(n) => if n == 0 {
            a matches SubmissionStageAction::FailSubmission(m) && m@ == no_regions_message(false)
        } else {
            a is RunCrop
        },
        SubmissionStageEvent::DetectNeedsReview => a is Stop,
        SubmissionStageEvent::ReviewResolved(n) => if n == 0 {
            a matches SubmissionStageAction::FailSubmission(m) && m@ == no_regions_message(true)
        } else {
            a is RunCrop
        },
        SubmissionStageEvent::Cropped => a is RunPii,
        SubmissionStageEvent::PiiScreened(o) => match o {
            PiiStageOutcome::Continue => a is RunParse,
            _ => a is Stop,
        },
        SubmissionStageEvent::Parsed(o) => match o {
            ParseOutcome::Failed => a is SaveReady,
            ParseOutcome::NeedsReview => a is AwaitParseReview,
            ParseOutcome::Continue => a is StartGrading,
        },
        SubmissionStageEvent::StageFailed(e) => a == SubmissionStageAction::HandleStageError(e),
    }
}

/// The message of a submission for which no crop region was found.
pub open spec fn no_regions_message(after_review: bool) -> Seq<char> {
    if after_review {
        "No question regions were resolved for crop."@
    } else {
        "No question regions were detected for crop."@
    }
}

/// The next step of the single-submission pipeline after `event`: detection
/// follows canonicalization, crop follows detection or a resolved review
/// unless no region was found (which fails the submission), PII screening
/// follows crop, parsing follows a clean screening, and parsing's outcome
/// saves, waits for review or starts grading. A stage error is recorded on
/// the submission.
pub fn next_submission_stage_action(event: SubmissionStageEvent) -> (a: SubmissionStageAction)
    ensures
        is_next_stage_action(event, a),
{
    match event {
        SubmissionStageEvent::Canonicalized => SubmissionStageAction::RunDetect,
        SubmissionStageEvent::Detected(n) => if n == 0 {
            SubmissionStageAction::FailSubmission(owned("No question regions were detected for crop."))
        } else {
            SubmissionStageAction::RunCrop
        },
        SubmissionStageEvent::DetectNeedsReview => SubmissionStageAction::Stop,
        SubmissionStageEvent::ReviewResolved(n) => if n == 0 {
            SubmissionStageAction::FailSubmission(owned("No question regions were resolved for crop."))
        } else {
            SubmissionStageAction::RunCrop
        },
        SubmissionStageEvent::Cropped => SubmissionStageAction::RunPii,
        SubmissionStageEvent::PiiScreened(o) => match o {
            PiiStageOutcome::Continue => SubmissionStageAction::RunParse,
            _ => SubmissionStageAction::Stop,
        },
        SubmissionStageEvent::Parsed(o) => match o {
            ParseOutcome::Failed => SubmissionStageAction::SaveReady,
            ParseOutcome::NeedsReview => SubmissionStageAction::AwaitParseReview,
            ParseOutcome::Continue => SubmissionStageAction::StartGrading,
        },
        SubmissionStageEvent::StageFailed(e) => SubmissionStageAction::HandleStageError(e),
    }
}

/// The worker status reported after a step that saves the state, if any.
pub open spec fn action_worker_status_spec(action: SubmissionStageAction) -> Option<WorkerStatus> {
    match action {
        SubmissionStageAction::FailSubmission(_) => Some(WorkerStatus::Ready),
        SubmissionStageAction::HandleStageError(_) => Some(WorkerStatus::Ready),
        SubmissionStageAction::SaveReady => Some(WorkerStatus::Ready),
        SubmissionStageAction::AwaitParseReview => Some(WorkerStatus::Ready),
        SubmissionStageAction::StartGrading => Some(WorkerStatus::Busy),
        _ => None,
    }
}

/// The worker status reported after a step that saves the state, if any.
pub fn action_worker_status(action: &SubmissionStageAction) -> (r: Option<WorkerStatus>)
    ensures
        r == action_worker_status_spec(*action),
{
    match action {
        SubmissionStageAction::FailSubmission(_) => Some(WorkerStatus::Ready),
        SubmissionStageAction::HandleStageError(_) => Some(WorkerStatus::Ready),
        SubmissionStageAction::SaveReady => Some(WorkerStatus::Ready),
        SubmissionStageAction::AwaitParseReview => Some(WorkerStatus::Ready),
        SubmissionStageAction::StartGrading => Some(WorkerStatus::Busy),
        _ => None,
    }
}

/// Applies the workflow-state part of a step to `student_ref`'s submission:
/// a failure is recorded, a stage error is recorded as failed or stopped,
/// waiting for parse review sets the stage; other steps change nothing.
pub fn apply_stage_action(
    workflow_state: &mut StudentWorkflowState,
    student_ref: &str,
    action: &SubmissionStageAction,
) -> (r: Result<(), HostError>)
    ensures
        r matches Err(e) ==> e is Validation && e.msg() == missing_submission_message(student_ref@)
            && *final(workflow_state) == *old(workflow_state) && !has_submission(
            old(workflow_state).submissions@,
            student_ref@,
        ),
        match *action {
            SubmissionStageAction::FailSubmission(m) => (has_submission(old(workflow_state).submissions@, student_ref@)
                <==> r is Ok) && (r is Ok ==> controls_set(
                *old(workflow_state),
                *final(workflow_state),
                student_ref@,
                Some("failed"@),
                Some(Some(m@)),
                None,
            )),
            SubmissionStageAction::HandleStageError(err) => (has_submission(old(workflow_state).submissions@, student_ref@)
                <==> r is Ok) && (r is Ok ==> match direct_stage_data_message(err) {
                Some(m) => controls_set(*old(workflow_state), *final(workflow_state), student_ref@, Some("failed"@), Some(Some(m)), None),
                None => controls_set(
                    *old(workflow_state),
                    *final(workflow_state),
                    student_ref@,
                    Some("stopped"@),
                    Some(Some(stopped_message(err))),
                    None,
                ),
            }),
            SubmissionStageAction::AwaitParseReview => (has_submission(old(workflow_state).submissions@, student_ref@)
                <==> r is Ok) && (r is Ok ==> controls_set(
                *old(workflow_state),
                *final(workflow_state),
                student_ref@,
                Some("parse_review"@),
                None,
                None,
            )),
            _ => r is Ok && *final(workflow_state) == *old(workflow_state),
        },
{
    match action {
        SubmissionStageAction::FailSubmission(m) => mark_submission_failed(workflow_state, student_ref, m.as_str()),
        SubmissionStageAction::HandleStageError(err) => mark_ref_for_direct_stage_error(workflow_state, student_ref, err),
        SubmissionStageAction::AwaitParseReview => set_submission_stage(workflow_state, student_ref, "parse_review"),
        _ => Ok(()),
    }
}

// ---------------------------------------------------------------------------
// Detect review
// ---------------------------------------------------------------------------

/// Whether a review row is the one for question `q` on page `page`.
pub open spec fn row_for(q: Seq<char>, page: i64) -> spec_fn(StudentWorkflowDetectReviewRow) -> bool {
    |r: StudentWorkflowDetectReviewRow| r.question_id@ == q && r.page_number == page
}

/// The pending row that a resolution targets (the first row of its question
/// and page), or the number of rows when there is none.
pub open spec fn resolution_target(rows: Seq<StudentWorkflowDetectReviewRow>, res: StudentWorkflowDetectReviewResolutionInput) -> int {
    first_index(rows, row_for(res.question_id@, res.page_number))
}

/// Whether a resolution targets no pending row.
pub open spec fn resolution_unmatched(rows: Seq<StudentWorkflowDetectReviewRow>) -> spec_fn(StudentWorkflowDetectReviewResolutionInput) -> bool {
    |res: StudentWorkflowDetectReviewResolutionInput| resolution_target(rows, res) == rows.len()
}

/// The resolved region of row `i` after the resolutions `res` apply in
/// order: the region of the last one that targets it, else the row's own.
pub open spec fn region_after(
    rows: Seq<StudentWorkflowDetectReviewRow>,
    res: Seq<StudentWorkflowDetectReviewResolutionInput>,
    i: int,
) -> Option<StudentWorkflowDetectRegion>
    decreases res.len(),
{
    if res.len() == 0 {
        rows[i].resolved_region
    } else if resolution_target(rows, res.last()) == i {
        Some(res.last().region)
    } else {
        region_after(rows, res.drop_last(), i)
    }
}

/// `after` is `rows` with the resolutions `res` applied.
pub open spec fn rows_resolved(
    rows: Seq<StudentWorkflowDetectReviewRow>,
    after: Seq<StudentWorkflowDetectReviewRow>,
    res: Seq<StudentWorkflowDetectReviewResolutionInput>,
) -> bool {
    &&& after.len() == rows.len()
    &&& forall|i: int| 0 <= i < rows.len() ==> {
        &&& (#[trigger] after[i]).question_id == rows[i].question_id
        &&& after[i].page_number == rows[i].page_number
        &&& after[i].source_page_image_path == rows[i].source_page_image_path
        &&& after[i].template_region == rows[i].template_region
        &&& after[i].warnings@ == rows[i].warnings@
        &&& after[i].resolved_region == region_after(rows, res, i)
    }
}

/// Every row has a resolved region once the resolutions apply.
pub open spec fn all_rows_resolved(
    rows: Seq<StudentWorkflowDetectReviewRow>,
    res: Seq<StudentWorkflowDetectReviewResolutionInput>,
) -> bool {
    forall|i: int| 0 <= i < rows.len() ==> (#[trigger] region_after(rows, res, i)) is Some
}

/// The message for a resolution that targets no pending row.
pub open spec fn not_pending_detect_message(res: StudentWorkflowDetectReviewResolutionInput, student_ref: Seq<char>) -> Seq<char> {
    "Question '"@ + res.question_id@ + "' on page "@ + int_decimal(res.page_number as int)
        + " is not pending detect review for '"@ + student_ref + "'."@
}

fn find_pending_row(rows: &Vec<StudentWorkflowDetectReviewRow>, question_id: &str, page_number: i64) -> (r: usize)
    ensures
        r == first_index(rows@, row_for(question_id@, page_number)),
        r <= rows@.len(),
{
    let ghost p = row_for(question_id@, page_number);
    let mut i: usize = 0;
    while i < rows.len()
        invariant
            i <= rows@.len(),
            p == row_for(question_id@, page_number),
            forall|k: int| 0 <= k < i ==> !p(#[trigger] rows@[k]),
        decreases rows@.len() - i,
    {
        if text_eq(rows[i].question_id.as_str(), question_id) && rows[i].page_number == page_number {
            proof {
                lemma_first_index_is(rows@, p, i as int);
            }
            return i;
        }
        i += 1;
    }
    proof {
        lemma_first_index_is(rows@, p, i as int);
    }
    i
}

fn clone_rows(rows: &Vec<StudentWorkflowDetectReviewRow>) -> (r: Vec<StudentWorkflowDetectReviewRow>)
    ensures
        rows_resolved(rows@, r@, Seq::empty()),
{
    let mut out: Vec<StudentWorkflowDetectReviewRow> = Vec::new();
    let mut i: usize = 0;
    while i < rows.len()
        invariant
            i <= rows@.len(),
            out@.len() == i,
            forall|k: int| 0 <= k < i ==> {
                &&& (#[trigger] out@[k]).question_id == rows@[k].question_id
                &&& out@[k].page_number == rows@[k].page_number
                &&& out@[k].source_page_image_path == rows@[k].source_page_image_path
                &&& out@[k].template_region == rows@[k].template_region
                &&& out@[k].warnings@ == rows@[k].warnings@
                &&& out@[k].resolved_region == rows@[k].resolved_region
            },
        decreases rows@.len() - i,
    {
        out.push(rows[i].clone());
        i += 1;
    }
    out
}

/// Applies the instructor's resolutions to the pending rows: each sets the
/// region of the row of its question and page. A resolution without such a
/// row is refused, the first one in order; so is a row left unresolved, with
/// `unresolved_message`.
pub fn resolve_detect_rows(
    rows: &Vec<StudentWorkflowDetectReviewRow>,
    student_ref: &str,
    resolutions: Vec<StudentWorkflowDetectReviewResolutionInput>,
    unresolved_message: &str,
) -> (r: Result<Vec<StudentWorkflowDetectReviewRow>, HostError>)
    ensures
        ({
            let res = resolutions@;
            let u = first_index(res, resolution_unmatched(rows@));
            &&& u < res.len() ==> (r matches Err(e) && e is Validation && e.msg() == not_pending_detect_message(res[u], student_ref@))
            &&& u == res.len() && !all_rows_resolved(rows@, res) ==> (r matches Err(e) && e is Validation && e.msg()
                == unresolved_message@)
            &&& r is Ok <==> u == res.len() && all_rows_resolved(rows@, res)
            &&& r matches Ok(after) ==> rows_resolved(rows@, after@, res)
        }),
{
    let ghost res = resolutions@;
    let ghost unmatched = resolution_unmatched(rows@);
    let mut cur = clone_rows(rows);
    let mut rest = resolutions;
    let ghost mut j: int = 0;
    proof {
        assert(rest@ =~= res.skip(0));
        assert(res.take(0) =~= Seq::<StudentWorkflowDetectReviewResolutionInput>::empty());
    }
    while rest.len() > 0
        invariant
            0 <= j <= res.len(),
            res == resolutions@,
            rest@ == res.skip(j),
            unmatched == resolution_unmatched(rows@),
            forall|m: int| 0 <= m < j ==> !unmatched(#[trigger] res[m]),
            rows_resolved(rows@, cur@, res.take(j)),
        decreases rest@.len(),
    {
        let ghost prev = rest@;
        let resolution = rest.remove(0);
        proof {
            assert(prev[0] == res[j]);
            assert(rest@ =~= res.skip(j + 1));
        }
        let t = find_pending_row(rows, resolution.question_id.as_str(), resolution.page_number);
        if t == rows.len() {
            proof {
                assert(unmatched(res[j]));
                lemma_first_index_is(res, unmatched, j);
            }
            let mut m = owned("Question '");
            push_text(&mut m, resolution.question_id.as_str());
            push_text(&mut m, "' on page ");
            push_i64(&mut m, resolution.page_number);
            push_text(&mut m, " is not pending detect review for '");
            push_text(&mut m, student_ref);
            push_text(&mut m, "'.");
            proof {
                assert(m@ =~= not_pending_detect_message(res[j], student_ref@));
                assert(first_index(res, resolution_unmatched(rows@)) == j);
            }
            return Err(validation(m));
        }
        let ghost before = cur@;
        let mut row = cur.remove(t);
        row.resolved_region = Some(resolution.region);
        cur.insert(t, row);
        proof {
            assert(cur@ =~= before.update(t as int, row));
            let taken = res.take(j + 1);
            assert(taken.drop_last() =~= res.take(j));
            assert(taken.last() == res[j]);
            assert forall|i: int| 0 <= i < rows@.len() implies (#[trigger] cur@[i]).resolved_region == region_after(
                rows@,
                taken,
                i,
            ) by {
                if i == t {
                    assert(resolution_target(rows@, taken.last()) == i);
                } else {
                    assert(cur@[i] == before[i]);
                }
            }
            j = j + 1;
        }
    }
    proof {
        assert(res.take(j) =~= res);
        lemma_first_index_is(res, unmatched, res.len() as int);
    }
    let mut i: usize = 0;
    while i < cur.len()
        invariant
            i <= cur@.len(),
            rows_resolved(rows@, cur@, res),
            res == resolutions@,
            first_index(res, resolution_unmatched(rows@)) == res.len(),
            forall|m: int| 0 <= m < i ==> (#[trigger] region_after(rows@, res, m)) is Some,
        decreases cur@.len() - i,
    {
        if cur[i].resolved_region.is_none() {
            proof {
                assert(region_after(rows@, res, i as int) is None);
            }
            return Err(validation(owned(unresolved_message)));
        }
        i += 1;
    }
    Ok(cur)
}

/// Everything of a submission but its detect review and control fields is
/// the same in `a` and `b`.
pub open spec fn same_except_detect_review(a: StudentWorkflowSubmission, b: StudentWorkflowSubmission) -> bool {
    &&& a.student_ref == b.student_ref
    &&& a.canonical_pdf_path == b.canonical_pdf_path
    &&& a.page_count == b.page_count
    &&& a.warnings == b.warnings
    &&& a.page_artifacts == b.page_artifacts
    &&& a.alignment_pages == b.alignment_pages
    &&& a.answers == b.answers
}

/// What a detect review of `student_ref` comes to: refused unless the
/// submission exists, waits for detect review and holds review details;
/// then as `resolve_detect_rows` decides, the resolved rows replacing the
/// pending ones.
pub open spec fn detect_review_applied(
    before: StudentWorkflowState,
    after: StudentWorkflowState,
    input: StudentWorkflowDetectReviewInput,
    unresolved_message: Seq<char>,
    stage: Option<Seq<char>>,
    r: Result<usize, HostError>,
) -> bool {
    let subs = before.submissions@;
    let student_ref = input.student_ref@;
    let k = submission_index(subs, student_ref);
    let found = has_submission(subs, student_ref);
    let pending = found && subs[k].stage@ == "detect_review"@;
    let res = input.resolutions@;
    &&& !found ==> (r matches Err(e) && e is Validation && e.msg() == missing_submission_message(student_ref))
    &&& found && !pending ==> (r matches Err(e) && e is Validation && e.msg() == "Student '"@ + student_ref
        + "' is not pending detect review."@)
    &&& pending && subs[k].detect_review is None ==> (r matches Err(e) && e is Validation && e.msg() == "Student '"@
        + student_ref + "' is missing detect review details."@)
    &&& pending ==> (subs[k].detect_review matches Some(review) ==> {
        let rows = review.pending_rows@;
        let u = first_index(res, resolution_unmatched(rows));
        &&& u < res.len() ==> (r matches Err(e) && e is Validation && e.msg() == not_pending_detect_message(res[u], student_ref))
        &&& u == res.len() && !all_rows_resolved(rows, res) ==> (r matches Err(e) && e is Validation && e.msg()
            == unresolved_message)
        &&& r is Ok <==> u == res.len() && all_rows_resolved(rows, res)
        &&& r matches Ok(idx) ==> {
            let s = after.submissions@[k];
            &&& idx == k
            &&& only_submission_changed(before, after, k)
            &&& same_except_detect_review(subs[k], s)
            &&& s.detect_review matches Some(rv) && rv.trusted_crop_targets == review.trusted_crop_targets
                && rows_resolved(rows, rv.pending_rows@, res)
            &&& s.stage@ == match stage {
                Some(st) => st,
                None => subs[k].stage@,
            }
            &&& s.failure_message is None
            &&& s.latest_job_id == subs[k].latest_job_id
        }
    })
    &&& r is Err ==> after == before
}

fn apply_detect_review(
    workflow_state: &mut StudentWorkflowState,
    input: StudentWorkflowDetectReviewInput,
    unresolved_message: &str,
    stage: Option<&str>,
) -> (r: Result<usize, HostError>)
    ensures
        detect_review_applied(
            *old(workflow_state),
            *final(workflow_state),
            input,
            unresolved_message@,
            match stage {
                Some(s) => Some(s@),
                None => None,
            },
            r,
        ),
{
    let student_ref = input.student_ref.as_str();
    let k = find_submission(&workflow_state.submissions, student_ref);
    if k == workflow_state.submissions.len() {
        return Err(missing_submission_error(student_ref));
    }
    if !text_eq(workflow_state.submissions[k].stage.as_str(), "detect_review") {
        return Err(validation(concat3("Student '", student_ref, "' is not pending detect review.")));
    }
    let resolved = match &workflow_state.submissions[k].detect_review {
        None => {
            return Err(validation(concat3("Student '", student_ref, "' is missing detect review details.")));
        },
        Some(review) => resolve_detect_rows(&review.pending_rows, student_ref, input.resolutions, unresolved_message),
    };
    let rows = match resolved {
        Ok(rows) => rows,
        Err(e) => {
            return Err(e);
        },
    };
    let ghost before = workflow_state.submissions@;
    let mut submission = workflow_state.submissions.remove(k);
    let ghost sub0 = submission;
    let trusted = match submission.detect_review {
        Some(review) => review.trusted_crop_targets,
        None => Vec::new(),
    };
    submission.detect_review = Some(StudentWorkflowDetectReview { pending_rows: rows, trusted_crop_targets: trusted });
    if let Some(s) = stage {
        submission.stage = owned(s);
    }
    submission.failure_message = None;
    workflow_state.submissions.insert(k, submission);
    proof {
        assert(workflow_state.submissions@ =~= before.update(k as int, submission));
    }
    Ok(k)
}

/// Saves the instructor's detect-review resolutions while a job runs: the
/// rows take their regions and the submission waits for cropping. Returns
/// the position of the saved submission.
pub fn save_student_detect_review(
    workflow_state: &mut StudentWorkflowState,
    input: StudentWorkflowDetectReviewInput,
) -> (r: Result<usize, HostError>)
    ensures
        detect_review_applied(
            *old(workflow_state),
            *final(workflow_state),
            input,
            "All pending detect-review rows must have resolved regions before saving."@,
            Some("crop"@),
            r,
        ),
{
    apply_detect_review(
        workflow_state,
        input,
        "All pending detect-review rows must have resolved regions before saving.",
        Some("crop"),
    )
}

/// Applies the instructor's detect-review resolutions before the workflow
/// continues with cropping; the stage is left for the crop step to set.
pub fn confirm_student_detect_review(
    workflow_state: &mut StudentWorkflowState,
    input: StudentWorkflowDetectReviewInput,
) -> (r: Result<usize, HostError>)
    ensures
        detect_review_applied(
            *old(workflow_state),
            *final(workflow_state),
            input,
            "All pending detect-review rows must have resolved regions before continuing."@,
            None,
            r,
        ),
{
    apply_detect_review(
        workflow_state,
        input,
        "All pending detect-review rows must have resolved regions before continuing.",
        None,
    )
}


// ---------------------------------------------------------------------------
// Continuing after a detect review
// ---------------------------------------------------------------------------

/// The message for a submission that has no pending detect review.
pub open spec fn not_pending_detect_review_message(student_ref: Seq<char>) -> Seq<char> {
    "Student '"@ + student_ref + "' is not pending detect review."@
}

/// Rows whose region the instructor resolved.
pub open spec fn row_resolved() -> spec_fn(StudentWorkflowDetectReviewRow) -> bool {
    |row: StudentWorkflowDetectReviewRow| row.resolved_region is Some
}

/// The number of crop targets a detect review yields: its trusted targets,
/// then one for each row whose region was resolved.
pub open spec fn review_crop_target_count(review: StudentWorkflowDetectReview) -> nat {
    review.trusted_crop_targets@.len() + count_where(review.pending_rows@, row_resolved())
}

/// `c`, or `usize::MAX` when `c` is larger.
pub open spec fn capped_count(c: nat) -> int {
    if c <= usize::MAX {
        c as int
    } else {
        usize::MAX as int
    }
}

/// The number of crop targets a student's detect review yields (counted up
/// to `usize::MAX`, so that it is zero exactly when there is none), read before
/// the workflow continues with cropping. A student without a submission, or
/// whose submission has no detect review pending, is refused before any work
/// starts. (No target at all fails the submission: see
/// `next_submission_stage_action` on `ReviewResolved(0)`.)
pub fn resolved_crop_target_count(workflow_state: &StudentWorkflowState, student_ref: &str) -> (r: Result<
    usize,
    HostError,
>)
    ensures
        ({
            let subs = workflow_state.submissions@;
            let k = submission_index(subs, student_ref@);
            &&& !has_submission(subs, student_ref@) ==> (r matches Err(e) && e is Validation && e.msg()
                == missing_submission_message(student_ref@))
            &&& has_submission(subs, student_ref@) && subs[k].detect_review is None ==> (r matches Err(e)
                && e is Validation && e.msg() == not_pending_detect_review_message(student_ref@))
            &&& r is Ok <==> has_submission(subs, student_ref@) && subs[k].detect_review is Some
            &&& r matches Ok(n) ==> n == capped_count(review_crop_target_count(subs[k].detect_review->0))
        }),
{
    let k = find_submission(&workflow_state.submissions, student_ref);
    if k == workflow_state.submissions.len() {
        return Err(missing_submission_error(student_ref));
    }
    let review = match &workflow_state.submissions[k].detect_review {
        Some(review) => review,
        None => {
            return Err(validation(concat3("Student '", student_ref, "' is not pending detect review.")));
        },
    };
    let rows = &review.pending_rows;
    let mut n: usize = review.trusted_crop_targets.len();
    let mut i: usize = 0;
    proof {
        assert(rows@.take(0) =~= Seq::<StudentWorkflowDetectReviewRow>::empty());
    }
    while i < rows.len()
        invariant
            i <= rows@.len(),
            n == capped_count(review.trusted_crop_targets@.len() + count_where(rows@.take(i as int), row_resolved())),
        decreases rows@.len() - i,
    {
        proof {
            lemma_count_step(rows@, row_resolved(), i as int);
        }
        if rows[i].resolved_region.is_some() && n < usize::MAX {
            n = n + 1;
        }
        i += 1;
    }
    proof {
        assert(rows@.take(rows@.len() as int) =~= rows@);
    }
    Ok(n)
}


// ---------------------------------------------------------------------------
// Grading
// ---------------------------------------------------------------------------

/// The message of a submission that reached grading with nothing to grade.
pub open spec fn no_verified_answers_message() -> Seq<char> {
    "No verified answers were available for grading."@
}

/// Whether some answer needs manual grading.
pub open spec fn any_manual_answer(answers: Seq<StudentWorkflowAnswer>) -> bool {
    exists|j: int| 0 <= j < answers.len() && #[trigger] answers[j].manual_grading_required
}

fn has_manual_answer(answers: &Vec<StudentWorkflowAnswer>) -> (b: bool)
    ensures
        b == any_manual_answer(answers@),
{
    let mut i: usize = 0;
    while i < answers.len()
        invariant
            i <= answers@.len(),
            forall|j: int| 0 <= j < i ==> !(#[trigger] answers@[j]).manual_grading_required,
        decreases answers@.len() - i,
    {
        if answers[i].manual_grading_required {
            return true;
        }
        i += 1;
    }
    false
}

/// What happened in the grading of one submission.
#[derive(Debug)]
pub enum GradingStageEvent {
    /// Grading starts, with the score requests of the submission's verified
    /// answers.
    Begin(Vec<JsonValue>),
    /// The preliminary scores came back and were applied to the answers;
    /// carries the feedback requests of the graded rows.
    PreliminaryScored(Vec<JsonValue>),
    /// The feedback drafts came back and were applied; carries the markup
    /// requests of the graded rows.
    FeedbackDrafted(Vec<JsonValue>),
    /// The markup came back and was applied with the feedback.
    MarkupReturned,
    /// A grading stage failed.
    StageFailed(HostError),
}

/// The next step of grading one submission.
#[derive(Debug)]
pub enum GradingStageAction {
    /// The submission waits for manual grading.
    ManualGrading,
    /// The submission failed with this message.
    FailSubmission(String),
    /// Run preliminary scoring with this request.
    RunPreliminary(JsonValue),
    /// Draft feedback with this request.
    RunFeedback(JsonValue),
    /// Mark up the answers with this request.
    RunMarkup(JsonValue),
    /// Grading is done.
    Finish,
    /// The submission stopped.
    Stop,
}

/// The next step of grading `student_ref`'s submission after `event`, and
/// what it does to the submission. Grading starts in the `grading` stage with
/// no failure; without score requests the submission waits for manual
/// grading when an answer needs it and fails otherwise; with requests
/// preliminary scoring runs, then feedback, then markup; at the end the
/// submission is `graded`, or `manual_grading` when an answer needs it. A
/// failed stage stops the submission. A student without a submission is
/// refused and nothing changes.
pub fn next_grading_step(
    workflow_state: &mut StudentWorkflowState,
    student_ref: &str,
    llm_provider: &str,
    configured_max_workers: i64,
    llm_config: JsonValue,
    event: GradingStageEvent,
) -> (r: Result<GradingStageAction, HostError>)
    ensures
        !has_submission(old(workflow_state).submissions@, student_ref@) ==> (r matches Err(e) && e is Validation
            && e.msg() == missing_submission_message(student_ref@)) && *final(workflow_state) == *old(workflow_state),
        has_submission(old(workflow_state).submissions@, student_ref@) ==> r is Ok && ({
            let before = *old(workflow_state);
            let after = *final(workflow_state);
            let sub = before.submissions@[submission_index(before.submissions@, student_ref@)];
            let manual = any_manual_answer(sub.answers@);
            match event {
                GradingStageEvent::Begin(requests) => if requests@.len() == 0 {
                    if manual {
                        r == Ok::<GradingStageAction, HostError>(GradingStageAction::ManualGrading)
                            && controls_set(before, after, student_ref@, Some("manual_grading"@), Some(None), None)
                    } else {
                        (r matches Ok(GradingStageAction::FailSubmission(m)) && m@ == no_verified_answers_message())
                            && controls_set(
                            before,
                            after,
                            student_ref@,
                            Some("failed"@),
                            Some(Some(no_verified_answers_message())),
                            None,
                        )
                    }
                } else {
                    (r matches Ok(GradingStageAction::RunPreliminary(p)) && is_preliminary_grading_request(
                        p,
                        requests@,
                        configured_max_workers,
                        llm_provider@,
                        llm_config,
                    )) && controls_set(before, after, student_ref@, Some("grading"@), Some(None), None)
                },
                GradingStageEvent::PreliminaryScored(requests) => (r matches Ok(GradingStageAction::RunFeedback(p))
                    && is_grading_stage_request(p, "feedback_requests"@, requests@, llm_provider@, llm_config))
                    && after == before,
                GradingStageEvent::FeedbackDrafted(requests) => (r matches Ok(GradingStageAction::RunMarkup(p))
                    && is_grading_stage_request(p, "markup_requests"@, requests@, llm_provider@, llm_config))
                    && after == before,
                GradingStageEvent::MarkupReturned => r == Ok::<GradingStageAction, HostError>(
                    GradingStageAction::Finish,
                ) && controls_set(
                    before,
                    after,
                    student_ref@,
                    Some(if manual { "manual_grading"@ } else { "graded"@ }),
                    Some(None),
                    None,
                ),
                GradingStageEvent::StageFailed(e) => r == Ok::<GradingStageAction, HostError>(GradingStageAction::Stop)
                    && controls_set(before, after, student_ref@, Some("stopped"@), Some(Some(stopped_message(e))), None),
            }
        }),
{
    proof {
        reveal_strlit("No verified answers were available for grading.");
    }
    let k = find_submission(&workflow_state.submissions, student_ref);
    if k == workflow_state.submissions.len() {
        return Err(missing_submission_error(student_ref));
    }
    let manual = has_manual_answer(&workflow_state.submissions[k].answers);
    match event {
        GradingStageEvent::Begin(requests) => {
            if requests.len() == 0 {
                if manual {
                    set_controls(workflow_state, k, Some(owned("manual_grading")), Some(None), None);
                    Ok(GradingStageAction::ManualGrading)
                } else {
                    let message = owned("No verified answers were available for grading.");
                    set_controls(
                        workflow_state,
                        k,
                        Some(owned("failed")),
                        Some(Some(owned("No verified answers were available for grading."))),
                        None,
                    );
                    Ok(GradingStageAction::FailSubmission(message))
                }
            } else {
                set_controls(workflow_state, k, Some(owned("grading")), Some(None), None);
                Ok(
                    GradingStageAction::RunPreliminary(
                        preliminary_grading_request_payload(requests, configured_max_workers, llm_provider, llm_config),
                    ),
                )
            }
        },
        GradingStageEvent::PreliminaryScored(requests) => Ok(
            GradingStageAction::RunFeedback(grading_stage_request("feedback_requests", requests, llm_provider, llm_config)),
        ),
        GradingStageEvent::FeedbackDrafted(requests) => Ok(
            GradingStageAction::RunMarkup(grading_stage_request("markup_requests", requests, llm_provider, llm_config)),
        ),
        GradingStageEvent::MarkupReturned => {
            let stage = if manual { owned("manual_grading") } else { owned("graded") };
            set_controls(workflow_state, k, Some(stage), Some(None), None);
            Ok(GradingStageAction::Finish)
        },
        GradingStageEvent::StageFailed(e) => {
            let message = stopped_message_for_error(&e);
            set_controls(workflow_state, k, Some(owned("stopped")), Some(Some(message)), None);
            Ok(GradingStageAction::Stop)
        },
    }
}


/// The number of score requests built for `student_ref` (those of its first
/// entry; none without one).
pub open spec fn request_count(requests: Seq<(String, usize)>, student_ref: Seq<char>) -> nat {
    let i = first_index(requests, |e: (String, usize)| e.0@ == student_ref);
    if i < requests.len() {
        requests[i].1 as nat
    } else {
        0
    }
}

/// `after` is the submission `before` once a grading batch took it up with
/// `count` score requests: with requests it is `grading`; without, it waits
/// for manual grading when an answer needs it and fails otherwise.
pub open spec fn grading_taken_up(before: StudentWorkflowSubmission, after: StudentWorkflowSubmission, count: nat) -> bool {
    &&& same_work(before, after)
    &&& after.latest_job_id == before.latest_job_id
    &&& if count > 0 {
        after.stage@ == "grading"@ && after.failure_message is None
    } else if any_manual_answer(before.answers@) {
        after.stage@ == "manual_grading"@ && after.failure_message is None
    } else {
        after.stage@ == "failed"@ && crate::text::opt_text(after.failure_message) == Some(no_verified_answers_message())
    }
}

/// Whether `student_ref` has score requests.
pub open spec fn has_requests(requests: Seq<(String, usize)>) -> spec_fn(Seq<char>) -> bool {
    |r: Seq<char>| request_count(requests, r) > 0
}

fn request_count_of(requests: &Vec<(String, usize)>, student_ref: &str) -> (n: usize)
    ensures
        n == request_count(requests@, student_ref@),
{
    let ghost p = |e: (String, usize)| e.0@ == student_ref@;
    let mut i: usize = 0;
    while i < requests.len()
        invariant
            i <= requests@.len(),
            p == (|e: (String, usize)| e.0@ == student_ref@),
            forall|k: int| 0 <= k < i ==> !p(#[trigger] requests@[k]),
        decreases requests@.len() - i,
    {
        if text_eq(requests[i].0.as_str(), student_ref) {
            proof {
                lemma_first_index_is(requests@, p, i as int);
            }
            return requests[i].1;
        }
        i += 1;
    }
    proof {
        lemma_first_index_is(requests@, p, i as int);
    }
    0
}

pub(crate) proof fn lemma_same_refs_same_index(a: Seq<StudentWorkflowSubmission>, b: Seq<StudentWorkflowSubmission>, r: Seq<char>)
    requires
        a.len() == b.len(),
        forall|k: int| 0 <= k < a.len() ==> (#[trigger] a[k]).student_ref == b[k].student_ref,
    ensures
        submission_index(a, r) == submission_index(b, r),
{
    let pa = crate::moderation::submission_has_ref(r);
    crate::seqs::lemma_first_index_props(a, pa);
    let i = submission_index(a, r);
    assert forall|k: int| 0 <= k < i implies !pa(#[trigger] b[k]) by {
        assert(a[k].student_ref == b[k].student_ref);
    }
    if i < a.len() {
        assert(a[i].student_ref == b[i].student_ref);
    }
    lemma_first_index_is(b, pa, i);
}

/// Takes up a batch of submissions for grading, from the number of score
/// requests built for each student: every student of the batch is taken up
/// (see `grading_taken_up`), and the students with requests are returned in
/// batch order. A student without a submission is refused, the first one
/// in order, and nothing changes.
pub fn plan_grading_batch(
    workflow_state: &mut StudentWorkflowState,
    refs: &Vec<String>,
    requests: &Vec<(String, usize)>,
) -> (r: Result<Vec<String>, HostError>)
    ensures
        ({
            let before = *old(workflow_state);
            let after = *final(workflow_state);
            let subs = before.submissions@;
            let m = first_index(texts(refs@), |x: Seq<char>| !has_submission(subs, x));
            &&& m < refs@.len() ==> (r matches Err(e) && e is Validation && e.msg() == missing_submission_message(
                refs@[m]@,
            )) && after == before
            &&& r is Ok <==> m == refs@.len()
            &&& r matches Ok(ready) ==> {
                &&& texts(ready@) == keep(texts(refs@), has_requests(requests@))
                &&& after.status == before.status && after.latest_job_id == before.latest_job_id
                &&& after.submissions@.len() == subs.len()
                &&& forall|k: int|
                    0 <= k < subs.len() ==> if texts(refs@).contains(subs[k].student_ref@) && submission_index(
                        subs,
                        (#[trigger] subs[k]).student_ref@,
                    ) == k {
                        grading_taken_up(subs[k], after.submissions@[k], request_count(requests@, subs[k].student_ref@))
                    } else {
                        after.submissions@[k] == subs[k]
                    }
            }
        }),
{
    let ghost subs = workflow_state.submissions@;
    let ghost missing = |x: Seq<char>| !has_submission(subs, x);
    let mut c: usize = 0;
    while c < refs.len()
        invariant
            c <= refs@.len(),
            subs == workflow_state.submissions@,
            *workflow_state == *old(workflow_state),
            missing == (|x: Seq<char>| !has_submission(subs, x)),
            forall|w: int| 0 <= w < c ==> !missing(#[trigger] texts(refs@)[w]),
        decreases refs@.len() - c,
    {
        let k = find_submission(&workflow_state.submissions, refs[c].as_str());
        if k == workflow_state.submissions.len() {
            proof {
                assert(texts(refs@)[c as int] == refs@[c as int]@);
                lemma_first_index_is(texts(refs@), missing, c as int);
            }
            return Err(missing_submission_error(refs[c].as_str()));
        }
        c += 1;
    }
    proof {
        lemma_first_index_is(texts(refs@), missing, refs@.len() as int);
    }
    let ghost hr = has_requests(requests@);
    let mut ready: Vec<String> = Vec::new();
    let mut i: usize = 0;
    proof {
        assert(texts(refs@).take(0) =~= Seq::<Seq<char>>::empty());
        assert(texts(ready@) =~= Seq::<Seq<char>>::empty());
    }
    while i < refs.len()
        invariant
            i <= refs@.len(),
            forall|w: int| 0 <= w < refs@.len() ==> !missing(#[trigger] texts(refs@)[w]),
            missing == (|x: Seq<char>| !has_submission(subs, x)),
            subs == old(workflow_state).submissions@,
            hr == has_requests(requests@),
            texts(ready@) == keep(texts(refs@).take(i as int), hr),
            workflow_state.status == old(workflow_state).status,
            workflow_state.latest_job_id == old(workflow_state).latest_job_id,
            workflow_state.submissions@.len() == subs.len(),
            forall|k: int| 0 <= k < subs.len() ==> (#[trigger] workflow_state.submissions@[k]).student_ref == subs[k].student_ref,
            forall|k: int|
                0 <= k < subs.len() ==> if texts(refs@).take(i as int).contains(subs[k].student_ref@)
                    && submission_index(subs, (#[trigger] subs[k]).student_ref@) == k {
                    grading_taken_up(subs[k], workflow_state.submissions@[k], request_count(requests@, subs[k].student_ref@))
                } else {
                    workflow_state.submissions@[k] == subs[k]
                },
        decreases refs@.len() - i,
    {
        let ghost cur = *workflow_state;
        let student_ref = refs[i].as_str();
        let k = find_submission(&workflow_state.submissions, student_ref);
        proof {
            lemma_same_refs_same_index(cur.submissions@, subs, student_ref@);
            assert(texts(refs@)[i as int] == student_ref@);
            assert(!missing(texts(refs@)[i as int]));
        }
        let n = request_count_of(requests, student_ref);
        let manual = has_manual_answer(&workflow_state.submissions[k].answers);
        proof {
            if workflow_state.submissions@[k as int] != subs[k as int] {
                assert(same_work(subs[k as int], workflow_state.submissions@[k as int]));
            }
            assert(workflow_state.submissions@[k as int].answers == subs[k as int].answers);
        }
        if n > 0 {
            set_controls(workflow_state, k, Some(owned("grading")), Some(None), None);
            ready.push(refs[i].clone());
        } else if manual {
            set_controls(workflow_state, k, Some(owned("manual_grading")), Some(None), None);
        } else {
            set_controls(
                workflow_state,
                k,
                Some(owned("failed")),
                Some(Some(owned("No verified answers were available for grading."))),
                None,
            );
        }
        proof {
            reveal_strlit("No verified answers were available for grading.");
            let t = texts(refs@);
            lemma_keep_step(t, hr, i as int);
            assert(t.take(i + 1) =~= t.take(i as int).push(student_ref@));
            assert(texts(ready@) =~= keep(t.take(i + 1), hr));
            assert forall|kk: int| 0 <= kk < subs.len() implies if t.take(i + 1).contains(subs[kk].student_ref@)
                && submission_index(subs, (#[trigger] subs[kk]).student_ref@) == kk {
                grading_taken_up(subs[kk], workflow_state.submissions@[kk], request_count(requests@, subs[kk].student_ref@))
            } else {
                workflow_state.submissions@[kk] == subs[kk]
            } by {
                if kk == k {
                    assert(t.take(i + 1)[i as int] == subs[kk].student_ref@);
                } else {
                    assert(workflow_state.submissions@[kk] == cur.submissions@[kk]);
                    let t1 = t.take(i + 1);
                    let t0 = t.take(i as int);
                    let x = subs[kk].student_ref@;
                    if t1.contains(x) && !t0.contains(x) {
                        let w = choose|w: int| 0 <= w < t1.len() && t1[w] == x;
                        if w < i {
                            assert(t0[w] == x);
                        }
                        assert(x == student_ref@);
                    }
                    if t0.contains(x) {
                        let w = choose|w: int| 0 <= w < t0.len() && t0[w] == x;
                        assert(t1[w] == x);
                    }
                }
            }
        }
        i += 1;
    }
    proof {
        assert(texts(refs@).take(refs@.len() as int) =~= texts(refs@));
    }
    Ok(ready)
}


/// What happened in a stage of a grading batch.
#[derive(Debug)]
pub enum GradingBatchEvent {
    /// The batch was taken up (see `plan_grading_batch`), with the score
    /// requests of all its students.
    Planned(Vec<JsonValue>),
    /// Preliminary scoring returned `scores` rows, applied to the answers;
    /// carries the feedback requests of the graded rows.
    PreliminaryScored { scores: usize, feedback_requests: Vec<JsonValue> },
    /// Feedback drafting returned `drafts` rows, applied; carries the markup
    /// requests of the graded rows.
    FeedbackDrafted { drafts: usize, markup_requests: Vec<JsonValue> },
    /// Markup returned `highlights` rows.
    MarkupReturned { highlights: usize },
}

/// The next stage of a grading batch: a batch with no score request at all
/// stops (its students were settled when it was taken up), so does a stage
/// that returned no row; otherwise preliminary scoring, feedback and markup
/// run in turn, and after markup the batch finishes (each student then
/// finishes as `next_grading_step` does on `MarkupReturned`).
pub fn next_grading_batch_stage(
    llm_provider: &str,
    configured_max_workers: i64,
    llm_config: JsonValue,
    event: GradingBatchEvent,
) -> (a: GradingStageAction)
    ensures
        match event {
            GradingBatchEvent::Planned(requests) => if requests@.len() == 0 {
                a is Stop
            } else {
                a matches GradingStageAction::RunPreliminary(p) && is_preliminary_grading_request(
                    p,
                    requests@,
                    configured_max_workers,
                    llm_provider@,
                    llm_config,
                )
            },
            GradingBatchEvent::PreliminaryScored { scores, feedback_requests } => if scores == 0 {
                a is Stop
            } else {
                a matches GradingStageAction::RunFeedback(p) && is_grading_stage_request(
                    p,
                    "feedback_requests"@,
                    feedback_requests@,
                    llm_provider@,
                    llm_config,
                )
            },
            GradingBatchEvent::FeedbackDrafted { drafts, markup_requests } => if drafts == 0 {
                a is Stop
            } else {
                a matches GradingStageAction::RunMarkup(p) && is_grading_stage_request(
                    p,
                    "markup_requests"@,
                    markup_requests@,
                    llm_provider@,
                    llm_config,
                )
            },
            GradingBatchEvent::MarkupReturned { highlights } => if highlights == 0 {
                a is Stop
            } else {
                a is Finish
            },
        },
{
    match event {
        GradingBatchEvent::Planned(requests) => if requests.len() == 0 {
            GradingStageAction::Stop
        } else {
            GradingStageAction::RunPreliminary(
                preliminary_grading_request_payload(requests, configured_max_workers, llm_provider, llm_config),
            )
        },
        GradingBatchEvent::PreliminaryScored { scores, feedback_requests } => if scores == 0 {
            GradingStageAction::Stop
        } else {
            GradingStageAction::RunFeedback(
                grading_stage_request("feedback_requests", feedback_requests, llm_provider, llm_config),
            )
        },
        GradingBatchEvent::FeedbackDrafted { drafts, markup_requests } => if drafts == 0 {
            GradingStageAction::Stop
        } else {
            GradingStageAction::RunMarkup(grading_stage_request("markup_requests", markup_requests, llm_provider, llm_config))
        },
        GradingBatchEvent::MarkupReturned { highlights } => if highlights == 0 {
            GradingStageAction::Stop
        } else {
            GradingStageAction::Finish
        },
    }
}


// ---------------------------------------------------------------------------
// PII screening of one submission
// ---------------------------------------------------------------------------

/// `after` is the submission `before` with `answers` in place of its answers,
/// and the given stage, failure message and latest job.
pub open spec fn answers_replaced(
    before: StudentWorkflowSubmission,
    after: StudentWorkflowSubmission,
    answers: Seq<StudentWorkflowAnswer>,
    stage: Seq<char>,
    failure: Option<Seq<char>>,
    job: Option<Seq<char>>,
) -> bool {
    &&& same_except_answers(before, after)
    &&& after.answers@ == answers
    &&& after.stage@ == stage
    &&& crate::text::opt_text(after.failure_message) == failure
    &&& crate::text::opt_text(after.latest_job_id) == job
}

pub(crate) fn replace_answers(
    workflow_state: &mut StudentWorkflowState,
    k: usize,
    answers: Vec<StudentWorkflowAnswer>,
    stage: String,
    failure: Option<String>,
    job: Option<String>,
)
    requires
        k < old(workflow_state).submissions@.len(),
    ensures
        only_submission_changed(*old(workflow_state), *final(workflow_state), k as int),
        answers_replaced(
            old(workflow_state).submissions@[k as int],
            final(workflow_state).submissions@[k as int],
            answers@,
            stage@,
            crate::text::opt_text(failure),
            crate::text::opt_text(job),
        ),
{
    let ghost before = *workflow_state;
    let mut sub = workflow_state.submissions.remove(k);
    sub.answers = answers;
    sub.stage = stage;
    sub.failure_message = failure;
    sub.latest_job_id = job;
    workflow_state.submissions.insert(k, sub);
    proof {
        assert(workflow_state.submissions@ =~= before.submissions@.update(k as int, sub));
    }
}

/// Whether every answer needs manual grading (so does an empty list).
pub open spec fn all_manual_answers(answers: Seq<StudentWorkflowAnswer>) -> bool {
    forall|j: int| 0 <= j < answers.len() ==> #[trigger] answers[j].manual_grading_required
}

/// Moves `student_ref`'s submission into PII screening and says whether
/// screening is blocked: no crop row came out clean, or there is no word
/// that identifies the student. A student without a submission is refused.
pub fn begin_pii_stage(
    workflow_state: &mut StudentWorkflowState,
    student_ref: &str,
    crop_rows: &Vec<JsonValue>,
    pii_trigger_words: Option<&Vec<String>>,
) -> (r: Result<bool, HostError>)
    ensures
        has_submission(old(workflow_state).submissions@, student_ref@) <==> r is Ok,
        r matches Err(e) ==> e is Validation && e.msg() == missing_submission_message(student_ref@)
            && *final(workflow_state) == *old(workflow_state),
        r is Ok ==> controls_set(*old(workflow_state), *final(workflow_state), student_ref@, Some("pii"@), None, None),
        r matches Ok(blocked) ==> blocked == (count_where(
            crop_rows@,
            |row: JsonValue| crate::stage_payloads::clean_crop_row(row),
        ) == 0 || match pii_trigger_words {
            Some(words) => words@.len() == 0,
            None => true,
        }),
{
    let r = set_submission_stage(workflow_state, student_ref, "pii");
    match r {
        Err(e) => Err(e),
        Ok(()) => Ok(crate::stage_payloads::should_manual_block_pii_stage(crop_rows, pii_trigger_words)),
    }
}

/// A blocked screening sends the submission to manual grading with the
/// answers built for that case (each carrying the warning that the
/// student's identity was unavailable), no failure and no latest job.
pub fn apply_manual_pii_block(
    workflow_state: &mut StudentWorkflowState,
    student_ref: &str,
    answers: Vec<StudentWorkflowAnswer>,
) -> (r: Result<(), HostError>)
    ensures
        has_submission(old(workflow_state).submissions@, student_ref@) <==> r is Ok,
        r matches Err(e) ==> e is Validation && e.msg() == missing_submission_message(student_ref@)
            && *final(workflow_state) == *old(workflow_state),
        r is Ok ==> ({
            let k = submission_index(old(workflow_state).submissions@, student_ref@);
            &&& only_submission_changed(*old(workflow_state), *final(workflow_state), k)
            &&& answers_replaced(
                old(workflow_state).submissions@[k],
                final(workflow_state).submissions@[k],
                answers@,
                "manual_grading"@,
                None,
                None,
            )
        }),
{
    let k = find_submission(&workflow_state.submissions, student_ref);
    if k == workflow_state.submissions.len() {
        return Err(missing_submission_error(student_ref));
    }
    replace_answers(workflow_state, k, answers, owned("manual_grading"), None, None);
    Ok(())
}

/// Records the answers PII screening produced under job `job_id`: when
/// every answer needs manual grading the submission waits for it (no
/// failure) and screening ends there; otherwise the submission goes on to
/// parsing.
pub fn apply_pii_screening(
    workflow_state: &mut StudentWorkflowState,
    student_ref: &str,
    job_id: &str,
    answers: Vec<StudentWorkflowAnswer>,
) -> (r: Result<PiiStageOutcome, HostError>)
    ensures
        has_submission(old(workflow_state).submissions@, student_ref@) <==> r is Ok,
        r matches Err(e) ==> e is Validation && e.msg() == missing_submission_message(student_ref@)
            && *final(workflow_state) == *old(workflow_state),
        r is Ok ==> ({
            let k = submission_index(old(workflow_state).submissions@, student_ref@);
            let before = old(workflow_state).submissions@[k];
            let manual = all_manual_answers(answers@);
            &&& only_submission_changed(*old(workflow_state), *final(workflow_state), k)
            &&& answers_replaced(
                before,
                final(workflow_state).submissions@[k],
                answers@,
                if manual { "manual_grading"@ } else { before.stage@ },
                if manual { None } else { crate::text::opt_text(before.failure_message) },
                Some(job_id@),
            )
            &&& r == Ok::<PiiStageOutcome, HostError>(
                if manual { PiiStageOutcome::ManualOnly } else { PiiStageOutcome::Continue },
            )
        }),
{
    let k = find_submission(&workflow_state.submissions, student_ref);
    if k == workflow_state.submissions.len() {
        return Err(missing_submission_error(student_ref));
    }
    let mut all_manual = true;
    let mut i: usize = 0;
    while i < answers.len()
        invariant
            i <= answers@.len(),
            all_manual == (forall|j: int| 0 <= j < i ==> #[trigger] answers@[j].manual_grading_required),
        decreases answers@.len() - i,
    {
        if !answers[i].manual_grading_required {
            all_manual = false;
        }
        i += 1;
    }
    let stage = if all_manual { owned("manual_grading") } else { workflow_state.submissions[k].stage.clone() };
    let failure = if all_manual { None } else { crate::text::clone_opt_text(&workflow_state.submissions[k].failure_message) };
    replace_answers(workflow_state, k, answers, stage, failure, Some(owned(job_id)));
    if all_manual {
        Ok(PiiStageOutcome::ManualOnly)
    } else {
        Ok(PiiStageOutcome::Continue)
    }
}

} // verus!
