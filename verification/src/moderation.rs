//! Instructor moderation: criterion scores, moderated totals and feedback,
//! and per-question review marks.
use vstd::prelude::*;
use crate::errors::HostError;
use crate::messages::{concat3, concat5, validation, validation_text, with_number, with_two_numbers};
use crate::models::{
    ExamWorkspaceState, ModerationFeedbackOverride, ModerationQuestionReview, ModerationScoreOverride,
    ModerationState, QuestionRecord, RubricCriterion, StudentWorkflowAnswer,
    StudentWorkflowCriterionResult, StudentWorkflowState, StudentWorkflowSubmission,
};
use crate::seqs::{
    first_index, lemma_first_index_is, lemma_first_index_props, lemma_sum_of_abs_bound,
    lemma_sum_of_append, lemma_sum_of_insert, lemma_sum_of_prefix_le, lemma_sum_of_take_step,
    lemma_sum_of_update, sum_of, keep, retain_where, count_where,
};
use crate::text::{int_decimal, nat_decimal, owned, push_count, push_i64, push_text, text_eq, trim, trimmed};

verus! {

/// A score for one rubric criterion of one answer.
#[derive(Debug)]
pub struct SaveCriterionScoreInput {
    pub student_ref: String,
    pub question_id: String,
    pub criterion_index: i64,
    pub points_awarded: i64,
}

/// A moderated total for one answer.
#[derive(Debug)]
pub struct SaveModeratedScoreInput {
    pub student_ref: String,
    pub question_id: String,
    pub moderated_total_points: i64,
}

/// Moderated feedback for one answer.
#[derive(Debug)]
pub struct SaveModeratedFeedbackInput {
    pub student_ref: String,
    pub question_id: String,
    pub feedback_text: String,
}

/// Marks a question as reviewed, or clears the mark.
#[derive(Debug)]
pub struct SetModerationQuestionReviewedInput {
    pub question_id: String,
    pub reviewed: bool,
}

// ---------------------------------------------------------------------------
// Lookups
// ---------------------------------------------------------------------------

pub open spec fn question_has_id(id: Seq<char>) -> spec_fn(QuestionRecord) -> bool {
    |q: QuestionRecord| q.question_id@ == id
}

/// Index of the first question with `id` (or the number of questions).
pub open spec fn question_index(questions: Seq<QuestionRecord>, id: Seq<char>) -> int {
    first_index(questions, question_has_id(id))
}

pub open spec fn submission_has_ref(student_ref: Seq<char>) -> spec_fn(StudentWorkflowSubmission) -> bool {
    |s: StudentWorkflowSubmission| s.student_ref@ == student_ref
}

/// Index of the first submission of `student_ref` (or the number of submissions).
pub open spec fn submission_index(submissions: Seq<StudentWorkflowSubmission>, student_ref: Seq<char>) -> int {
    first_index(submissions, submission_has_ref(student_ref))
}

pub open spec fn answer_has_question(id: Seq<char>) -> spec_fn(StudentWorkflowAnswer) -> bool {
    |a: StudentWorkflowAnswer| a.question_id@ == id
}

/// Index of the first answer to question `id` (or the number of answers).
pub open spec fn answer_index(answers: Seq<StudentWorkflowAnswer>, id: Seq<char>) -> int {
    first_index(answers, answer_has_question(id))
}

/// Position of the first question with `id`, or the number of questions.
pub fn find_question(questions: &Vec<QuestionRecord>, id: &str) -> (r: usize)
    ensures
        r == question_index(questions@, id@),
        r <= questions@.len(),
        r < questions@.len() ==> questions@[r as int].question_id@ == id@,
        forall|k: int| 0 <= k < r ==> questions@[k].question_id@ != id@,
{
    let mut i: usize = 0;
    while i < questions.len()
        invariant
            i <= questions@.len(),
            forall|k: int| 0 <= k < i ==> !question_has_id(id@)(#[trigger] questions@[k]),
        decreases questions@.len() - i,
    {
        if text_eq(questions[i].question_id.as_str(), id) {
            proof {
                lemma_first_index_is(questions@, question_has_id(id@), i as int);
            }
            return i;
        }
        i += 1;
    }
    proof {
        lemma_first_index_is(questions@, question_has_id(id@), i as int);
    }
    i
}

/// Position of the first submission of `student_ref`, or the number of submissions.
pub fn find_submission(submissions: &Vec<StudentWorkflowSubmission>, student_ref: &str) -> (r: usize)
    ensures
        r == submission_index(submissions@, student_ref@),
        r <= submissions@.len(),
        r < submissions@.len() ==> submissions@[r as int].student_ref@ == student_ref@,
        forall|k: int| 0 <= k < r ==> submissions@[k].student_ref@ != student_ref@,
{
    let mut i: usize = 0;
    while i < submissions.len()
        invariant
            i <= submissions@.len(),
            forall|k: int|
                0 <= k < i ==> !submission_has_ref(student_ref@)(#[trigger] submissions@[k]),
        decreases submissions@.len() - i,
    {
        if text_eq(submissions[i].student_ref.as_str(), student_ref) {
            proof {
                lemma_first_index_is(submissions@, submission_has_ref(student_ref@), i as int);
            }
            return i;
        }
        i += 1;
    }
    proof {
        lemma_first_index_is(submissions@, submission_has_ref(student_ref@), i as int);
    }
    i
}

/// Position of the first answer to question `id`, or the number of answers.
pub fn find_answer(answers: &Vec<StudentWorkflowAnswer>, id: &str) -> (r: usize)
    ensures
        r == answer_index(answers@, id@),
        r <= answers@.len(),
        r < answers@.len() ==> answers@[r as int].question_id@ == id@,
        forall|k: int| 0 <= k < r ==> answers@[k].question_id@ != id@,
{
    let mut i: usize = 0;
    while i < answers.len()
        invariant
            i <= answers@.len(),
            forall|k: int| 0 <= k < i ==> !answer_has_question(id@)(#[trigger] answers@[k]),
        decreases answers@.len() - i,
    {
        if text_eq(answers[i].question_id.as_str(), id) {
            proof {
                lemma_first_index_is(answers@, answer_has_question(id@), i as int);
            }
            return i;
        }
        i += 1;
    }
    proof {
        lemma_first_index_is(answers@, answer_has_question(id@), i as int);
    }
    i
}

// ---------------------------------------------------------------------------
// Criterion scores
// ---------------------------------------------------------------------------

/// The rubric criterion that a criterion score targets, when it exists.
pub open spec fn targeted_criterion(
    questions: Seq<QuestionRecord>,
    input: SaveCriterionScoreInput,
) -> Option<RubricCriterion> {
    let qi = question_index(questions, input.question_id@);
    if qi < questions.len() && 0 <= input.criterion_index < questions[qi].rubric.criteria@.len() {
        Some(questions[qi].rubric.criteria@[input.criterion_index as int])
    } else {
        None
    }
}

/// Whether a criterion score passes the rubric checks.
pub open spec fn criterion_score_valid(
    questions: Seq<QuestionRecord>,
    input: SaveCriterionScoreInput,
) -> bool {
    &&& input.points_awarded >= 0
    &&& targeted_criterion(questions, input) is Some
    &&& input.points_awarded <= targeted_criterion(questions, input)->0.points
}

/// The message a criterion score that fails the rubric checks is refused
/// with: negative points, an unknown question, a criterion index out of
/// range, or points above the criterion's maximum, checked in that order.
pub open spec fn rubric_check_message(questions: Seq<QuestionRecord>, input: SaveCriterionScoreInput) -> Seq<char> {
    let qi = question_index(questions, input.question_id@);
    let c = targeted_criterion(questions, input);
    if input.points_awarded < 0 {
        "Points awarded cannot be negative."@
    } else if qi == questions.len() {
        "Question '"@ + input.question_id@ + "' was not found."@
    } else if c is None {
        "Criterion index "@ + int_decimal(input.criterion_index as int) + " is out of range for question '"@
            + input.question_id@ + "' ("@ + nat_decimal(questions[qi].rubric.criteria@.len()) + " criteria)."@
    } else {
        "Points awarded ("@ + int_decimal(input.points_awarded as int) + ") cannot exceed criterion max points ("@
            + int_decimal(c->0.points as int) + ")."@
    }
}

/// The message a valid criterion score is refused with when it cannot be
/// applied to the workflow: no submission of the student, no answer of it
/// to the question, or no criterion result with the index in that answer.
pub open spec fn score_apply_message(
    questions: Seq<QuestionRecord>,
    workflow: StudentWorkflowState,
    input: SaveCriterionScoreInput,
) -> Seq<char> {
    let si = submission_index(workflow.submissions@, input.student_ref@);
    let found = scored_answer(workflow, input.student_ref@, input.question_id@);
    if si == workflow.submissions@.len() {
        "Student '"@ + input.student_ref@ + "' was not found in the workflow."@
    } else if found is None {
        "Question '"@ + input.question_id@ + "' was not found for student '"@ + input.student_ref@ + "'."@
    } else {
        let qi = question_index(questions, input.question_id@);
        let (si2, ai) = found->0;
        let sorted = sort_by_index(
            seeded_criteria(
                criterion_views(workflow.submissions@[si2].answers@[ai].criterion_results@),
                questions[qi].rubric.criteria@,
            ),
        );
        "Criterion index "@ + int_decimal(input.criterion_index as int) + " was not found in this answer ("@
            + nat_decimal(sorted.len()) + " criterion results)."@
    }
}

/// Checks a criterion score against the rubric: the points are not negative,
/// the question and the criterion exist, and the points do not exceed the
/// criterion's maximum. Each failure is a validation error with its message.
pub fn validate_points_against_rubric(
    workspace: &ExamWorkspaceState,
    input: &SaveCriterionScoreInput,
) -> (r: Result<(), HostError>)
    ensures
        r is Ok <==> criterion_score_valid(workspace.questions@, *input),
        r matches Err(e) ==> e is Validation && e.msg() == rubric_check_message(workspace.questions@, *input),
        input.points_awarded < 0 ==> (r matches Err(e) && e.msg()
            == "Points awarded cannot be negative."@),
        ({
            let qi = question_index(workspace.questions@, input.question_id@);
            input.points_awarded >= 0 && qi == workspace.questions@.len() ==> (r matches Err(e)
                && e.msg() == "Question '"@ + input.question_id@ + "' was not found."@)
        }),
        ({
            let qi = question_index(workspace.questions@, input.question_id@);
            input.points_awarded >= 0 && qi < workspace.questions@.len() && targeted_criterion(
                workspace.questions@,
                *input,
            ) is None ==> (r matches Err(e) && e.msg() == "Criterion index "@ + int_decimal(
                input.criterion_index as int,
            ) + " is out of range for question '"@ + input.question_id@ + "' ("@ + nat_decimal(
                workspace.questions@[qi].rubric.criteria@.len(),
            ) + " criteria)."@)
        }),
        ({
            let c = targeted_criterion(workspace.questions@, *input);
            input.points_awarded >= 0 && c is Some && input.points_awarded > c->0.points ==> (r matches Err(
                e,
            ) && e.msg() == "Points awarded ("@ + int_decimal(input.points_awarded as int)
                + ") cannot exceed criterion max points ("@ + int_decimal(c->0.points as int)
                + ")."@)
        }),
{
    if input.points_awarded < 0 {
        return Err(validation_text("Points awarded cannot be negative."));
    }
    let qi = find_question(&workspace.questions, input.question_id.as_str());
    if qi == workspace.questions.len() {
        return Err(
            validation(concat3("Question '", input.question_id.as_str(), "' was not found.")),
        );
    }
    let rubric = &workspace.questions[qi].rubric;
    if input.criterion_index < 0 || (input.criterion_index as u64) >= (
    rubric.criteria.len() as u64) {
        let mut message = with_number(
            "Criterion index ",
            input.criterion_index,
            " is out of range for question '",
        );
        push_text(&mut message, input.question_id.as_str());
        push_text(&mut message, "' (");
        push_count(&mut message, rubric.criteria.len());
        push_text(&mut message, " criteria).");
        return Err(validation(message));
    }
    let criterion = &rubric.criteria[input.criterion_index as usize];
    if input.points_awarded > criterion.points {
        let message = with_two_numbers(
            "Points awarded (",
            input.points_awarded,
            ") cannot exceed criterion max points (",
            criterion.points,
            ").",
        );
        return Err(validation(message));
    }
    Ok(())
}


// ---------------------------------------------------------------------------
// Seeding, ordering and scoring criterion results
// ---------------------------------------------------------------------------

/// A criterion result as plain values: index, label, points, points awarded, rationale.
pub type CriterionView = (i64, Seq<char>, i64, i64, Seq<char>);

pub open spec fn criterion_view(r: StudentWorkflowCriterionResult) -> CriterionView {
    (r.criterion_index, r.label@, r.points, r.points_awarded, r.rationale@)
}

pub open spec fn criterion_views(s: Seq<StudentWorkflowCriterionResult>) -> Seq<CriterionView> {
    s.map_values(|r: StudentWorkflowCriterionResult| criterion_view(r))
}

/// Whether some result in `v` has criterion index `k`.
pub open spec fn has_criterion_index(v: Seq<CriterionView>, k: int) -> bool {
    exists|i: int| 0 <= i < v.len() && #[trigger] v[i].0 == k
}

/// Zero-point results for the first `n` rubric criteria that `existing` lacks,
/// in criterion order.
pub open spec fn seed_rows(existing: Seq<CriterionView>, criteria: Seq<RubricCriterion>, n: nat) -> Seq<
    CriterionView,
>
    decreases n,
{
    if n == 0 {
        Seq::empty()
    } else {
        let prev = seed_rows(existing, criteria, (n - 1) as nat);
        let k = n - 1;
        if k > i64::MAX || has_criterion_index(existing, k) {
            prev
        } else {
            prev.push((k as i64, criteria[k].label@, criteria[k].points, 0i64, Seq::<char>::empty()))
        }
    }
}

/// The existing results followed by zero-point results for every rubric
/// criterion that has none.
pub open spec fn seeded_criteria(existing: Seq<CriterionView>, criteria: Seq<RubricCriterion>) -> Seq<
    CriterionView,
> {
    existing + seed_rows(existing, criteria, criteria.len())
}

pub open spec fn index_above(k: i64) -> spec_fn(CriterionView) -> bool {
    |y: CriterionView| y.0 > k
}

pub open spec fn index_is(k: i64) -> spec_fn(CriterionView) -> bool {
    |y: CriterionView| y.0 == k
}

/// `x` inserted after every element whose index is at most its own.
pub open spec fn insert_by_index(s: Seq<CriterionView>, x: CriterionView) -> Seq<CriterionView> {
    s.insert(first_index(s, index_above(x.0)), x)
}

/// The stable sort of `s` by criterion index.
pub open spec fn sort_by_index(s: Seq<CriterionView>) -> Seq<CriterionView>
    decreases s.len(),
{
    if s.len() == 0 {
        s
    } else {
        insert_by_index(sort_by_index(s.drop_last()), s.last())
    }
}

/// Whether `s` is ordered by criterion index.
pub open spec fn sorted_by_index(s: Seq<CriterionView>) -> bool {
    forall|i: int, j: int| 0 <= i <= j < s.len() ==> s[i].0 <= s[j].0
}

pub open spec fn awarded(v: CriterionView) -> int {
    v.3 as int
}

pub open spec fn awarded_abs(v: CriterionView) -> int {
    if v.3 < 0 {
        -(v.3 as int)
    } else {
        v.3 as int
    }
}

/// Sum of the points awarded over `s`.
pub open spec fn total_awarded(s: Seq<CriterionView>) -> int {
    sum_of(s, |v: CriterionView| awarded(v))
}

/// Sum of the magnitudes of the points awarded over `s`.
pub open spec fn total_awarded_abs(s: Seq<CriterionView>) -> int {
    sum_of(s, |v: CriterionView| awarded_abs(v))
}

pub open spec fn with_awarded(v: CriterionView, p: i64) -> CriterionView {
    (v.0, v.1, v.2, p, v.4)
}

/// The criterion results after a score of `points` for criterion `index`:
/// seeded, sorted, and the first result with that index re-scored.
pub open spec fn scored_criteria(
    existing: Seq<CriterionView>,
    criteria: Seq<RubricCriterion>,
    index: i64,
    points: i64,
) -> Seq<CriterionView> {
    let sorted = sort_by_index(seeded_criteria(existing, criteria));
    let j = first_index(sorted, index_is(index));
    sorted.update(j, with_awarded(sorted[j], points))
}

proof fn lemma_sort_sums(s: Seq<CriterionView>)
    ensures
        total_awarded(sort_by_index(s)) == total_awarded(s),
        total_awarded_abs(sort_by_index(s)) == total_awarded_abs(s),
        sort_by_index(s).len() == s.len(),
    decreases s.len(),
{
    if s.len() > 0 {
        let t = sort_by_index(s.drop_last());
        lemma_sort_sums(s.drop_last());
        let x = s.last();
        lemma_first_index_props(t, index_above(x.0));
        let pos = first_index(t, index_above(x.0));
        lemma_sum_of_insert(t, |v: CriterionView| awarded(v), pos, x);
        lemma_sum_of_insert(t, |v: CriterionView| awarded_abs(v), pos, x);
    }
}

proof fn lemma_sort_sorted(s: Seq<CriterionView>)
    ensures
        sorted_by_index(sort_by_index(s)),
    decreases s.len(),
{
    if s.len() > 0 {
        let t = sort_by_index(s.drop_last());
        lemma_sort_sorted(s.drop_last());
        let x = s.last();
        lemma_first_index_props(t, index_above(x.0));
        let pos = first_index(t, index_above(x.0));
        let r = t.insert(pos, x);
        assert forall|i: int, j: int| 0 <= i <= j < r.len() implies r[i].0 <= r[j].0 by {
            if i < pos && j < pos {
                assert(r[i] == t[i] && r[j] == t[j]);
            } else if i < pos && j == pos {
                assert(r[i] == t[i]);
                assert(!index_above(x.0)(t[i]));
            } else if i < pos {
                assert(r[i] == t[i] && r[j] == t[j - 1]);
            } else if i == pos && j == pos {
            } else if i == pos {
                assert(r[j] == t[j - 1]);
                assert(t[pos] .0 <= t[j - 1].0);
                assert(index_above(x.0)(t[pos]));
            } else {
                assert(r[i] == t[i - 1] && r[j] == t[j - 1]);
            }
        }
    }
}

proof fn lemma_seed_rows(existing: Seq<CriterionView>, criteria: Seq<RubricCriterion>, n: nat)
    requires
        n <= criteria.len(),
    ensures
        total_awarded(seed_rows(existing, criteria, n)) == 0,
        total_awarded_abs(seed_rows(existing, criteria, n)) == 0,
        forall|i: int|
            0 <= i < seed_rows(existing, criteria, n).len() ==> #[trigger] seed_rows(
                existing,
                criteria,
                n,
            )[i].0 < n,
    decreases n,
{
    if n > 0 {
        lemma_seed_rows(existing, criteria, (n - 1) as nat);
        let prev = seed_rows(existing, criteria, (n - 1) as nat);
        let k = n - 1;
        if !(k > i64::MAX || has_criterion_index(existing, k)) {
            let x = (k as i64, criteria[k].label@, criteria[k].points, 0i64, Seq::<char>::empty());
            assert(prev.push(x).drop_last() =~= prev);
        }
    }
}

/// Index of the first result in `v` whose criterion index is greater than `k`.
fn first_index_above(v: &Vec<StudentWorkflowCriterionResult>, k: i64) -> (r: usize)
    ensures
        r == first_index(criterion_views(v@), index_above(k)),
        r <= v@.len(),
{
    let ghost views = criterion_views(v@);
    let mut i: usize = 0;
    while i < v.len()
        invariant
            i <= v@.len(),
            views == criterion_views(v@),
            forall|q: int| 0 <= q < i ==> !index_above(k)(#[trigger] views[q]),
        decreases v@.len() - i,
    {
        if v[i].criterion_index > k {
            proof {
                lemma_first_index_is(views, index_above(k), i as int);
            }
            return i;
        }
        i += 1;
    }
    proof {
        lemma_first_index_is(views, index_above(k), i as int);
    }
    i
}

/// Index of the first result in `v` whose criterion index is `k`.
fn first_index_equal(v: &Vec<StudentWorkflowCriterionResult>, k: i64) -> (r: usize)
    ensures
        r == first_index(criterion_views(v@), index_is(k)),
        r <= v@.len(),
{
    let ghost views = criterion_views(v@);
    let mut i: usize = 0;
    while i < v.len()
        invariant
            i <= v@.len(),
            views == criterion_views(v@),
            forall|q: int| 0 <= q < i ==> !index_is(k)(#[trigger] views[q]),
        decreases v@.len() - i,
    {
        if v[i].criterion_index == k {
            proof {
                lemma_first_index_is(views, index_is(k), i as int);
            }
            return i;
        }
        i += 1;
    }
    proof {
        lemma_first_index_is(views, index_is(k), i as int);
    }
    i
}

/// Stable sort of criterion results by criterion index.
pub fn sort_criterion_results(items: Vec<StudentWorkflowCriterionResult>) -> (sorted: Vec<
    StudentWorkflowCriterionResult,
>)
    ensures
        criterion_views(sorted@) == sort_by_index(criterion_views(items@)),
        sorted_by_index(criterion_views(sorted@)),
{
    let ghost orig = criterion_views(items@);
    let mut pending = items;
    let mut sorted: Vec<StudentWorkflowCriterionResult> = Vec::new();
    let ghost mut i: int = 0;
    proof {
        assert(orig.take(0) =~= Seq::<CriterionView>::empty());
        assert(criterion_views(sorted@) =~= Seq::<CriterionView>::empty());
        assert(criterion_views(pending@) =~= orig.skip(0));
    }
    while pending.len() > 0
        invariant
            0 <= i <= orig.len(),
            criterion_views(sorted@) == sort_by_index(orig.take(i)),
            criterion_views(pending@) == orig.skip(i),
        decreases pending@.len(),
    {
        let ghost prev = pending@;
        proof {
            assert(criterion_views(prev).len() == prev.len());
            assert(orig.skip(i).len() == orig.len() - i);
        }
        let x = pending.remove(0);
        proof {
            assert(criterion_views(prev)[0] == criterion_view(prev[0]));
            assert(orig.skip(i)[0] == orig[i]);
            assert forall|q: int| 0 <= q < pending@.len() implies criterion_views(pending@)[q]
                == orig.skip(i + 1)[q] by {
                assert(pending@[q] == prev[q + 1]);
                assert(criterion_views(prev)[q + 1] == orig.skip(i)[q + 1]);
            }
            assert(criterion_views(pending@) =~= orig.skip(i + 1));
            assert(criterion_view(x) == orig[i]);
            assert(orig.take(i + 1).drop_last() =~= orig.take(i));
            assert(orig.take(i + 1).last() == orig[i]);
        }
        let pos = first_index_above(&sorted, x.criterion_index);
        let ghost before = sorted@;
        sorted.insert(pos, x);
        proof {
            assert(criterion_views(sorted@) =~= criterion_views(before).insert(
                pos as int,
                criterion_view(x),
            ));
            i = i + 1;
        }
    }
    proof {
        assert(orig.skip(i).len() == 0);
        assert(orig.take(i) =~= orig);
        lemma_sort_sorted(orig);
    }
    sorted
}

/// The answer fields that scoring a criterion leaves alone.
pub open spec fn same_answer_except_scores(a: StudentWorkflowAnswer, b: StudentWorkflowAnswer) -> bool {
    &&& a.question_id == b.question_id
    &&& a.question_number == b.question_number
    &&& a.crop_image_path == b.crop_image_path
    &&& a.manual_grading_required == b.manual_grading_required
    &&& a.manual_grading_reason == b.manual_grading_reason
    &&& a.moderation_eligible == b.moderation_eligible
    &&& a.parse_status == b.parse_status
    &&& a.parse_confidence == b.parse_confidence
    &&& a.parse_confidence_source == b.parse_confidence_source
    &&& a.raw_parsed_text == b.raw_parsed_text
    &&& a.verified_text == b.verified_text
    &&& a.review_required == b.review_required
    &&& a.verified == b.verified
    &&& a.stale == b.stale
    &&& a.grading_status == b.grading_status
    &&& a.grading_confidence == b.grading_confidence
    &&& a.grading_confidence_reason == b.grading_confidence_reason
    &&& a.question_max_points == b.question_max_points
    &&& a.feedback_text == b.feedback_text
    &&& a.highlights == b.highlights
    &&& a.warnings == b.warnings
}

/// Seeds missing rubric criteria into an answer, orders its results by
/// criterion index, then sets the points of criterion `index` and the total.
/// When no result has that index the error names it, and the answer keeps the
/// seeded, ordered results and its old total.
pub fn score_answer_criterion(
    criteria: &Vec<RubricCriterion>,
    answer: &mut StudentWorkflowAnswer,
    index: i64,
    points: i64,
) -> (r: Result<(), HostError>)
    requires
        total_awarded_abs(criterion_views(old(answer).criterion_results@)) + (if points < 0 {
            -(points as int)
        } else {
            points as int
        }) <= i64::MAX,
    ensures
        same_answer_except_scores(*final(answer), *old(answer)),
        ({
            let seeded = seeded_criteria(
                criterion_views(old(answer).criterion_results@),
                criteria@,
            );
            let sorted = sort_by_index(seeded);
            let j = first_index(sorted, index_is(index));
            &&& (r is Ok <==> j < sorted.len())
            &&& r is Ok ==> criterion_views(final(answer).criterion_results@) == scored_criteria(
                criterion_views(old(answer).criterion_results@),
                criteria@,
                index,
                points,
            ) && final(answer).total_points_awarded == Some(
                total_awarded(
                    scored_criteria(
                        criterion_views(old(answer).criterion_results@),
                        criteria@,
                        index,
                        points,
                    ),
                ) as i64,
            )
            &&& r is Err ==> criterion_views(final(answer).criterion_results@) == sorted
                && final(answer).total_points_awarded == old(answer).total_points_awarded
            &&& r matches Err(e) ==> e is Validation && e.msg() == "Criterion index "@
                + int_decimal(index as int) + " was not found in this answer ("@ + nat_decimal(
                sorted.len(),
            ) + " criterion results)."@
        }),
        sorted_by_index(criterion_views(final(answer).criterion_results@)),
{
    let ghost existing = criterion_views(old(answer).criterion_results@);
    let mut pending: Vec<StudentWorkflowCriterionResult> = Vec::new();
    std::mem::swap(&mut pending, &mut answer.criterion_results);
    let old_len = pending.len();
    let mut k: usize = 0;
    proof {
        assert(criterion_views(pending@) =~= existing + seed_rows(existing, criteria@, 0));
    }
    while k < criteria.len()
        invariant
            k <= criteria@.len(),
            old_len <= pending@.len(),
            existing == criterion_views(pending@).take(old_len as int),
            criterion_views(pending@) == existing + seed_rows(existing, criteria@, k as nat),
            existing.len() == old_len,
        decreases criteria@.len() - k,
    {
        let mut present = false;
        let mut q: usize = 0;
        while q < old_len
            invariant
                q <= old_len <= pending@.len(),
                existing == criterion_views(pending@).take(old_len as int),
                present <==> (exists|w: int| 0 <= w < q && #[trigger] existing[w].0 == k),
            decreases old_len - q,
        {
            if pending[q].criterion_index as u64 == k as u64 && pending[q].criterion_index >= 0 {
                present = true;
                proof {
                    assert(existing[q as int].0 == k);
                }
            }
            q += 1;
        }
        proof {
            assert(present == has_criterion_index(existing, k as int));
        }
        if !present && k as u64 <= 9223372036854775807u64 {
            let seed = StudentWorkflowCriterionResult {
                criterion_index: k as i64,
                label: criteria[k].label.clone(),
                points: criteria[k].points,
                points_awarded: 0,
                rationale: String::new(),
            };
            let ghost before = pending@;
            pending.push(seed);
            proof {
                assert(criterion_views(pending@) =~= criterion_views(before).push(
                    criterion_view(seed),
                ));
                assert(criterion_views(pending@).take(old_len as int) =~= criterion_views(
                    before,
                ).take(old_len as int));
            }
        }
        k += 1;
    }
    let sorted = sort_criterion_results(pending);
    answer.criterion_results = sorted;
    let j = first_index_equal(&answer.criterion_results, index);
    if j == answer.criterion_results.len() {
        let mut message = with_number("Criterion index ", index, " was not found in this answer (");
        push_count(&mut message, answer.criterion_results.len());
        push_text(&mut message, " criterion results).");
        return Err(validation(message));
    }
    let ghost sorted_views = criterion_views(answer.criterion_results@);
    let mut target = answer.criterion_results.remove(j);
    target.points_awarded = points;
    answer.criterion_results.insert(j, target);
    proof {
        lemma_seed_rows(existing, criteria@, criteria@.len());
        lemma_sum_of_append(existing, seed_rows(existing, criteria@, criteria@.len()), |v: CriterionView| awarded_abs(v));
        lemma_sort_sums(seeded_criteria(existing, criteria@));
        assert(criterion_views(answer.criterion_results@) =~= sorted_views.update(
            j as int,
            with_awarded(sorted_views[j as int], points),
        ));
        lemma_sum_of_update(sorted_views, |v: CriterionView| awarded_abs(v), j as int, with_awarded(sorted_views[j as int], points));
        lemma_sort_sorted(seeded_criteria(existing, criteria@));
        assert(sorted_by_index(criterion_views(answer.criterion_results@)));
    }
    let total = sum_points_awarded(&answer.criterion_results);
    answer.total_points_awarded = Some(total);
    Ok(())
}

/// Sum of the points awarded over `results`.
fn sum_points_awarded(results: &Vec<StudentWorkflowCriterionResult>) -> (total: i64)
    requires
        total_awarded_abs(criterion_views(results@)) <= i64::MAX,
    ensures
        total == total_awarded(criterion_views(results@)),
{
    let ghost views = criterion_views(results@);
    let mut total: i64 = 0;
    let mut i: usize = 0;
    proof {
        assert(views.take(0) =~= Seq::<CriterionView>::empty());
    }
    while i < results.len()
        invariant
            i <= results@.len(),
            views == criterion_views(results@),
            total == total_awarded(views.take(i as int)),
            total_awarded_abs(views) <= i64::MAX,
        decreases results@.len() - i,
    {
        proof {
            lemma_sum_of_take_step(views, |v: CriterionView| awarded(v), i as int);
            lemma_sum_of_take_step(views, |v: CriterionView| awarded_abs(v), i as int);
            lemma_sum_of_prefix_le(views, |v: CriterionView| awarded_abs(v), i + 1);
            lemma_sum_of_abs_bound(views.take(i + 1), |v: CriterionView| awarded(v), |v: CriterionView| awarded_abs(v));
        }
        total = total + results[i].points_awarded;
        i += 1;
    }
    proof {
        assert(views.take(i as int) =~= views);
    }
    total
}


// ---------------------------------------------------------------------------
// Saving a criterion score
// ---------------------------------------------------------------------------

/// The submission fields that scoring a criterion leaves alone.
pub open spec fn same_submission_except_answers(
    a: StudentWorkflowSubmission,
    b: StudentWorkflowSubmission,
) -> bool {
    &&& a.student_ref == b.student_ref
    &&& a.canonical_pdf_path == b.canonical_pdf_path
    &&& a.page_count == b.page_count
    &&& a.stage == b.stage
    &&& a.latest_job_id == b.latest_job_id
    &&& a.failure_message == b.failure_message
    &&& a.warnings == b.warnings
    &&& a.page_artifacts == b.page_artifacts
    &&& a.alignment_pages == b.alignment_pages
    &&& a.detect_review == b.detect_review
}

/// `new` is `old` with one answer replaced: the same submissions except the
/// one at `si`, whose answers are the same except the one at `ai`.
pub open spec fn one_answer_changed(
    new: StudentWorkflowState,
    old: StudentWorkflowState,
    si: int,
    ai: int,
) -> bool {
    &&& 0 <= si < old.submissions@.len()
    &&& 0 <= ai < old.submissions@[si].answers@.len()
    &&& new.status == old.status
    &&& new.latest_job_id == old.latest_job_id
    &&& new.submissions@.len() == old.submissions@.len()
    &&& forall|i: int|
        0 <= i < old.submissions@.len() && i != si ==> #[trigger] new.submissions@[i]
            == old.submissions@[i]
    &&& same_submission_except_answers(new.submissions@[si], old.submissions@[si])
    &&& new.submissions@[si].answers@.len() == old.submissions@[si].answers@.len()
    &&& forall|a: int|
        0 <= a < old.submissions@[si].answers@.len() && a != ai ==> #[trigger] new.submissions@[si].answers@[a]
            == old.submissions@[si].answers@[a]
}

/// The answer that a score for (`student_ref`, `question_id`) lands on.
pub open spec fn scored_answer(
    workflow: StudentWorkflowState,
    student_ref: Seq<char>,
    question_id: Seq<char>,
) -> Option<(int, int)> {
    let si = submission_index(workflow.submissions@, student_ref);
    if si < workflow.submissions@.len() {
        let ai = answer_index(workflow.submissions@[si].answers@, question_id);
        if ai < workflow.submissions@[si].answers@.len() {
            Some((si, ai))
        } else {
            None
        }
    } else {
        None
    }
}

/// The magnitude of `p`.
pub open spec fn magnitude(p: i64) -> int {
    if p < 0 {
        -(p as int)
    } else {
        p as int
    }
}

/// The awarded points of the scored answer, with the new score, fit in `i64`.
pub open spec fn criterion_score_fits(workflow: StudentWorkflowState, input: SaveCriterionScoreInput) -> bool {
    match scored_answer(workflow, input.student_ref@, input.question_id@) {
        Some((si, ai)) => total_awarded_abs(
            criterion_views(workflow.submissions@[si].answers@[ai].criterion_results@),
        ) + magnitude(input.points_awarded) <= i64::MAX,
        None => true,
    }
}

/// The relation between an answer before and after a criterion score.
pub open spec fn criterion_scored(
    new: StudentWorkflowAnswer,
    old: StudentWorkflowAnswer,
    criteria: Seq<RubricCriterion>,
    index: i64,
    points: i64,
    ok: bool,
) -> bool {
    let seeded = seeded_criteria(criterion_views(old.criterion_results@), criteria);
    let sorted = sort_by_index(seeded);
    let j = first_index(sorted, index_is(index));
    &&& same_answer_except_scores(new, old)
    &&& (ok <==> j < sorted.len())
    &&& ok ==> criterion_views(new.criterion_results@) == scored_criteria(
        criterion_views(old.criterion_results@),
        criteria,
        index,
        points,
    ) && new.total_points_awarded == Some(
        total_awarded(
            scored_criteria(criterion_views(old.criterion_results@), criteria, index, points),
        ) as i64,
    )
    &&& !ok ==> criterion_views(new.criterion_results@) == sorted && new.total_points_awarded
        == old.total_points_awarded
}

/// Applies a criterion score to the student's answer in the workflow: seeds
/// the rubric's missing criteria, orders the results by criterion index, sets
/// the targeted criterion's points and recomputes the answer total.
pub fn apply_criterion_score_to_workflow(
    workspace: &ExamWorkspaceState,
    workflow: &mut StudentWorkflowState,
    input: &SaveCriterionScoreInput,
) -> (r: Result<(), HostError>)
    requires
        criterion_score_fits(*old(workflow), *input),
    ensures
        r matches Err(e) ==> e is Validation,
        question_index(workspace.questions@, input.question_id@) < workspace.questions@.len() ==> (r matches Err(e)
            ==> e.msg() == score_apply_message(workspace.questions@, *old(workflow), *input)),
        ({
            let qi = question_index(workspace.questions@, input.question_id@);
            let found = scored_answer(*old(workflow), input.student_ref@, input.question_id@);
            &&& qi == workspace.questions@.len() ==> *final(workflow) == *old(workflow) && (r matches Err(e)
                && e.msg() == "Question '"@ + input.question_id@ + "' was not found."@)
            &&& qi < workspace.questions@.len() && submission_index(
                old(workflow).submissions@,
                input.student_ref@,
            ) == old(workflow).submissions@.len() ==> *final(workflow) == *old(workflow) && (r matches Err(e)
                && e.msg() == "Student '"@ + input.student_ref@ + "' was not found in the workflow."@)
            &&& qi < workspace.questions@.len() && submission_index(
                old(workflow).submissions@,
                input.student_ref@,
            ) < old(workflow).submissions@.len() && found is None ==> *final(workflow) == *old(workflow)
                && (r matches Err(e) && e.msg() == "Question '"@ + input.question_id@
                + "' was not found for student '"@ + input.student_ref@ + "'."@)
            &&& qi < workspace.questions@.len() && found is Some ==> {
                let (si, ai) = found->0;
                &&& one_answer_changed(*final(workflow), *old(workflow), si, ai)
                &&& criterion_scored(
                    final(workflow).submissions@[si].answers@[ai],
                    old(workflow).submissions@[si].answers@[ai],
                    workspace.questions@[qi].rubric.criteria@,
                    input.criterion_index,
                    input.points_awarded,
                    r is Ok,
                )
            }
        }),
{
    let qi = find_question(&workspace.questions, input.question_id.as_str());
    if qi == workspace.questions.len() {
        return Err(
            validation(concat3("Question '", input.question_id.as_str(), "' was not found.")),
        );
    }
    let si = find_submission(&workflow.submissions, input.student_ref.as_str());
    if si == workflow.submissions.len() {
        return Err(
            validation(
                concat3("Student '", input.student_ref.as_str(), "' was not found in the workflow."),
            ),
        );
    }
    let ai = find_answer(&workflow.submissions[si].answers, input.question_id.as_str());
    if ai == workflow.submissions[si].answers.len() {
        return Err(
            validation(
                concat5(
                    "Question '",
                    input.question_id.as_str(),
                    "' was not found for student '",
                    input.student_ref.as_str(),
                    "'.",
                ),
            ),
        );
    }
    let ghost old_state = *workflow;
    let mut submission = workflow.submissions.remove(si);
    let ghost old_sub = submission;
    let mut answer = submission.answers.remove(ai);
    let outcome = score_answer_criterion(
        &workspace.questions[qi].rubric.criteria,
        &mut answer,
        input.criterion_index,
        input.points_awarded,
    );
    submission.answers.insert(ai, answer);
    workflow.submissions.insert(si, submission);
    proof {
        assert(workflow.submissions@ =~= old_state.submissions@.update(si as int, submission));
        assert(submission.answers@ =~= old_sub.answers@.update(ai as int, answer));
    }
    outcome
}

/// Saves a criterion score: checks it against the rubric, then applies it to
/// the workflow. A rejected score leaves the workflow unchanged.
pub fn save_criterion_score(
    workspace: &ExamWorkspaceState,
    workflow: &mut StudentWorkflowState,
    input: SaveCriterionScoreInput,
) -> (r: Result<(), HostError>)
    requires
        criterion_score_fits(*old(workflow), input),
    ensures
        !criterion_score_valid(workspace.questions@, input) ==> *final(workflow) == *old(workflow) && (r matches Err(
            e,
        ) && e is Validation && e.msg() == rubric_check_message(workspace.questions@, input)),
        criterion_score_valid(workspace.questions@, input) ==> (r matches Err(e) ==> e is Validation && e.msg()
            == score_apply_message(workspace.questions@, *old(workflow), input)),
        criterion_score_valid(workspace.questions@, input) ==> {
            let qi = question_index(workspace.questions@, input.question_id@);
            let found = scored_answer(*old(workflow), input.student_ref@, input.question_id@);
            &&& found is None ==> r is Err && *final(workflow) == *old(workflow)
            &&& found is Some ==> {
                let (si, ai) = found->0;
                &&& one_answer_changed(*final(workflow), *old(workflow), si, ai)
                &&& criterion_scored(
                    final(workflow).submissions@[si].answers@[ai],
                    old(workflow).submissions@[si].answers@[ai],
                    workspace.questions@[qi].rubric.criteria@,
                    input.criterion_index,
                    input.points_awarded,
                    r is Ok,
                )
            }
        },
{
    match validate_points_against_rubric(workspace, &input) {
        Err(e) => Err(e),
        Ok(()) => {
            proof {
                let qi = question_index(workspace.questions@, input.question_id@);
                assert(qi < workspace.questions@.len());
                let found = scored_answer(*old(workflow), input.student_ref@, input.question_id@);
                lemma_first_index_props(old(workflow).submissions@, submission_has_ref(input.student_ref@));
                if found is None {
                    let si = submission_index(old(workflow).submissions@, input.student_ref@);
                    assert(si == old(workflow).submissions@.len() || si < old(workflow).submissions@.len());
                }
            }
            apply_criterion_score_to_workflow(workspace, workflow, &input)
        },
    }
}


// ---------------------------------------------------------------------------
// Moderated totals and feedback
// ---------------------------------------------------------------------------

/// The first answer to question `id` in submission order.
pub open spec fn first_answer_for_question(
    submissions: Seq<StudentWorkflowSubmission>,
    id: Seq<char>,
) -> Option<StudentWorkflowAnswer>
    decreases submissions.len(),
{
    if submissions.len() == 0 {
        None
    } else {
        let ai = answer_index(submissions[0].answers@, id);
        if ai < submissions[0].answers@.len() {
            Some(submissions[0].answers@[ai])
        } else {
            first_answer_for_question(submissions.drop_first(), id)
        }
    }
}

/// The answer of `student_ref` to question `id`, looked up in the student's
/// first submission.
pub open spec fn student_answer(
    submissions: Seq<StudentWorkflowSubmission>,
    student_ref: Seq<char>,
    id: Seq<char>,
) -> Option<StudentWorkflowAnswer> {
    let si = submission_index(submissions, student_ref);
    if si < submissions.len() {
        let ai = answer_index(submissions[si].answers@, id);
        if ai < submissions[si].answers@.len() {
            Some(submissions[si].answers@[ai])
        } else {
            None
        }
    } else {
        None
    }
}

/// The maximum points a moderated total may reach: the question's own
/// maximum, else that of the first answer to the question.
pub open spec fn moderation_max_points(workspace: ExamWorkspaceState, id: Seq<char>) -> Option<i64> {
    let qi = question_index(workspace.questions@, id);
    match workspace.questions@[qi].max_points {
        Some(m) => Some(m),
        None => match first_answer_for_question(workspace.student_workflow.submissions@, id) {
            Some(a) => a.question_max_points,
            None => None,
        },
    }
}

/// The first answer to question `id` in submission order.
pub fn find_first_answer_for_question<'a>(
    submissions: &'a Vec<StudentWorkflowSubmission>,
    id: &str,
) -> (r: Option<&'a StudentWorkflowAnswer>)
    ensures
        match r {
            Some(a) => first_answer_for_question(submissions@, id@) == Some(*a),
            None => first_answer_for_question(submissions@, id@) is None,
        },
{
    let mut i: usize = 0;
    proof {
        assert(submissions@.skip(0) =~= submissions@);
    }
    while i < submissions.len()
        invariant
            i <= submissions@.len(),
            first_answer_for_question(submissions@, id@) == first_answer_for_question(
                submissions@.skip(i as int),
                id@,
            ),
        decreases submissions@.len() - i,
    {
        let ai = find_answer(&submissions[i].answers, id);
        proof {
            let s = submissions@.skip(i as int);
            assert(s[0] == submissions@[i as int]);
            assert(s.drop_first() =~= submissions@.skip(i + 1));
        }
        if ai < submissions[i].answers.len() {
            return Some(&submissions[i].answers[ai]);
        }
        i += 1;
    }
    proof {
        assert(submissions@.skip(i as int) =~= Seq::<StudentWorkflowSubmission>::empty());
    }
    None
}

/// The answer of `student_ref` to question `id`, in the student's first submission.
pub fn find_student_answer<'a>(
    submissions: &'a Vec<StudentWorkflowSubmission>,
    student_ref: &str,
    id: &str,
) -> (r: Option<&'a StudentWorkflowAnswer>)
    ensures
        match r {
            Some(a) => student_answer(submissions@, student_ref@, id@) == Some(*a),
            None => student_answer(submissions@, student_ref@, id@) is None,
        },
{
    let si = find_submission(submissions, student_ref);
    if si == submissions.len() {
        return None;
    }
    let ai = find_answer(&submissions[si].answers, id);
    if ai == submissions[si].answers.len() {
        return None;
    }
    Some(&submissions[si].answers[ai])
}

/// Checks a moderated total: not negative, for an existing question with a
/// known maximum, not above that maximum, for an existing moderation-eligible
/// answer. Returns the answer's original total (zero when it has none).
pub fn validate_moderated_score(workspace: &ExamWorkspaceState, input: &SaveModeratedScoreInput) -> (r:
    Result<i64, HostError>)
    ensures
        r matches Err(e) ==> e is Validation,
        ({
            let t = input.moderated_total_points;
            let id = input.question_id@;
            let qi = question_index(workspace.questions@, id);
            let max = moderation_max_points(*workspace, id);
            let answer = student_answer(workspace.student_workflow.submissions@, input.student_ref@, id);
            &&& t < 0 ==> (r matches Err(e) && e.msg() == "Moderated points cannot be negative."@)
            &&& t >= 0 && qi == workspace.questions@.len() ==> (r matches Err(e) && e.msg()
                == "Question '"@ + id + "' was not found."@)
            &&& t >= 0 && qi < workspace.questions@.len() && max is None ==> (r matches Err(e)
                && e.msg() == "Question '"@ + id + "' has no max points for moderation."@)
            &&& t >= 0 && qi < workspace.questions@.len() && max is Some && t > max->0 ==> (r matches Err(
                e,
            ) && e.msg() == "Moderated points ("@ + int_decimal(t as int)
                + ") cannot exceed question max points ("@ + int_decimal(max->0 as int) + ")."@)
            &&& t >= 0 && qi < workspace.questions@.len() && max is Some && t <= max->0 && answer is None
                ==> (r matches Err(e) && e.msg() == "Question '"@ + id + "' was not found for student '"@
                + input.student_ref@ + "'."@)
            &&& t >= 0 && qi < workspace.questions@.len() && max is Some && t <= max->0 && answer is Some
                && !answer->0.moderation_eligible ==> (r matches Err(e) && e.msg() == "Question '"@ + id
                + "' for student '"@ + input.student_ref@ + "' is not moderation-eligible."@)
            &&& (r is Ok <==> (t >= 0 && qi < workspace.questions@.len() && max is Some && t <= max->0
                && answer is Some && answer->0.moderation_eligible))
            &&& r matches Ok(v) ==> v == match answer->0.total_points_awarded {
                Some(p) => p,
                None => 0,
            }
        }),
{
    if input.moderated_total_points < 0 {
        return Err(validation_text("Moderated points cannot be negative."));
    }
    let qi = find_question(&workspace.questions, input.question_id.as_str());
    if qi == workspace.questions.len() {
        return Err(
            validation(concat3("Question '", input.question_id.as_str(), "' was not found.")),
        );
    }
    let question_max_points = match workspace.questions[qi].max_points {
        Some(m) => Some(m),
        None => match find_first_answer_for_question(
            &workspace.student_workflow.submissions,
            input.question_id.as_str(),
        ) {
            Some(a) => a.question_max_points,
            None => None,
        },
    };
    let max_points = match question_max_points {
        Some(m) => m,
        None => {
            return Err(
                validation(
                    concat3(
                        "Question '",
                        input.question_id.as_str(),
                        "' has no max points for moderation.",
                    ),
                ),
            );
        },
    };
    if input.moderated_total_points > max_points {
        return Err(
            validation(
                with_two_numbers(
                    "Moderated points (",
                    input.moderated_total_points,
                    ") cannot exceed question max points (",
                    max_points,
                    ").",
                ),
            ),
        );
    }
    let answer = match find_student_answer(
        &workspace.student_workflow.submissions,
        input.student_ref.as_str(),
        input.question_id.as_str(),
    ) {
        Some(a) => a,
        None => {
            return Err(
                validation(
                    concat5(
                        "Question '",
                        input.question_id.as_str(),
                        "' was not found for student '",
                        input.student_ref.as_str(),
                        "'.",
                    ),
                ),
            );
        },
    };
    if !answer.moderation_eligible {
        return Err(
            validation(
                concat5(
                    "Question '",
                    input.question_id.as_str(),
                    "' for student '",
                    input.student_ref.as_str(),
                    "' is not moderation-eligible.",
                ),
            ),
        );
    }
    Ok(
        match answer.total_points_awarded {
            Some(p) => p,
            None => 0,
        },
    )
}

pub open spec fn review_not_for(id: Seq<char>) -> spec_fn(ModerationQuestionReview) -> bool {
    |r: ModerationQuestionReview| r.question_id@ != id
}

pub open spec fn review_for(id: Seq<char>) -> spec_fn(ModerationQuestionReview) -> bool {
    |r: ModerationQuestionReview| r.question_id@ == id
}

/// The review marks after question `question_id` is marked reviewed at
/// `reviewed_at`: its earlier marks dropped, the new mark last.
pub open spec fn marked_reviews(
    reviews: Seq<ModerationQuestionReview>,
    question_id: String,
    reviewed_at: String,
) -> Seq<ModerationQuestionReview> {
    keep(reviews, review_not_for(question_id@)).push(ModerationQuestionReview { question_id, reviewed_at })
}

pub open spec fn score_override_not_for(
    student_ref: Seq<char>,
    id: Seq<char>,
) -> spec_fn(ModerationScoreOverride) -> bool {
    |o: ModerationScoreOverride| !(o.student_ref@ == student_ref && o.question_id@ == id)
}

pub open spec fn feedback_override_not_for(
    student_ref: Seq<char>,
    id: Seq<char>,
) -> spec_fn(ModerationFeedbackOverride) -> bool {
    |o: ModerationFeedbackOverride| !(o.student_ref@ == student_ref && o.question_id@ == id)
}

/// `o` with its moderated total replaced by `t`.
pub open spec fn with_moderated_total(o: ModerationScoreOverride, t: i64) -> ModerationScoreOverride {
    ModerationScoreOverride { moderated_total_points: t, ..o }
}

/// A new score override.
pub open spec fn new_score_override(student_ref: String, question_id: String, t: i64) -> ModerationScoreOverride {
    ModerationScoreOverride { student_ref, question_id, moderated_total_points: t }
}

/// Drops every review mark of question `id`.
pub fn remove_question_reviews(reviews: &mut Vec<ModerationQuestionReview>, id: &str)
    ensures
        final(reviews)@ == keep(old(reviews)@, review_not_for(id@)),
{
    retain_where(
        reviews,
        (|r: &ModerationQuestionReview| -> (b: bool)
            ensures
                b == review_not_for(id@)(*r),
            { !text_eq(r.question_id.as_str(), id) }),
        Ghost(review_not_for(id@)),
    );
}

/// Drops every score override of `student_ref`'s answer to question `id`.
pub fn remove_score_overrides(overrides: &mut Vec<ModerationScoreOverride>, student_ref: &str, id: &str)
    ensures
        final(overrides)@ == keep(old(overrides)@, score_override_not_for(student_ref@, id@)),
{
    retain_where(
        overrides,
        (|o: &ModerationScoreOverride| -> (b: bool)
            ensures
                b == score_override_not_for(student_ref@, id@)(*o),
            { !(text_eq(o.student_ref.as_str(), student_ref) && text_eq(o.question_id.as_str(), id)) }),
        Ghost(score_override_not_for(student_ref@, id@)),
    );
}

/// Drops every feedback override of `student_ref`'s answer to question `id`.
pub fn remove_feedback_overrides(
    overrides: &mut Vec<ModerationFeedbackOverride>,
    student_ref: &str,
    id: &str,
)
    ensures
        final(overrides)@ == keep(old(overrides)@, feedback_override_not_for(student_ref@, id@)),
{
    retain_where(
        overrides,
        (|o: &ModerationFeedbackOverride| -> (b: bool)
            ensures
                b == feedback_override_not_for(student_ref@, id@)(*o),
            { !(text_eq(o.student_ref.as_str(), student_ref) && text_eq(o.question_id.as_str(), id)) }),
        Ghost(feedback_override_not_for(student_ref@, id@)),
    );
}

/// Records a moderated total for one answer. Any change of a total clears the
/// question's review marks. A total equal to the original removes the
/// override; otherwise the first override of the answer is updated, or a new
/// one is appended.
#[verifier::loop_isolation(false)]
pub fn upsert_score_override(
    moderation: &mut ModerationState,
    input: &SaveModeratedScoreInput,
    original_total_points: i64,
)
    ensures
        final(moderation).question_reviews@ == keep(
            old(moderation).question_reviews@,
            review_not_for(input.question_id@),
        ),
        final(moderation).feedback_overrides == old(moderation).feedback_overrides,
        ({
            let olds = old(moderation).score_overrides@;
            let p = score_override_not_for(input.student_ref@, input.question_id@);
            let j = first_index(olds, |o: ModerationScoreOverride| !p(o));
            let news = final(moderation).score_overrides@;
            let t = input.moderated_total_points;
            &&& t == original_total_points ==> news == keep(olds, p)
            &&& t != original_total_points && j < olds.len() ==> news == olds.update(
                j,
                with_moderated_total(olds[j], t),
            )
            &&& t != original_total_points && j == olds.len() ==> news == olds.push(
                new_score_override(input.student_ref, input.question_id, t),
            )
        }),
        final(moderation).score_overrides@ == upserted_score_overrides(
            old(moderation).score_overrides@,
            input.student_ref,
            input.question_id,
            input.moderated_total_points,
            original_total_points,
        ),
        score_override_saved(
            old(moderation).score_overrides@,
            final(moderation).score_overrides@,
            input.student_ref@,
            input.question_id@,
            input.moderated_total_points,
            original_total_points,
        ),
{
    proof {
        law_score_override_stays_unique(
            moderation.score_overrides@,
            input.student_ref,
            input.question_id,
            input.moderated_total_points,
            original_total_points,
        );
    }
    remove_question_reviews(&mut moderation.question_reviews, input.question_id.as_str());
    let ghost olds = moderation.score_overrides@;
    let ghost p = score_override_not_for(input.student_ref@, input.question_id@);
    if input.moderated_total_points == original_total_points {
        remove_score_overrides(
            &mut moderation.score_overrides,
            input.student_ref.as_str(),
            input.question_id.as_str(),
        );
        return ;
    }
    let mut i: usize = 0;
    let n = moderation.score_overrides.len();
    let ghost mid = *moderation;
    while i < n
        invariant
            n == olds.len(),
            moderation.score_overrides@ == olds,
            moderation.question_reviews == mid.question_reviews,
            moderation.feedback_overrides == mid.feedback_overrides,
            p == score_override_not_for(input.student_ref@, input.question_id@),
            i <= n,
            forall|k: int| 0 <= k < i ==> p(#[trigger] olds[k]),
        decreases n - i,
    {
        if text_eq(moderation.score_overrides[i].student_ref.as_str(), input.student_ref.as_str())
            && text_eq(
            moderation.score_overrides[i].question_id.as_str(),
            input.question_id.as_str(),
        ) {
            proof {
                lemma_first_index_is(olds, |o: ModerationScoreOverride| !p(o), i as int);
            }
            let mut entry = moderation.score_overrides.remove(i);
            entry.moderated_total_points = input.moderated_total_points;
            moderation.score_overrides.insert(i, entry);
            proof {
                assert(moderation.score_overrides@ =~= olds.update(i as int, entry));
            }
            return ;
        }
        i += 1;
    }
    proof {
        lemma_first_index_is(olds, |o: ModerationScoreOverride| !p(o), i as int);
    }
    moderation.score_overrides.push(
        ModerationScoreOverride {
            student_ref: input.student_ref.clone(),
            question_id: input.question_id.clone(),
            moderated_total_points: input.moderated_total_points,
        },
    );
}

/// Checks moderated feedback: the question exists and the student's answer
/// exists and is moderation-eligible. Returns the answer's original feedback
/// (empty when it has none).
pub fn validate_moderated_feedback(
    workspace: &ExamWorkspaceState,
    input: &SaveModeratedFeedbackInput,
) -> (r: Result<String, HostError>)
    ensures
        r matches Err(e) ==> e is Validation,
        ({
            let id = input.question_id@;
            let qi = question_index(workspace.questions@, id);
            let answer = student_answer(workspace.student_workflow.submissions@, input.student_ref@, id);
            &&& qi == workspace.questions@.len() ==> (r matches Err(e) && e.msg() == "Question '"@ + id
                + "' was not found."@)
            &&& qi < workspace.questions@.len() && answer is None ==> (r matches Err(e) && e.msg()
                == "Question '"@ + id + "' was not found for student '"@ + input.student_ref@ + "'."@)
            &&& qi < workspace.questions@.len() && answer is Some && !answer->0.moderation_eligible
                ==> (r matches Err(e) && e.msg() == "Question '"@ + id + "' for student '"@
                + input.student_ref@ + "' is not moderation-eligible."@)
            &&& (r is Ok <==> (qi < workspace.questions@.len() && answer is Some
                && answer->0.moderation_eligible))
            &&& r matches Ok(s) ==> s@ == match answer->0.feedback_text {
                Some(f) => f@,
                None => Seq::<char>::empty(),
            }
        }),
{
    let qi = find_question(&workspace.questions, input.question_id.as_str());
    if qi == workspace.questions.len() {
        return Err(
            validation(concat3("Question '", input.question_id.as_str(), "' was not found.")),
        );
    }
    let answer = match find_student_answer(
        &workspace.student_workflow.submissions,
        input.student_ref.as_str(),
        input.question_id.as_str(),
    ) {
        Some(a) => a,
        None => {
            return Err(
                validation(
                    concat5(
                        "Question '",
                        input.question_id.as_str(),
                        "' was not found for student '",
                        input.student_ref.as_str(),
                        "'.",
                    ),
                ),
            );
        },
    };
    if !answer.moderation_eligible {
        return Err(
            validation(
                concat5(
                    "Question '",
                    input.question_id.as_str(),
                    "' for student '",
                    input.student_ref.as_str(),
                    "' is not moderation-eligible.",
                ),
            ),
        );
    }
    match &answer.feedback_text {
        Some(f) => Ok(f.clone()),
        None => Ok(String::new()),
    }
}

/// Records moderated feedback for one answer, compared and stored trimmed.
/// Feedback equal to the original removes the override; otherwise the first
/// override of the answer is updated, or a new one is appended. Review marks
/// are kept.
#[verifier::loop_isolation(false)]
pub fn upsert_feedback_override(
    moderation: &mut ModerationState,
    input: &SaveModeratedFeedbackInput,
    original_feedback_text: &str,
)
    ensures
        final(moderation).question_reviews == old(moderation).question_reviews,
        final(moderation).score_overrides == old(moderation).score_overrides,
        ({
            let olds = old(moderation).feedback_overrides@;
            let news = final(moderation).feedback_overrides@;
            let p = feedback_override_not_for(input.student_ref@, input.question_id@);
            let j = first_index(olds, |o: ModerationFeedbackOverride| !p(o));
            let normalized = trim(input.feedback_text@);
            &&& normalized == trim(original_feedback_text@) ==> news == keep(olds, p)
            &&& normalized != trim(original_feedback_text@) && j < olds.len() ==> news.len()
                == olds.len() && (forall|k: int| 0 <= k < olds.len() && k != j ==> news[k] == olds[k])
                && news[j].student_ref == olds[j].student_ref && news[j].question_id
                == olds[j].question_id && news[j].feedback_text@ == normalized
            &&& normalized != trim(original_feedback_text@) && j == olds.len() ==> news.len()
                == olds.len() + 1 && news.take(olds.len() as int) == olds && news.last().student_ref
                == input.student_ref && news.last().question_id == input.question_id
                && news.last().feedback_text@ == normalized
        }),
{
    let normalized_feedback = trimmed(input.feedback_text.as_str());
    let normalized_original = trimmed(original_feedback_text);
    let ghost olds = moderation.feedback_overrides@;
    let ghost p = feedback_override_not_for(input.student_ref@, input.question_id@);
    if normalized_feedback == normalized_original {
        remove_feedback_overrides(
            &mut moderation.feedback_overrides,
            input.student_ref.as_str(),
            input.question_id.as_str(),
        );
        return ;
    }
    let mut i: usize = 0;
    let n = moderation.feedback_overrides.len();
    let ghost mid = *moderation;
    while i < n
        invariant
            n == olds.len(),
            moderation.feedback_overrides@ == olds,
            moderation.question_reviews == mid.question_reviews,
            moderation.score_overrides == mid.score_overrides,
            p == feedback_override_not_for(input.student_ref@, input.question_id@),
            i <= n,
            forall|k: int| 0 <= k < i ==> p(#[trigger] olds[k]),
        decreases n - i,
    {
        if text_eq(moderation.feedback_overrides[i].student_ref.as_str(), input.student_ref.as_str())
            && text_eq(
            moderation.feedback_overrides[i].question_id.as_str(),
            input.question_id.as_str(),
        ) {
            proof {
                lemma_first_index_is(olds, |o: ModerationFeedbackOverride| !p(o), i as int);
            }
            let mut entry = moderation.feedback_overrides.remove(i);
            entry.feedback_text = normalized_feedback;
            moderation.feedback_overrides.insert(i, entry);
            return ;
        }
        i += 1;
    }
    proof {
        lemma_first_index_is(olds, |o: ModerationFeedbackOverride| !p(o), i as int);
    }
    moderation.feedback_overrides.push(
        ModerationFeedbackOverride {
            student_ref: input.student_ref.clone(),
            question_id: input.question_id.clone(),
            feedback_text: normalized_feedback,
        },
    );
    proof {
        assert(moderation.feedback_overrides@.take(n as int) =~= olds);
    }
}

/// Saves a moderated total: checks it, then records the override.
pub fn save_moderated_score(
    workspace: &ExamWorkspaceState,
    moderation: &mut ModerationState,
    input: SaveModeratedScoreInput,
) -> (r: Result<(), HostError>)
    ensures
        ({
            let id = input.question_id@;
            let qi = question_index(workspace.questions@, id);
            let max = moderation_max_points(*workspace, id);
            let answer = student_answer(workspace.student_workflow.submissions@, input.student_ref@, id);
            let t = input.moderated_total_points;
            r is Ok <==> (t >= 0 && qi < workspace.questions@.len() && max is Some && t <= max->0
                && answer is Some && answer->0.moderation_eligible)
        }),
        r is Err ==> *final(moderation) == *old(moderation),
        r is Ok ==> final(moderation).question_reviews@ == keep(
            old(moderation).question_reviews@,
            review_not_for(input.question_id@),
        ) && final(moderation).feedback_overrides == old(moderation).feedback_overrides,
        r is Ok ==> {
            let answer = student_answer(
                workspace.student_workflow.submissions@,
                input.student_ref@,
                input.question_id@,
            )->0;
            let original = match answer.total_points_awarded {
                Some(p) => p,
                None => 0,
            };
            let olds = old(moderation).score_overrides@;
            let p = score_override_not_for(input.student_ref@, input.question_id@);
            let j = first_index(olds, |o: ModerationScoreOverride| !p(o));
            let news = final(moderation).score_overrides@;
            let t = input.moderated_total_points;
            &&& t == original ==> news == keep(olds, p)
            &&& t != original && j < olds.len() ==> news == olds.update(
                j,
                with_moderated_total(olds[j], t),
            )
            &&& t != original && j == olds.len() ==> news == olds.push(
                new_score_override(input.student_ref, input.question_id, t),
            )
            &&& news == upserted_score_overrides(olds, input.student_ref, input.question_id, t, original)
            &&& score_override_saved(olds, news, input.student_ref@, input.question_id@, t, original)
        },
{
    let original_total_points = validate_moderated_score(workspace, &input)?;
    upsert_score_override(moderation, &input, original_total_points);
    Ok(())
}

/// The feedback overrides after moderated feedback is saved: a text equal
/// (trimmed) to the answer's own feedback drops the answer's overrides;
/// another updates the answer's first override or adds one, holding the
/// trimmed text; the other overrides stay.
pub open spec fn feedback_overrides_saved(
    workspace: ExamWorkspaceState,
    olds: Seq<ModerationFeedbackOverride>,
    news: Seq<ModerationFeedbackOverride>,
    input: SaveModeratedFeedbackInput,
) -> bool {
    let answer = student_answer(
        workspace.student_workflow.submissions@,
        input.student_ref@,
        input.question_id@,
    )->0;
    let original = match answer.feedback_text {
        Some(f) => f@,
        None => Seq::<char>::empty(),
    };
    let p = feedback_override_not_for(input.student_ref@, input.question_id@);
    let j = first_index(olds, |o: ModerationFeedbackOverride| !p(o));
    let normalized = trim(input.feedback_text@);
    &&& normalized == trim(original) ==> news == keep(olds, p)
    &&& normalized != trim(original) && j < olds.len() ==> news.len() == olds.len() && (forall|
        k: int,
    | 0 <= k < olds.len() && k != j ==> news[k] == olds[k]) && news[j].student_ref
        == olds[j].student_ref && news[j].question_id == olds[j].question_id
        && news[j].feedback_text@ == normalized
    &&& normalized != trim(original) && j == olds.len() ==> news.len() == olds.len() + 1
        && news.take(olds.len() as int) == olds && news.last().student_ref
        == input.student_ref && news.last().question_id == input.question_id
        && news.last().feedback_text@ == normalized
}

/// Whether moderated feedback is accepted: the question exists and the
/// student's answer to it exists and is moderation-eligible.
pub open spec fn feedback_accepted(workspace: ExamWorkspaceState, input: SaveModeratedFeedbackInput) -> bool {
    let id = input.question_id@;
    let answer = student_answer(workspace.student_workflow.submissions@, input.student_ref@, id);
    question_index(workspace.questions@, id) < workspace.questions@.len() && answer is Some
        && answer->0.moderation_eligible
}

/// What saving moderated feedback comes to: accepted as
/// `feedback_accepted` says, then the overrides as `feedback_overrides_saved`
/// says; refused with nothing changed; the review marks and score overrides
/// are kept either way.
pub open spec fn moderated_feedback_saved(
    workspace: ExamWorkspaceState,
    before: ModerationState,
    after: ModerationState,
    input: SaveModeratedFeedbackInput,
    r: Result<(), HostError>,
) -> bool {
    &&& r is Ok <==> feedback_accepted(workspace, input)
    &&& r is Err ==> after == before
    &&& after.question_reviews == before.question_reviews
    &&& after.score_overrides == before.score_overrides
    &&& r is Ok ==> feedback_overrides_saved(workspace, before.feedback_overrides@, after.feedback_overrides@, input)
}

/// Saves moderated feedback: checks it, then records the override.
pub fn save_moderated_feedback(
    workspace: &ExamWorkspaceState,
    moderation: &mut ModerationState,
    input: SaveModeratedFeedbackInput,
) -> (r: Result<(), HostError>)
    ensures
        moderated_feedback_saved(*workspace, *old(moderation), *final(moderation), input, r),
{
    let original_feedback_text = validate_moderated_feedback(workspace, &input)?;
    upsert_feedback_override(moderation, &input, original_feedback_text.as_str());
    Ok(())
}

// ---------------------------------------------------------------------------
// Question review marks
// ---------------------------------------------------------------------------

/// Whether some submission has a moderation-eligible answer to question `id`.
pub open spec fn has_moderation_rows(submissions: Seq<StudentWorkflowSubmission>, id: Seq<char>) -> bool {
    exists|i: int, a: int|
        0 <= i < submissions.len() && 0 <= a < submissions[i].answers@.len()
            && #[trigger] submissions[i].answers@[a].question_id@ == id
            && submissions[i].answers@[a].moderation_eligible
}

/// Checks that question `id` exists and has at least one moderation-eligible answer.
pub fn validate_question_has_moderation_rows(workspace: &ExamWorkspaceState, question_id: &str) -> (r:
    Result<(), HostError>)
    ensures
        r matches Err(e) ==> e is Validation,
        question_index(workspace.questions@, question_id@) == workspace.questions@.len() ==> (r matches Err(
            e,
        ) && e.msg() == "Question '"@ + question_id@ + "' was not found."@),
        question_index(workspace.questions@, question_id@) < workspace.questions@.len()
            && !has_moderation_rows(workspace.student_workflow.submissions@, question_id@) ==> (r matches Err(
            e,
        ) && e.msg() == "Question '"@ + question_id@ + "' has no moderation-eligible answers."@),
        r is Ok <==> (question_index(workspace.questions@, question_id@) < workspace.questions@.len()
            && has_moderation_rows(workspace.student_workflow.submissions@, question_id@)),
{
    let qi = find_question(&workspace.questions, question_id);
    if qi == workspace.questions.len() {
        return Err(validation(concat3("Question '", question_id, "' was not found.")));
    }
    let subs = &workspace.student_workflow.submissions;
    let mut i: usize = 0;
    while i < subs.len()
        invariant
            i <= subs@.len(),
            subs == workspace.student_workflow.submissions,
            qi == question_index(workspace.questions@, question_id@),
            qi < workspace.questions@.len(),
            forall|x: int, a: int|
                0 <= x < i && 0 <= a < subs@[x].answers@.len() ==> !(
                #[trigger] subs@[x].answers@[a].question_id@ == question_id@
                    && subs@[x].answers@[a].moderation_eligible),
        decreases subs@.len() - i,
    {
        let answers = &subs[i].answers;
        let mut a: usize = 0;
        while a < answers.len()
            invariant
                i < subs@.len(),
                subs == workspace.student_workflow.submissions,
                qi == question_index(workspace.questions@, question_id@),
                qi < workspace.questions@.len(),
                answers == subs@[i as int].answers,
                a <= answers@.len(),
                forall|b: int|
                    0 <= b < a ==> !(#[trigger] answers@[b].question_id@ == question_id@
                        && answers@[b].moderation_eligible),
            decreases answers@.len() - a,
        {
            if answers[a].moderation_eligible && text_eq(answers[a].question_id.as_str(), question_id) {
                proof {
                    assert(subs@[i as int].answers@[a as int].question_id@ == question_id@);
                }
                return Ok(());
            }
            a += 1;
        }
        i += 1;
    }
    Err(validation(concat3("Question '", question_id, "' has no moderation-eligible answers.")))
}

/// What marking question `input.question_id` reviewed (or clearing its
/// mark) comes to: accepted when the question exists and has
/// moderation-eligible answers, else refused with its message and nothing
/// changed; the overrides are kept; the question's marks are dropped, and
/// when it is marked a new mark at `reviewed_at` is added last.
pub open spec fn question_review_set(
    workspace: ExamWorkspaceState,
    before: ModerationState,
    after: ModerationState,
    input: SetModerationQuestionReviewedInput,
    reviewed_at: String,
    r: Result<(), HostError>,
) -> bool {
    let id = input.question_id@;
    let found = question_index(workspace.questions@, id) < workspace.questions@.len();
    &&& r is Ok <==> (found && has_moderation_rows(workspace.student_workflow.submissions@, id))
    &&& r is Err ==> after == before
    &&& r matches Err(e) ==> e is Validation && e.msg() == (if !found {
        "Question '"@ + id + "' was not found."@
    } else {
        "Question '"@ + id + "' has no moderation-eligible answers."@
    })
    &&& r is Ok ==> after.score_overrides == before.score_overrides && after.feedback_overrides
        == before.feedback_overrides
    &&& r is Ok && !input.reviewed ==> after.question_reviews@ == keep(before.question_reviews@, review_not_for(id))
    &&& r is Ok && input.reviewed ==> after.question_reviews@ == marked_reviews(
        before.question_reviews@,
        input.question_id,
        reviewed_at,
    )
}

/// Marks question `id` as reviewed at `reviewed_at`, or clears its mark.
/// The question must have moderation-eligible answers.
pub fn set_question_reviewed(
    workspace: &ExamWorkspaceState,
    moderation: &mut ModerationState,
    input: SetModerationQuestionReviewedInput,
    reviewed_at: String,
) -> (r: Result<(), HostError>)
    ensures
        question_review_set(*workspace, *old(moderation), *final(moderation), input, reviewed_at, r),
{
    match validate_question_has_moderation_rows(workspace, input.question_id.as_str()) {
        Err(e) => {
            assert(!(question_index(workspace.questions@, input.question_id@) < workspace.questions@.len()
                && has_moderation_rows(workspace.student_workflow.submissions@, input.question_id@)));
            proof {
                lemma_first_index_props(workspace.questions@, question_has_id(input.question_id@));
                assert(e is Validation);
                if question_index(workspace.questions@, input.question_id@) == workspace.questions@.len() {
                    assert(e.msg() == "Question '"@ + input.question_id@ + "' was not found."@);
                } else {
                    assert(e.msg() == "Question '"@ + input.question_id@ + "' has no moderation-eligible answers."@);
                }
            }
            return Err(e);
        },
        Ok(()) => {},
    }
    remove_question_reviews(&mut moderation.question_reviews, input.question_id.as_str());
    if input.reviewed {
        moderation.question_reviews.push(
            ModerationQuestionReview { question_id: input.question_id, reviewed_at },
        );
    }
    Ok(())
}


// ---------------------------------------------------------------------------
// Laws of the moderation overrides
// ---------------------------------------------------------------------------

/// No two score overrides are for the same student and question.
pub open spec fn score_overrides_unique(s: Seq<ModerationScoreOverride>) -> bool {
    forall|i: int, j: int|
        0 <= i < j < s.len() ==> !((#[trigger] s[i]).student_ref@ == (#[trigger] s[j]).student_ref@
            && s[i].question_id@ == s[j].question_id@)
}

/// The score overrides after a moderated total `t` for the student and
/// question is saved, the answer's own total being `original`: a total equal
/// to the original drops the override, another total updates the existing
/// override or adds one.
pub open spec fn upserted_score_overrides(
    olds: Seq<ModerationScoreOverride>,
    student_ref: String,
    question_id: String,
    t: i64,
    original: i64,
) -> Seq<ModerationScoreOverride> {
    let p = score_override_not_for(student_ref@, question_id@);
    let j = first_index(olds, |o: ModerationScoreOverride| !p(o));
    if t == original {
        keep(olds, p)
    } else if j < olds.len() {
        olds.update(j, with_moderated_total(olds[j], t))
    } else {
        olds.push(new_score_override(student_ref, question_id, t))
    }
}

proof fn lemma_keep_scores_unique(s: Seq<ModerationScoreOverride>, p: spec_fn(ModerationScoreOverride) -> bool)
    requires
        score_overrides_unique(s),
    ensures
        score_overrides_unique(keep(s, p)),
    decreases s.len(),
{
    if s.len() > 0 {
        let t = s.drop_last();
        assert(score_overrides_unique(t)) by {
            assert forall|i: int, j: int| 0 <= i < j < t.len() implies !((#[trigger] t[i]).student_ref@
                == (#[trigger] t[j]).student_ref@ && t[i].question_id@ == t[j].question_id@) by {
                assert(t[i] == s[i] && t[j] == s[j]);
            }
        }
        lemma_keep_scores_unique(t, p);
        crate::seqs::lemma_keep_props(t, p);
        if p(s.last()) {
            let k = keep(t, p);
            let n = k.push(s.last());
            assert forall|i: int, j: int| 0 <= i < j < n.len() implies !((#[trigger] n[i]).student_ref@
                == (#[trigger] n[j]).student_ref@ && n[i].question_id@ == n[j].question_id@) by {
                if j == n.len() - 1 {
                    assert(k.contains(n[i]));
                    let w = choose|w: int| 0 <= w < t.len() && t[w] == n[i];
                    assert(s[w] == n[i] && s[s.len() - 1] == n[j]);
                } else {
                    assert(n[i] == k[i] && n[j] == k[j]);
                }
            }
        }
    }
}

/// What saving a moderated total `t` for `student_ref`'s answer to
/// `question_id` (whose own total is `original`) does to the score overrides
/// `olds`, giving `news`: the overrides of other answers stay as they were,
/// in order; the answer's override is gone when `t` equals the original, and
/// otherwise one holds `t`; and when no two overrides were for the same
/// answer before, none are after.
pub open spec fn score_override_saved(
    olds: Seq<ModerationScoreOverride>,
    news: Seq<ModerationScoreOverride>,
    student_ref: Seq<char>,
    question_id: Seq<char>,
    t: i64,
    original: i64,
) -> bool {
    let p = score_override_not_for(student_ref, question_id);
    &&& keep(news, p) == keep(olds, p)
    &&& t == original ==> forall|k: int| 0 <= k < news.len() ==> !((#[trigger] news[k]).student_ref@
        == student_ref && news[k].question_id@ == question_id)
    &&& t != original ==> exists|k: int| 0 <= k < news.len() && (#[trigger] news[k]).student_ref@
        == student_ref && news[k].question_id@ == question_id && news[k].moderated_total_points == t
    &&& score_overrides_unique(olds) ==> score_overrides_unique(news)
}

/// Saving a moderated total keeps at most one score override per student
/// and question: the answer's override is removed when the total equals the
/// answer's own, else exactly one holds the total; other overrides are
/// untouched.
pub proof fn law_score_override_stays_unique(
    olds: Seq<ModerationScoreOverride>,
    student_ref: String,
    question_id: String,
    t: i64,
    original: i64,
)
    ensures
        score_override_saved(
            olds,
            upserted_score_overrides(olds, student_ref, question_id, t, original),
            student_ref@,
            question_id@,
            t,
            original,
        ),
{
    let p = score_override_not_for(student_ref@, question_id@);
    let q = |o: ModerationScoreOverride| !p(o);
    let j = first_index(olds, q);
    let news = upserted_score_overrides(olds, student_ref, question_id, t, original);
    crate::seqs::lemma_first_index_props(olds, q);
    if t == original {
        crate::seqs::lemma_keep_idempotent(olds, p);
        crate::seqs::lemma_keep_props(olds, p);
        assert forall|k: int| 0 <= k < news.len() implies !((#[trigger] news[k]).student_ref@ == student_ref@
            && news[k].question_id@ == question_id@) by {
            assert(p(news[k]));
        }
        if score_overrides_unique(olds) {
            lemma_keep_scores_unique(olds, p);
        }
    } else if j < olds.len() {
        crate::seqs::lemma_keep_update_dropped(olds, p, j, with_moderated_total(olds[j], t));
        if score_overrides_unique(olds) {
            assert forall|a: int, b: int| 0 <= a < b < news.len() implies !((#[trigger] news[a]).student_ref@
                == (#[trigger] news[b]).student_ref@ && news[a].question_id@ == news[b].question_id@) by {
                assert(news[a].student_ref == olds[a].student_ref && news[a].question_id == olds[a].question_id);
                assert(news[b].student_ref == olds[b].student_ref && news[b].question_id == olds[b].question_id);
            }
        }
        assert(news[j].student_ref@ == student_ref@ && news[j].question_id@ == question_id@);
    } else {
        crate::seqs::lemma_keep_push_dropped(olds, p, new_score_override(student_ref, question_id, t));
        if score_overrides_unique(olds) {
            assert forall|a: int, b: int| 0 <= a < b < news.len() implies !((#[trigger] news[a]).student_ref@
                == (#[trigger] news[b]).student_ref@ && news[a].question_id@ == news[b].question_id@) by {
                if b == news.len() - 1 {
                    assert(news[a] == olds[a]);
                    assert(!q(olds[a]));
                } else {
                    assert(news[a] == olds[a] && news[b] == olds[b]);
                }
            }
        }
        let last = news.len() - 1;
        assert(news[last].student_ref@ == student_ref@ && news[last].question_id@ == question_id@);
    }
}

/// Marking a question reviewed leaves exactly one review mark for it, the
/// last, also when it is marked again; clearing the mark then leaves none.
/// The marks of other questions stay as they were, in order.
pub proof fn law_review_mark_is_single(
    reviews: Seq<ModerationQuestionReview>,
    question_id: String,
    first_at: String,
    second_at: String,
)
    ensures
        ({
            let once = marked_reviews(reviews, question_id, first_at);
            let twice = marked_reviews(once, question_id, second_at);
            let others = review_not_for(question_id@);
            &&& count_where(once, review_for(question_id@)) == 1
            &&& count_where(twice, review_for(question_id@)) == 1
            &&& twice.last() == ModerationQuestionReview { question_id, reviewed_at: second_at }
            &&& keep(once, others) == keep(reviews, others)
            &&& keep(twice, others) == keep(reviews, others)
            &&& count_where(keep(twice, others), review_for(question_id@)) == 0
        }),
{
    let others = review_not_for(question_id@);
    let mine = review_for(question_id@);
    let kept = keep(reviews, others);
    let once = marked_reviews(reviews, question_id, first_at);
    let twice = marked_reviews(once, question_id, second_at);
    crate::seqs::lemma_keep_props(reviews, others);
    crate::seqs::lemma_keep_idempotent(reviews, others);
    crate::seqs::lemma_keep_push_dropped(kept, others, once.last());
    assert(once.drop_last() =~= kept);
    assert forall|k: int| 0 <= k < kept.len() implies !mine(#[trigger] kept[k]) by {
        assert(others(kept[k]));
    }
    crate::seqs::lemma_count_none(kept, mine);
    assert(keep(once, others) == kept);
    crate::seqs::lemma_keep_push_dropped(kept, others, twice.last());
    assert(twice.drop_last() =~= kept);
    assert(keep(twice, others) == kept);
}

/// Saving moderated feedback after a question was marked reviewed keeps
/// the mark. Whatever the two inputs: when marking question `q` reviewed
/// succeeded and moderated feedback is then saved (successfully or not), the
/// review marks are those the marking left, with exactly one mark for `q`,
/// the last; the score overrides are those from before the marking; the
/// feedback is saved exactly when the feedback check passes, and then the
/// feedback overrides are those saving gives from the ones before the
/// marking.
pub proof fn law_feedback_keeps_question_review(
    workspace: ExamWorkspaceState,
    before: ModerationState,
    marked: ModerationState,
    after: ModerationState,
    review: SetModerationQuestionReviewedInput,
    reviewed_at: String,
    feedback: SaveModeratedFeedbackInput,
    marking: Result<(), HostError>,
    saving: Result<(), HostError>,
)
    requires
        question_review_set(workspace, before, marked, review, reviewed_at, marking),
        marking is Ok,
        review.reviewed,
        moderated_feedback_saved(workspace, marked, after, feedback, saving),
    ensures
        after.question_reviews@ == marked_reviews(before.question_reviews@, review.question_id, reviewed_at),
        count_where(after.question_reviews@, review_for(review.question_id@)) == 1,
        after.question_reviews@.last() == (ModerationQuestionReview { question_id: review.question_id, reviewed_at }),
        after.score_overrides == before.score_overrides,
        saving is Ok <==> feedback_accepted(workspace, feedback),
        saving is Ok ==> feedback_overrides_saved(
            workspace,
            before.feedback_overrides@,
            after.feedback_overrides@,
            feedback,
        ),
        saving is Err ==> after.feedback_overrides == before.feedback_overrides,
{
    law_review_mark_is_single(before.question_reviews@, review.question_id, reviewed_at, reviewed_at);
}

} // verus!
