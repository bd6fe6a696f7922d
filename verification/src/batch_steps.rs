//! The steps of the batch pipeline that change the workflow state: moving
//! several students' submissions into a stage or stopping and failing them,
//! and recording what canonicalization, crop, PII screening and parsing came
//! to for one student of a batch. The worker jobs between them are run by
//! the host.
use vstd::prelude::*;
use crate::errors::{HostError, RuntimeJobEvent, WorkerStatus};
use crate::host_workflow::{is_text_array, text_array};
use crate::json::{get_text, is_optional_text, is_text, json_get_text, member, members_of, JsonMember, JsonValue};
use crate::models::{StudentWorkflowAnswer, StudentWorkflowPage, StudentWorkflowState, StudentWorkflowSubmission};
use crate::moderation::{find_submission, submission_index};
use crate::seqs::{first_index, lemma_first_index_is};
use crate::sorted::texts;
use crate::text::{opt_text, owned, text_eq};
use crate::workflow::{
    answers_replaced, has_submission, lemma_same_refs_same_index, missing_submission_error, missing_submission_message,
    only_submission_changed, replace_answers, same_except_detect_review, same_work, set_controls,
    stopped_message, stopped_message_for_error, update_workflow_status, derived_workflow_status,
};

verus! {

// ---------------------------------------------------------------------------
// Several students at once
// ---------------------------------------------------------------------------

/// The submission of each student in `refs` (the first one of that
/// student) takes `stage` and, when `failure` is `Some`, that failure
/// message; every other submission, and the rest of each marked one, stays
/// as it was.
pub open spec fn refs_marked(
    before: StudentWorkflowState,
    after: StudentWorkflowState,
    refs: Seq<Seq<char>>,
    stage: Seq<char>,
    failure: Option<Option<Seq<char>>>,
) -> bool {
    let subs = before.submissions@;
    &&& after.status == before.status
    &&& after.latest_job_id == before.latest_job_id
    &&& after.submissions@.len() == subs.len()
    &&& forall|k: int|
        0 <= k < subs.len() ==> if refs.contains(subs[k].student_ref@) && submission_index(
            subs,
            (#[trigger] subs[k]).student_ref@,
        ) == k {
            &&& same_work(subs[k], after.submissions@[k])
            &&& after.submissions@[k].stage@ == stage
            &&& opt_text(after.submissions@[k].failure_message) == match failure {
                Some(f) => f,
                None => opt_text(subs[k].failure_message),
            }
            &&& after.submissions@[k].latest_job_id == subs[k].latest_job_id
        } else {
            after.submissions@[k] == subs[k]
        }
}

/// The first student of `refs` without a submission (or the number of refs).
pub open spec fn first_missing_ref(subs: Seq<StudentWorkflowSubmission>, refs: Seq<Seq<char>>) -> int {
    first_index(refs, |x: Seq<char>| !has_submission(subs, x))
}

/// What marking `refs`, student by student, comes to: refused at the first
/// student without a submission, the students before it being marked; else
/// every student's submission marked.
pub open spec fn refs_marking(
    before: StudentWorkflowState,
    after: StudentWorkflowState,
    refs: Seq<Seq<char>>,
    stage: Seq<char>,
    failure: Option<Option<Seq<char>>>,
    r: Result<(), HostError>,
) -> bool {
    let m = first_missing_ref(before.submissions@, refs);
    &&& r is Ok <==> m == refs.len()
    &&& m < refs.len() ==> (r matches Err(e) && e is Validation && e.msg() == missing_submission_message(refs[m]))
        && refs_marked(before, after, refs.take(m), stage, failure)
    &&& r is Ok ==> refs_marked(before, after, refs, stage, failure)
}

fn mark_refs(
    workflow_state: &mut StudentWorkflowState,
    refs: &Vec<String>,
    stage: &str,
    failure: Option<Option<&str>>,
) -> (r: Result<(), HostError>)
    ensures
        refs_marking(
            *old(workflow_state),
            *final(workflow_state),
            texts(refs@),
            stage@,
            match failure {
                Some(Some(f)) => Some(Some(f@)),
                Some(None) => Some(None),
                None => None,
            },
            r,
        ),
{
    let ghost subs = workflow_state.submissions@;
    let ghost missing = |x: Seq<char>| !has_submission(subs, x);
    let ghost fail_view: Option<Option<Seq<char>>> = match failure {
        Some(Some(f)) => Some(Some(f@)),
        Some(None) => Some(None),
        None => None,
    };
    proof {
        assert(texts(refs@).take(0) =~= Seq::<Seq<char>>::empty());
    }
    let mut i: usize = 0;
    while i < refs.len()
        invariant
            i <= refs@.len(),
            forall|w: int| 0 <= w < i ==> !missing(#[trigger] texts(refs@)[w]),
            missing == (|x: Seq<char>| !has_submission(subs, x)),
            subs == old(workflow_state).submissions@,
            fail_view == match failure {
                Some(Some(f)) => Some(Some(f@)),
                Some(None) => Some(None),
                None => None::<Option<Seq<char>>>,
            },
            refs_marked(*old(workflow_state), *workflow_state, texts(refs@).take(i as int), stage@, fail_view),
        decreases refs@.len() - i,
    {
        let ghost cur = *workflow_state;
        let student_ref = refs[i].as_str();
        proof {
            assert forall|kk: int| 0 <= kk < subs.len() implies (#[trigger] cur.submissions@[kk]).student_ref
                == subs[kk].student_ref by {
                if texts(refs@).take(i as int).contains(subs[kk].student_ref@) && submission_index(subs, subs[kk].student_ref@) == kk {
                } else {
                }
            }
            lemma_same_refs_same_index(cur.submissions@, subs, student_ref@);
            assert(texts(refs@)[i as int] == student_ref@);
        }
        if find_submission(&workflow_state.submissions, student_ref) == workflow_state.submissions.len() {
            proof {
                lemma_first_index_is(texts(refs@), missing, i as int);
            }
            return Err(missing_submission_error(student_ref));
        }
        proof {
            assert(!missing(texts(refs@)[i as int]));
        }
        let k = find_submission(&workflow_state.submissions, student_ref);
        let f = match failure {
            Some(Some(m)) => Some(Some(owned(m))),
            Some(None) => Some(None),
            None => None,
        };
        set_controls(workflow_state, k, Some(owned(stage)), f, None);
        proof {
            let t = texts(refs@);
            assert(t.take(i + 1) =~= t.take(i as int).push(student_ref@));
            assert forall|kk: int| 0 <= kk < subs.len() implies if t.take(i + 1).contains(subs[kk].student_ref@)
                && submission_index(subs, (#[trigger] subs[kk]).student_ref@) == kk {
                &&& same_work(subs[kk], workflow_state.submissions@[kk])
                &&& workflow_state.submissions@[kk].stage@ == stage@
                &&& opt_text(workflow_state.submissions@[kk].failure_message) == match fail_view {
                    Some(fv) => fv,
                    None => opt_text(subs[kk].failure_message),
                }
                &&& workflow_state.submissions@[kk].latest_job_id == subs[kk].latest_job_id
            } else {
                workflow_state.submissions@[kk] == subs[kk]
            } by {
                let t1 = t.take(i + 1);
                let t0 = t.take(i as int);
                let x = subs[kk].student_ref@;
                if kk == k {
                    assert(t1[i as int] == subs[kk].student_ref@);
                    if !(t0.contains(x)) {
                        assert(cur.submissions@[kk] == subs[kk]);
                    }
                } else {
                    assert(workflow_state.submissions@[kk] == cur.submissions@[kk]);
                    if t1.contains(x) && !t0.contains(x) {
                        let w = choose|w: int| 0 <= w < t1.len() && t1[w] == x;
                        if w < i {
                            assert(t0[w] == x);
                        }
                        assert(x == student_ref@);
                    }
                    if t0.contains(x) {
                        let w = choose|w: int| 0 <= w < t0.len() && t0[w] == x;
                        assert(t1[w] == x);
                    }
                }
            }
        }
        i += 1;
    }
    proof {
        assert(texts(refs@).take(refs@.len() as int) =~= texts(refs@));
        lemma_first_index_is(texts(refs@), missing, refs@.len() as int);
    }
    Ok(())
}

/// Moves the submissions of `refs` into `stage` and clears their failure
/// messages, before a batch stage runs. A student without a submission is
/// refused when reached, the students before it being marked.
pub fn set_refs_stage(workflow_state: &mut StudentWorkflowState, refs: &Vec<String>, stage: &str) -> (r: Result<
    (),
    HostError,
>)
    ensures
        refs_marking(*old(workflow_state), *final(workflow_state), texts(refs@), stage@, Some(None), r),
{
    mark_refs(workflow_state, refs, stage, Some(None))
}

/// Stops the submissions of `refs` with `message`. A student without a
/// submission is refused when reached, the students before it being marked.
pub fn mark_refs_stopped_with_message(
    workflow_state: &mut StudentWorkflowState,
    refs: &Vec<String>,
    message: &str,
) -> (r: Result<(), HostError>)
    ensures
        refs_marking(*old(workflow_state), *final(workflow_state), texts(refs@), "stopped"@, Some(Some(message@)), r),
{
    mark_refs(workflow_state, refs, "stopped", Some(Some(message)))
}

/// Stops the submissions of `refs` because of `err`.
pub fn mark_refs_stopped_for_error(
    workflow_state: &mut StudentWorkflowState,
    refs: &Vec<String>,
    err: &HostError,
) -> (r: Result<(), HostError>)
    ensures
        refs_marking(
            *old(workflow_state),
            *final(workflow_state),
            texts(refs@),
            "stopped"@,
            Some(Some(stopped_message(*err))),
            r,
        ),
{
    let m = stopped_message_for_error(err);
    mark_refs(workflow_state, refs, "stopped", Some(Some(m.as_str())))
}

/// Fails the submissions of `refs` with `message`. A student without a
/// submission is refused when reached, the students before it being marked.
pub fn mark_refs_failed_with_message(
    workflow_state: &mut StudentWorkflowState,
    refs: &Vec<String>,
    message: &str,
) -> (r: Result<(), HostError>)
    ensures
        refs_marking(*old(workflow_state), *final(workflow_state), texts(refs@), "failed"@, Some(Some(message@)), r),
{
    mark_refs(workflow_state, refs, "failed", Some(Some(message)))
}


// ---------------------------------------------------------------------------
// What a batch stage came to for one student
// ---------------------------------------------------------------------------

/// `after` is the submission `before` once its crop rows came in under job
/// `job_id`: it moves on to PII screening, its detect review is done with,
/// and the job is recorded.
pub open spec fn crop_recorded(before: StudentWorkflowSubmission, after: StudentWorkflowSubmission, job_id: Seq<char>) -> bool {
    &&& same_except_detect_review(before, after)
    &&& after.detect_review is None
    &&& after.stage@ == "pii"@
    &&& opt_text(after.latest_job_id) == Some(job_id)
    &&& after.failure_message == before.failure_message
}

/// `after` is the submission `before` stopped because of `err`.
pub open spec fn stopped_by(before: StudentWorkflowSubmission, after: StudentWorkflowSubmission, err: HostError) -> bool {
    &&& same_work(before, after)
    &&& after.stage@ == "stopped"@
    &&& opt_text(after.failure_message) == Some(stopped_message(err))
    &&& after.latest_job_id == before.latest_job_id
}

/// Records what the crop job `job_id` returned for `student_ref`: its crop
/// rows move the submission on to PII screening and are handed back for
/// it; an error reading them stops the submission, and nothing is handed
/// back. A student without a submission is refused and nothing changes.
pub fn record_crop_outcome(
    workflow_state: &mut StudentWorkflowState,
    student_ref: &str,
    job_id: &str,
    rows: Result<Vec<JsonValue>, HostError>,
) -> (r: Result<Option<Vec<JsonValue>>, HostError>)
    ensures
        has_submission(old(workflow_state).submissions@, student_ref@) <==> r is Ok,
        r matches Err(e) ==> e is Validation && e.msg() == missing_submission_message(student_ref@)
            && *final(workflow_state) == *old(workflow_state),
        r is Ok ==> ({
            let k = submission_index(old(workflow_state).submissions@, student_ref@);
            let before = old(workflow_state).submissions@[k];
            let after = final(workflow_state).submissions@[k];
            &&& only_submission_changed(*old(workflow_state), *final(workflow_state), k)
            &&& match rows {
                Ok(v) => r == Ok::<Option<Vec<JsonValue>>, HostError>(Some(v)) && crop_recorded(before, after, job_id@),
                Err(e) => r == Ok::<Option<Vec<JsonValue>>, HostError>(None) && stopped_by(before, after, e),
            }
        }),
{
    let k = find_submission(&workflow_state.submissions, student_ref);
    if k == workflow_state.submissions.len() {
        return Err(missing_submission_error(student_ref));
    }
    match rows {
        Ok(v) => {
            let ghost before = workflow_state.submissions@;
            let mut sub = workflow_state.submissions.remove(k);
            sub.latest_job_id = Some(owned(job_id));
            sub.detect_review = None;
            sub.stage = owned("pii");
            workflow_state.submissions.insert(k, sub);
            proof {
                assert(workflow_state.submissions@ =~= before.update(k as int, sub));
            }
            Ok(Some(v))
        },
        Err(e) => {
            let m = stopped_message_for_error(&e);
            set_controls(workflow_state, k, Some(owned("stopped")), Some(Some(m)), None);
            Ok(None)
        },
    }
}

/// The message of a submission whose canonical pages did not all come out.
pub open spec fn partial_canonicalize_message() -> Seq<char> {
    "Canonicalize failed for one or more student pages."@
}

/// `after` is the submission `before` once canonicalization under job
/// `job_id` gave `pages`: the pages and the job are recorded; a page for
/// each alignment page moves it on to detection, fewer or more fail it.
pub open spec fn canonicalize_recorded(
    before: StudentWorkflowSubmission,
    after: StudentWorkflowSubmission,
    job_id: Seq<char>,
    pages: Seq<StudentWorkflowPage>,
) -> bool {
    &&& after.student_ref == before.student_ref
    &&& after.canonical_pdf_path == before.canonical_pdf_path
    &&& after.page_count == before.page_count
    &&& after.warnings == before.warnings
    &&& after.alignment_pages == before.alignment_pages
    &&& after.detect_review == before.detect_review
    &&& after.answers == before.answers
    &&& after.page_artifacts@ == pages
    &&& opt_text(after.latest_job_id) == Some(job_id)
    &&& if pages.len() == before.alignment_pages@.len() {
        after.stage@ == "detect"@ && after.failure_message == before.failure_message
    } else {
        after.stage@ == "failed"@ && opt_text(after.failure_message) == Some(partial_canonicalize_message())
    }
}

/// One student's canonicalization recorded: `after` is `before` with the
/// submission of `student_ref` as `canonicalize_recorded` says.
pub open spec fn canonicalize_step(
    before: StudentWorkflowState,
    after: StudentWorkflowState,
    student_ref: Seq<char>,
    job_id: Seq<char>,
    pages: Seq<StudentWorkflowPage>,
) -> bool {
    let k = submission_index(before.submissions@, student_ref);
    &&& only_submission_changed(before, after, k)
    &&& canonicalize_recorded(before.submissions@[k], after.submissions@[k], job_id, pages)
}

/// Whether `student_ref`'s submission goes on to detection with `pages`.
pub open spec fn canonicalize_continues(
    subs: Seq<StudentWorkflowSubmission>,
    student_ref: Seq<char>,
    pages: Seq<StudentWorkflowPage>,
) -> bool {
    pages.len() == subs[submission_index(subs, student_ref)].alignment_pages@.len()
}

/// Records the canonical pages that the job `job_id` produced for
/// `student_ref`, and says whether the submission goes on to detection
/// (it has a page for each alignment page). A student without a submission
/// is refused and nothing changes.
pub fn record_canonicalize_outcome(
    workflow_state: &mut StudentWorkflowState,
    student_ref: &str,
    job_id: &str,
    pages: Vec<StudentWorkflowPage>,
) -> (r: Result<bool, HostError>)
    ensures
        has_submission(old(workflow_state).submissions@, student_ref@) <==> r is Ok,
        r matches Err(e) ==> e is Validation && e.msg() == missing_submission_message(student_ref@)
            && *final(workflow_state) == *old(workflow_state),
        r is Ok ==> canonicalize_step(*old(workflow_state), *final(workflow_state), student_ref@, job_id@, pages@)
            && r == Ok::<bool, HostError>(canonicalize_continues(old(workflow_state).submissions@, student_ref@, pages@)),
{
    let k = find_submission(&workflow_state.submissions, student_ref);
    if k == workflow_state.submissions.len() {
        return Err(missing_submission_error(student_ref));
    }
    let ghost before = workflow_state.submissions@;
    let mut sub = workflow_state.submissions.remove(k);
    sub.latest_job_id = Some(owned(job_id));
    sub.page_artifacts = pages;
    let complete = sub.page_artifacts.len() == sub.alignment_pages.len();
    if complete {
        sub.stage = owned("detect");
    } else {
        sub.stage = owned("failed");
        sub.failure_message = Some(owned("Canonicalize failed for one or more student pages."));
    }
    workflow_state.submissions.insert(k, sub);
    proof {
        assert(workflow_state.submissions@ =~= before.update(k as int, sub));
    }
    Ok(complete)
}

/// An answer whose parsing failed or was cancelled.
pub open spec fn answer_parse_failed(a: StudentWorkflowAnswer) -> bool {
    a.parse_status@ == "error"@ || a.parse_status@ == "cancelled"@
}

/// The message of a submission some of whose answers failed to parse.
pub open spec fn parse_failed_message() -> Seq<char> {
    "Parsing failed for one or more answers."@
}

/// Where a submission goes once its answers are parsed: failed when an
/// answer failed to parse, to parse review when one needs review, else to
/// grading.
pub open spec fn parsed_stage(answers: Seq<StudentWorkflowAnswer>) -> Seq<char> {
    if exists|j: int| 0 <= j < answers.len() && answer_parse_failed(#[trigger] answers[j]) {
        "failed"@
    } else if exists|j: int| 0 <= j < answers.len() && (#[trigger] answers[j]).review_required {
        "parse_review"@
    } else {
        "grading"@
    }
}

/// One student's parse recorded: `after` is `before` with the submission of
/// `student_ref` holding the parsed answers, moved to `parsed_stage` (with
/// the failure message of a failed parse) under job `job_id`; or stopped,
/// when there were no answers but an error.
pub open spec fn parse_step(
    before: StudentWorkflowState,
    after: StudentWorkflowState,
    student_ref: Seq<char>,
    job_id: Seq<char>,
    answers: Result<Vec<StudentWorkflowAnswer>, HostError>,
) -> bool {
    let k = submission_index(before.submissions@, student_ref);
    let b = before.submissions@[k];
    let a = after.submissions@[k];
    &&& only_submission_changed(before, after, k)
    &&& match answers {
        Ok(v) => {
            let stage = parsed_stage(v@);
            answers_replaced(
                b,
                a,
                v@,
                stage,
                if stage == "failed"@ { Some(parse_failed_message()) } else { opt_text(b.failure_message) },
                Some(job_id),
            )
        },
        Err(e) => stopped_by(b, a, e),
    }
}

/// Whether a parse outcome makes the submission ready for grading.
pub open spec fn parse_continues(answers: Result<Vec<StudentWorkflowAnswer>, HostError>) -> bool {
    match answers {
        Ok(v) => parsed_stage(v@) == "grading"@,
        Err(_) => false,
    }
}

/// Records the parsed answers (merged with the submission's) that the job
/// `job_id` gave `student_ref`, and says whether the submission is ready
/// for grading (see `parsed_stage`); a failed parse records its message.
/// When the job's result held no parse data for the student (`Err`), the
/// submission is stopped instead. A student without a submission is refused
/// and nothing changes.
pub fn record_parse_outcome(
    workflow_state: &mut StudentWorkflowState,
    student_ref: &str,
    job_id: &str,
    answers: Result<Vec<StudentWorkflowAnswer>, HostError>,
) -> (r: Result<bool, HostError>)
    ensures
        has_submission(old(workflow_state).submissions@, student_ref@) <==> r is Ok,
        r matches Err(e) ==> e is Validation && e.msg() == missing_submission_message(student_ref@)
            && *final(workflow_state) == *old(workflow_state),
        r is Ok ==> parse_step(*old(workflow_state), *final(workflow_state), student_ref@, job_id@, answers)
            && r == Ok::<bool, HostError>(parse_continues(answers)),
{
    let k = find_submission(&workflow_state.submissions, student_ref);
    if k == workflow_state.submissions.len() {
        return Err(missing_submission_error(student_ref));
    }
    match answers {
        Err(e) => {
            let m = stopped_message_for_error(&e);
            set_controls(workflow_state, k, Some(owned("stopped")), Some(Some(m)), None);
            Ok(false)
        },
        Ok(a) => {
            proof {
                reveal_strlit("parse_review");
                reveal_strlit("failed");
                reveal_strlit("grading");
            }
            let mut failed = false;
            let mut review = false;
            let mut i: usize = 0;
            while i < a.len()
                invariant
                    i <= a@.len(),
                    failed == exists|j: int| 0 <= j < i && answer_parse_failed(#[trigger] a@[j]),
                    review == exists|j: int| 0 <= j < i && (#[trigger] a@[j]).review_required,
                decreases a@.len() - i,
            {
                if text_eq(a[i].parse_status.as_str(), "error") || text_eq(a[i].parse_status.as_str(), "cancelled") {
                    failed = true;
                }
                if a[i].review_required {
                    review = true;
                }
                proof {
                    if failed && !(exists|j: int| 0 <= j < i && answer_parse_failed(#[trigger] a@[j])) {
                        assert(answer_parse_failed(a@[i as int]));
                    }
                    if review && !(exists|j: int| 0 <= j < i && (#[trigger] a@[j]).review_required) {
                        assert(a@[i as int].review_required);
                    }
                }
                i += 1;
            }
            let failure = crate::text::clone_opt_text(&workflow_state.submissions[k].failure_message);
            proof {
                reveal_strlit("failed");
                reveal_strlit("grading");
                reveal_strlit("parse_review");
                assert("failed"@.len() == 6 && "grading"@.len() == 7 && "parse_review"@.len() == 12);
                assert("failed"@ != "grading"@);
                assert("parse_review"@ != "grading"@);
                assert("parse_review"@ != "failed"@);
                if failed {
                    assert(parsed_stage(a@) == "failed"@);
                } else if review {
                    assert(parsed_stage(a@) == "parse_review"@);
                } else {
                    assert(parsed_stage(a@) == "grading"@);
                }
            }
            if failed {
                replace_answers(
                    workflow_state,
                    k,
                    a,
                    owned("failed"),
                    Some(owned("Parsing failed for one or more answers.")),
                    Some(owned(job_id)),
                );
                Ok(false)
            } else if review {
                replace_answers(workflow_state, k, a, owned("parse_review"), failure, Some(owned(job_id)));
                Ok(false)
            } else {
                replace_answers(workflow_state, k, a, owned("grading"), failure, Some(owned(job_id)));
                Ok(true)
            }
        },
    }
}

// ---------------------------------------------------------------------------
// The PII batch
// ---------------------------------------------------------------------------

/// The students that the rows name by a textual `student_ref`, in order.
pub open spec fn named_students(rows: Seq<JsonValue>) -> Seq<Seq<char>>
    decreases rows.len(),
{
    if rows.len() == 0 {
        Seq::empty()
    } else {
        let r = named_students(rows.drop_last());
        match json_get_text(rows.last(), "student_ref"@) {
            Some(s) => r.push(s),
            None => r,
        }
    }
}

/// The students of a PII batch: those its student rows name, in order.
pub fn pii_batch_student_refs(pii_students: &Vec<JsonValue>) -> (r: Vec<String>)
    ensures
        texts(r@) == named_students(pii_students@),
{
    let mut r: Vec<String> = Vec::new();
    let mut i: usize = 0;
    proof {
        assert(pii_students@.take(0) =~= Seq::<JsonValue>::empty());
        assert(texts(r@) =~= Seq::<Seq<char>>::empty());
    }
    while i < pii_students.len()
        invariant
            i <= pii_students@.len(),
            texts(r@) == named_students(pii_students@.take(i as int)),
        decreases pii_students@.len() - i,
    {
        proof {
            let t = pii_students@.take(i + 1);
            assert(t.drop_last() =~= pii_students@.take(i as int));
            assert(t.last() == pii_students@[i as int]);
        }
        let ghost before = r@;
        if let Some(s) = get_text(&pii_students[i], "student_ref") {
            r.push(s.clone());
            proof {
                assert(texts(r@) =~= texts(before).push(s@));
            }
        }
        i += 1;
    }
    proof {
        assert(pii_students@.take(i as int) =~= pii_students@);
    }
    r
}

/// The PII batch needs the screening model's directory: when it could not
/// be resolved (`Err`), the batch's students are stopped with that error and
/// no directory is handed back; otherwise the directory is handed back and
/// nothing changes. A student without a submission is refused when
/// reached, the students before it being stopped.
pub fn resolve_pii_batch_model_dir(
    workflow_state: &mut StudentWorkflowState,
    pii_student_refs: &Vec<String>,
    model_dir: Result<String, HostError>,
) -> (r: Result<Option<String>, HostError>)
    ensures
        match model_dir {
            Ok(d) => r == Ok::<Option<String>, HostError>(Some(d)) && *final(workflow_state) == *old(workflow_state),
            Err(e) => {
                let m = first_missing_ref(old(workflow_state).submissions@, texts(pii_student_refs@));
                &&& r is Ok <==> m == pii_student_refs@.len()
                &&& r is Ok ==> r == Ok::<Option<String>, HostError>(None)
                &&& refs_marking(
                    *old(workflow_state),
                    *final(workflow_state),
                    texts(pii_student_refs@),
                    "stopped"@,
                    Some(Some(stopped_message(e))),
                    match r {
                        Ok(_) => Ok(()),
                        Err(x) => Err(x),
                    },
                )
            },
        },
{
    match model_dir {
        Ok(d) => Ok(Some(d)),
        Err(e) => match mark_refs_stopped_for_error(workflow_state, pii_student_refs, &e) {
            Ok(()) => Ok(None),
            Err(x) => Err(x),
        },
    }
}

// ---------------------------------------------------------------------------
// Batch results, student by student
// ---------------------------------------------------------------------------

/// The students named by the items of a batch, in order.
pub open spec fn item_refs<T>(items: Seq<(String, T)>) -> Seq<Seq<char>> {
    items.map_values(|it: (String, T)| it.0@)
}

/// The `i`-th state of `chain` leads to the next by recording the `i`-th
/// student's canonical pages.
pub open spec fn canonicalize_chain_step(
    chain: Seq<StudentWorkflowState>,
    items: Seq<(String, Vec<StudentWorkflowPage>)>,
    job_id: Seq<char>,
    i: int,
) -> bool {
    canonicalize_step(chain[i], chain[i + 1], items[i].0@, job_id, items[i].1@)
}

/// `after` follows from `before` by recording, student by student in the
/// order of `items`, the canonical pages of job `job_id`.
pub open spec fn canonicalize_batch_applied(
    before: StudentWorkflowState,
    after: StudentWorkflowState,
    items: Seq<(String, Vec<StudentWorkflowPage>)>,
    job_id: Seq<char>,
) -> bool {
    exists|chain: Seq<StudentWorkflowState>|
        #![trigger chain[0]]
        chain.len() == items.len() + 1 && chain[0] == before && chain[items.len() as int] == after && forall|i: int|
            0 <= i < items.len() ==> #[trigger] canonicalize_chain_step(chain, items, job_id, i)
}

/// The students of a canonicalize batch that go on to detection, in order.
pub open spec fn canonicalize_continuing(
    subs: Seq<StudentWorkflowSubmission>,
    items: Seq<(String, Vec<StudentWorkflowPage>)>,
) -> Seq<Seq<char>>
    decreases items.len(),
{
    if items.len() == 0 {
        Seq::empty()
    } else {
        let r = canonicalize_continuing(subs, items.drop_last());
        if canonicalize_continues(subs, items.last().0@, items.last().1@) {
            r.push(items.last().0@)
        } else {
            r
        }
    }
}

/// Records the canonical pages that the batch job `job_id` produced, student
/// by student in order (see `record_canonicalize_outcome`), and returns the
/// students that go on to detection. A student without a submission is
/// refused when reached, the students before it being recorded.
#[verifier::loop_isolation(false)]
pub fn apply_canonicalize_batch_results(
    workflow_state: &mut StudentWorkflowState,
    job_id: &str,
    items: Vec<(String, Vec<StudentWorkflowPage>)>,
) -> (r: Result<Vec<String>, HostError>)
    ensures
        ({
            let refs = item_refs(items@);
            let m = first_missing_ref(old(workflow_state).submissions@, refs);
            &&& r is Ok <==> m == refs.len()
            &&& m < refs.len() ==> (r matches Err(e) && e is Validation && e.msg() == missing_submission_message(refs[m]))
                && canonicalize_batch_applied(*old(workflow_state), *final(workflow_state), items@.take(m), job_id@)
            &&& r matches Ok(c) ==> texts(c@) == canonicalize_continuing(old(workflow_state).submissions@, items@)
                && canonicalize_batch_applied(*old(workflow_state), *final(workflow_state), items@, job_id@)
        }),
{
    let ghost start = *workflow_state;
    let ghost orig = items@;
    let ghost subs = start.submissions@;
    let ghost missing = |x: Seq<char>| !has_submission(subs, x);
    let ghost mut chain: Seq<StudentWorkflowState> = seq![start];
    let mut items = items;
    let mut out: Vec<String> = Vec::new();
    let n = items.len();
    let mut i: usize = 0;
    proof {
        assert(items@ =~= orig.skip(0));
        assert(orig.take(0) =~= Seq::<(String, Vec<StudentWorkflowPage>)>::empty());
        assert(texts(out@) =~= Seq::<Seq<char>>::empty());
    }
    while i < n
        invariant
            n == orig.len(),
            i <= n,
            items@ == orig.skip(i as int),
            start == *old(workflow_state),
            subs == start.submissions@,
            missing == (|x: Seq<char>| !has_submission(subs, x)),
            forall|w: int| 0 <= w < i ==> has_submission(subs, #[trigger] item_refs(orig)[w]),
            chain.len() == i + 1,
            chain[0] == start,
            chain[i as int] == *workflow_state,
            forall|j: int| 0 <= j < i ==> #[trigger] canonicalize_chain_step(chain, orig, job_id@, j),
            workflow_state.submissions@.len() == subs.len(),
            forall|k: int|
                0 <= k < subs.len() ==> (#[trigger] workflow_state.submissions@[k]).student_ref == subs[k].student_ref
                    && workflow_state.submissions@[k].alignment_pages == subs[k].alignment_pages,
            texts(out@) == canonicalize_continuing(subs, orig.take(i as int)),
        decreases n - i,
    {
        let ghost cur = *workflow_state;
        let item = items.remove(0);
        proof {
            assert(item == orig[i as int]);
            assert(items@ =~= orig.skip(i + 1));
            assert(item_refs(orig)[i as int] == item.0@);
            lemma_same_refs_same_index(cur.submissions@, subs, item.0@);
        }
        let (student_ref, pages) = item;
        let step = record_canonicalize_outcome(workflow_state, student_ref.as_str(), job_id, pages);
        let go = match step {
            Ok(b) => b,
            Err(e) => {
                proof {
                    assert(item_refs(orig)[i as int] == student_ref@);
                    assert(missing(item_refs(orig)[i as int]));
                    lemma_first_index_is(item_refs(orig), missing, i as int);
                    let tk = orig.take(i as int);
                    assert forall|j: int| 0 <= j < tk.len() implies #[trigger] canonicalize_chain_step(chain, tk, job_id@, j) by {
                        assert(tk[j] == orig[j]);
                        assert(canonicalize_chain_step(chain, orig, job_id@, j));
                    }
                    assert(chain[0] == *old(workflow_state));
                    assert(chain[tk.len() as int] == *workflow_state);
                    assert(canonicalize_batch_applied(*old(workflow_state), *workflow_state, tk, job_id@));
                    assert(first_missing_ref(subs, item_refs(orig)) == i);
                }
                return Err(e);
            },
        };
        proof {
            let next = chain.push(*workflow_state);
            assert forall|j: int| 0 <= j < i + 1 implies #[trigger] canonicalize_chain_step(next, orig, job_id@, j) by {
                assert(next[j] == chain[j]);
                if j < i {
                    assert(next[j + 1] == chain[j + 1]);
                    assert(canonicalize_chain_step(chain, orig, job_id@, j));
                }
            }
            chain = next;
            let t = orig.take(i + 1);
            assert(t.drop_last() =~= orig.take(i as int));
            assert(t.last() == orig[i as int]);
            let k = submission_index(subs, student_ref@);
            assert(student_ref@ == item_refs(orig)[i as int]);
            assert(has_submission(subs, item_refs(orig)[i as int]));
            crate::seqs::lemma_first_index_props(subs, crate::moderation::submission_has_ref(student_ref@));
            assert(0 <= k < subs.len());
            assert forall|w: int| 0 <= w < i + 1 implies has_submission(subs, #[trigger] item_refs(orig)[w]) by {
                if w == i {
                    assert(item_refs(orig)[w] == student_ref@);
                }
            }
            assert(cur.submissions@[k].student_ref == subs[k].student_ref
                && cur.submissions@[k].alignment_pages == subs[k].alignment_pages);
            assert forall|kk: int| 0 <= kk < subs.len() implies (#[trigger] workflow_state.submissions@[kk]).student_ref
                == subs[kk].student_ref && workflow_state.submissions@[kk].alignment_pages == subs[kk].alignment_pages by {
                if kk != k {
                    assert(workflow_state.submissions@[kk] == cur.submissions@[kk]);
                }
            }
        }
        if go {
            let ghost before = texts(out@);
            out.push(student_ref);
            proof {
                assert(texts(out@) =~= before.push(orig[i as int].0@));
            }
        }
        i += 1;
    }
    proof {
        assert(orig.take(n as int) =~= orig);
        assert(chain[0] == *old(workflow_state));
        lemma_first_index_is(item_refs(orig), missing, n as int);
    }
    Ok(out)
}

/// The `i`-th state of `chain` leads to the next by recording the `i`-th
/// student's parse outcome.
pub open spec fn parse_chain_step(
    chain: Seq<StudentWorkflowState>,
    items: Seq<(String, Result<Vec<StudentWorkflowAnswer>, HostError>)>,
    job_id: Seq<char>,
    i: int,
) -> bool {
    parse_step(chain[i], chain[i + 1], items[i].0@, job_id, items[i].1)
}

/// `after` follows from `before` by recording, student by student in the
/// order of `items`, the parse outcomes of job `job_id`.
pub open spec fn parse_batch_applied(
    before: StudentWorkflowState,
    after: StudentWorkflowState,
    items: Seq<(String, Result<Vec<StudentWorkflowAnswer>, HostError>)>,
    job_id: Seq<char>,
) -> bool {
    exists|chain: Seq<StudentWorkflowState>|
        #![trigger chain[0]]
        chain.len() == items.len() + 1 && chain[0] == before && chain[items.len() as int] == after && forall|i: int|
            0 <= i < items.len() ==> #[trigger] parse_chain_step(chain, items, job_id, i)
}

/// The students of a parse batch that are ready for grading, in order.
pub open spec fn parse_continuing(items: Seq<(String, Result<Vec<StudentWorkflowAnswer>, HostError>)>) -> Seq<Seq<char>>
    decreases items.len(),
{
    if items.len() == 0 {
        Seq::empty()
    } else {
        let r = parse_continuing(items.drop_last());
        if parse_continues(items.last().1) {
            r.push(items.last().0@)
        } else {
            r
        }
    }
}

/// Records the parse outcomes of the batch job `job_id`, student by student
/// in order (see `record_parse_outcome`), and returns the students ready for
/// grading. A student without a submission is refused when reached, the
/// students before it being recorded.
#[verifier::loop_isolation(false)]
pub fn apply_parse_batch_results(
    workflow_state: &mut StudentWorkflowState,
    job_id: &str,
    items: Vec<(String, Result<Vec<StudentWorkflowAnswer>, HostError>)>,
) -> (r: Result<Vec<String>, HostError>)
    ensures
        ({
            let refs = item_refs(items@);
            let m = first_missing_ref(old(workflow_state).submissions@, refs);
            &&& r is Ok <==> m == refs.len()
            &&& m < refs.len() ==> (r matches Err(e) && e is Validation && e.msg() == missing_submission_message(refs[m]))
                && parse_batch_applied(*old(workflow_state), *final(workflow_state), items@.take(m), job_id@)
            &&& r matches Ok(c) ==> texts(c@) == parse_continuing(items@)
                && parse_batch_applied(*old(workflow_state), *final(workflow_state), items@, job_id@)
        }),
{
    let ghost start = *workflow_state;
    let ghost orig = items@;
    let ghost subs = start.submissions@;
    let ghost missing = |x: Seq<char>| !has_submission(subs, x);
    let ghost mut chain: Seq<StudentWorkflowState> = seq![start];
    let mut items = items;
    let mut out: Vec<String> = Vec::new();
    let n = items.len();
    let mut i: usize = 0;
    proof {
        assert(items@ =~= orig.skip(0));
        assert(orig.take(0) =~= Seq::<(String, Result<Vec<StudentWorkflowAnswer>, HostError>)>::empty());
        assert(texts(out@) =~= Seq::<Seq<char>>::empty());
    }
    while i < n
        invariant
            n == orig.len(),
            i <= n,
            items@ == orig.skip(i as int),
            start == *old(workflow_state),
            subs == start.submissions@,
            missing == (|x: Seq<char>| !has_submission(subs, x)),
            forall|w: int| 0 <= w < i ==> has_submission(subs, #[trigger] item_refs(orig)[w]),
            chain.len() == i + 1,
            chain[0] == start,
            chain[i as int] == *workflow_state,
            forall|j: int| 0 <= j < i ==> #[trigger] parse_chain_step(chain, orig, job_id@, j),
            workflow_state.submissions@.len() == subs.len(),
            forall|k: int|
                0 <= k < subs.len() ==> (#[trigger] workflow_state.submissions@[k]).student_ref == subs[k].student_ref,
            texts(out@) == parse_continuing(orig.take(i as int)),
        decreases n - i,
    {
        let ghost cur = *workflow_state;
        let item = items.remove(0);
        proof {
            assert(item == orig[i as int]);
            assert(items@ =~= orig.skip(i + 1));
            assert(item_refs(orig)[i as int] == item.0@);
            lemma_same_refs_same_index(cur.submissions@, subs, item.0@);
        }
        let (student_ref, answers) = item;
        let step = record_parse_outcome(workflow_state, student_ref.as_str(), job_id, answers);
        let go = match step {
            Ok(b) => b,
            Err(e) => {
                proof {
                    assert(item_refs(orig)[i as int] == student_ref@);
                    assert(missing(item_refs(orig)[i as int]));
                    lemma_first_index_is(item_refs(orig), missing, i as int);
                    let tk = orig.take(i as int);
                    assert forall|j: int| 0 <= j < tk.len() implies #[trigger] parse_chain_step(chain, tk, job_id@, j) by {
                        assert(tk[j] == orig[j]);
                        assert(parse_chain_step(chain, orig, job_id@, j));
                    }
                    assert(chain[0] == *old(workflow_state));
                    assert(chain[tk.len() as int] == *workflow_state);
                    assert(parse_batch_applied(*old(workflow_state), *workflow_state, tk, job_id@));
                    assert(first_missing_ref(subs, item_refs(orig)) == i);
                }
                return Err(e);
            },
        };
        proof {
            let next = chain.push(*workflow_state);
            assert forall|j: int| 0 <= j < i + 1 implies #[trigger] parse_chain_step(next, orig, job_id@, j) by {
                assert(next[j] == chain[j]);
                if j < i {
                    assert(next[j + 1] == chain[j + 1]);
                    assert(parse_chain_step(chain, orig, job_id@, j));
                }
            }
            chain = next;
            let t = orig.take(i + 1);
            assert(t.drop_last() =~= orig.take(i as int));
            assert(t.last() == orig[i as int]);
            let k = submission_index(subs, student_ref@);
            assert(student_ref@ == item_refs(orig)[i as int]);
            assert(has_submission(subs, item_refs(orig)[i as int]));
            crate::seqs::lemma_first_index_props(subs, crate::moderation::submission_has_ref(student_ref@));
            assert(0 <= k < subs.len());
            assert forall|w: int| 0 <= w < i + 1 implies has_submission(subs, #[trigger] item_refs(orig)[w]) by {
                if w == i {
                    assert(item_refs(orig)[w] == student_ref@);
                }
            }
            assert(cur.submissions@[k].student_ref == subs[k].student_ref);
            assert forall|kk: int| 0 <= kk < subs.len() implies (#[trigger] workflow_state.submissions@[kk]).student_ref
                == subs[kk].student_ref by {
                if kk != k {
                    assert(workflow_state.submissions@[kk] == cur.submissions@[kk]);
                }
            }
        }
        if go {
            let ghost before = texts(out@);
            out.push(student_ref);
            proof {
                assert(texts(out@) =~= before.push(orig[i as int].0@));
            }
        }
        i += 1;
    }
    proof {
        assert(orig.take(n as int) =~= orig);
        assert(chain[0] == *old(workflow_state));
        lemma_first_index_is(item_refs(orig), missing, n as int);
    }
    Ok(out)
}

// ---------------------------------------------------------------------------
// PII batch results
// ---------------------------------------------------------------------------

/// Whether every answer needs manual grading (so does an empty list).
pub open spec fn all_manual(answers: Seq<StudentWorkflowAnswer>) -> bool {
    forall|j: int| 0 <= j < answers.len() ==> #[trigger] answers[j].manual_grading_required
}

/// One student's PII screening recorded. A submission no longer in PII
/// screening, or one the job returned no rows for (`Ok(None)`), is left as
/// it is; one whose result could not be read (`Err`) is stopped; otherwise
/// the screened answers and the job are recorded, and the submission waits
/// for manual grading (with no failure) when every answer needs it, else
/// goes on to parsing.
pub open spec fn pii_step(
    before: StudentWorkflowState,
    after: StudentWorkflowState,
    student_ref: Seq<char>,
    job_id: Seq<char>,
    answers: Result<Option<Vec<StudentWorkflowAnswer>>, HostError>,
) -> bool {
    let k = submission_index(before.submissions@, student_ref);
    let b = before.submissions@[k];
    let a = after.submissions@[k];
    if b.stage@ != "pii"@ {
        after == before
    } else {
        match answers {
            Ok(None) => after == before,
            Ok(Some(v)) => only_submission_changed(before, after, k) && answers_replaced(
                b,
                a,
                v@,
                if all_manual(v@) { "manual_grading"@ } else { "parse"@ },
                if all_manual(v@) { None } else { opt_text(b.failure_message) },
                Some(job_id),
            ),
            Err(e) => only_submission_changed(before, after, k) && stopped_by(b, a, e),
        }
    }
}

/// Whether a PII outcome sends the submission on to parsing.
pub open spec fn pii_continues(
    subs: Seq<StudentWorkflowSubmission>,
    student_ref: Seq<char>,
    answers: Result<Option<Vec<StudentWorkflowAnswer>>, HostError>,
) -> bool {
    subs[submission_index(subs, student_ref)].stage@ == "pii"@ && match answers {
        Ok(Some(v)) => !all_manual(v@),
        _ => false,
    }
}

/// Records what the PII job `job_id` gave `student_ref` (see `pii_step`)
/// and says whether the submission goes on to parsing. A student without a
/// submission is refused and nothing changes.
pub fn record_pii_outcome(
    workflow_state: &mut StudentWorkflowState,
    student_ref: &str,
    job_id: &str,
    answers: Result<Option<Vec<StudentWorkflowAnswer>>, HostError>,
) -> (r: Result<bool, HostError>)
    ensures
        has_submission(old(workflow_state).submissions@, student_ref@) <==> r is Ok,
        r matches Err(e) ==> e is Validation && e.msg() == missing_submission_message(student_ref@)
            && *final(workflow_state) == *old(workflow_state),
        r is Ok ==> pii_step(*old(workflow_state), *final(workflow_state), student_ref@, job_id@, answers)
            && r == Ok::<bool, HostError>(pii_continues(old(workflow_state).submissions@, student_ref@, answers)),
{
    let k = find_submission(&workflow_state.submissions, student_ref);
    if k == workflow_state.submissions.len() {
        return Err(missing_submission_error(student_ref));
    }
    proof {
        reveal_strlit("pii");
        reveal_strlit("parse");
        reveal_strlit("manual_grading");
    }
    if !text_eq(workflow_state.submissions[k].stage.as_str(), "pii") {
        return Ok(false);
    }
    match answers {
        Err(e) => {
            let m = stopped_message_for_error(&e);
            set_controls(workflow_state, k, Some(owned("stopped")), Some(Some(m)), None);
            Ok(false)
        },
        Ok(None) => Ok(false),
        Ok(Some(a)) => {
            let mut manual = true;
            let mut i: usize = 0;
            while i < a.len()
                invariant
                    i <= a@.len(),
                    manual == (forall|j: int| 0 <= j < i ==> #[trigger] a@[j].manual_grading_required),
                decreases a@.len() - i,
            {
                if !a[i].manual_grading_required {
                    manual = false;
                }
                i += 1;
            }
            if manual {
                replace_answers(workflow_state, k, a, owned("manual_grading"), None, Some(owned(job_id)));
                Ok(false)
            } else {
                let failure = crate::text::clone_opt_text(&workflow_state.submissions[k].failure_message);
                replace_answers(workflow_state, k, a, owned("parse"), failure, Some(owned(job_id)));
                Ok(true)
            }
        },
    }
}

/// The `i`-th state of `chain` leads to the next by recording the `i`-th
/// student's PII outcome.
pub open spec fn pii_chain_step(
    chain: Seq<StudentWorkflowState>,
    items: Seq<(String, Result<Option<Vec<StudentWorkflowAnswer>>, HostError>)>,
    job_id: Seq<char>,
    i: int,
) -> bool {
    pii_step(chain[i], chain[i + 1], items[i].0@, job_id, items[i].1)
}

/// `after` follows from `before` by recording, student by student in the
/// order of `items`, the PII outcomes of job `job_id`; `continuing` are the
/// students sent on to parsing, in order.
pub open spec fn pii_batch_applied(
    before: StudentWorkflowState,
    after: StudentWorkflowState,
    items: Seq<(String, Result<Option<Vec<StudentWorkflowAnswer>>, HostError>)>,
    job_id: Seq<char>,
    continuing: Seq<Seq<char>>,
) -> bool {
    exists|chain: Seq<StudentWorkflowState>|
        #![trigger chain[0]]
        chain.len() == items.len() + 1 && chain[0] == before && chain[items.len() as int] == after && (forall|i: int|
            0 <= i < items.len() ==> #[trigger] pii_chain_step(chain, items, job_id, i)) && continuing
            == pii_continuing(chain, items)
}

/// `after` follows from `before` by recording, student by student in the
/// order of `items`, the PII outcomes of job `job_id`.
pub open spec fn pii_steps_applied(
    before: StudentWorkflowState,
    after: StudentWorkflowState,
    items: Seq<(String, Result<Option<Vec<StudentWorkflowAnswer>>, HostError>)>,
    job_id: Seq<char>,
) -> bool {
    exists|chain: Seq<StudentWorkflowState>|
        #![trigger chain[0]]
        chain.len() == items.len() + 1 && chain[0] == before && chain[items.len() as int] == after && forall|i: int|
            0 <= i < items.len() ==> #[trigger] pii_chain_step(chain, items, job_id, i)
}

/// The students that the steps of `chain` send on to parsing, in order.
pub open spec fn pii_continuing(
    chain: Seq<StudentWorkflowState>,
    items: Seq<(String, Result<Option<Vec<StudentWorkflowAnswer>>, HostError>)>,
) -> Seq<Seq<char>>
    decreases items.len(),
{
    if items.len() == 0 {
        Seq::empty()
    } else {
        let n = items.len() - 1;
        let r = pii_continuing(chain, items.drop_last());
        if pii_continues(chain[n].submissions@, items[n].0@, items[n].1) {
            r.push(items[n].0@)
        } else {
            r
        }
    }
}

/// Records the PII outcomes of the batch job `job_id`, student by student in
/// order (see `record_pii_outcome`), and returns the students that go on to
/// parsing. A student without a submission is refused when reached, the
/// students before it being recorded.
#[verifier::loop_isolation(false)]
pub fn apply_pii_batch_results(
    workflow_state: &mut StudentWorkflowState,
    job_id: &str,
    items: Vec<(String, Result<Option<Vec<StudentWorkflowAnswer>>, HostError>)>,
) -> (r: Result<Vec<String>, HostError>)
    ensures
        ({
            let refs = item_refs(items@);
            let m = first_missing_ref(old(workflow_state).submissions@, refs);
            &&& r is Ok <==> m == refs.len()
            &&& m < refs.len() ==> (r matches Err(e) && e is Validation && e.msg() == missing_submission_message(refs[m]))
                && pii_steps_applied(*old(workflow_state), *final(workflow_state), items@.take(m), job_id@)
            &&& r matches Ok(c) ==> pii_batch_applied(*old(workflow_state), *final(workflow_state), items@, job_id@, texts(c@))
        }),
{
    let ghost start = *workflow_state;
    let ghost orig = items@;
    let ghost subs = start.submissions@;
    let ghost missing = |x: Seq<char>| !has_submission(subs, x);
    let ghost mut chain: Seq<StudentWorkflowState> = seq![start];
    let mut items = items;
    let mut out: Vec<String> = Vec::new();
    let n = items.len();
    let mut i: usize = 0;
    proof {
        assert(items@ =~= orig.skip(0));
        assert(orig.take(0) =~= Seq::<(String, Result<Option<Vec<StudentWorkflowAnswer>>, HostError>)>::empty());
        assert(texts(out@) =~= Seq::<Seq<char>>::empty());
    }
    while i < n
        invariant
            n == orig.len(),
            i <= n,
            items@ == orig.skip(i as int),
            start == *old(workflow_state),
            subs == start.submissions@,
            missing == (|x: Seq<char>| !has_submission(subs, x)),
            forall|w: int| 0 <= w < i ==> has_submission(subs, #[trigger] item_refs(orig)[w]),
            chain.len() == i + 1,
            chain[0] == start,
            chain[i as int] == *workflow_state,
            forall|j: int| 0 <= j < i ==> #[trigger] pii_chain_step(chain, orig, job_id@, j),
            workflow_state.submissions@.len() == subs.len(),
            forall|k: int|
                0 <= k < subs.len() ==> (#[trigger] workflow_state.submissions@[k]).student_ref == subs[k].student_ref,
            texts(out@) == pii_continuing(chain, orig.take(i as int)),
        decreases n - i,
    {
        let ghost cur = *workflow_state;
        let item = items.remove(0);
        proof {
            assert(item == orig[i as int]);
            assert(items@ =~= orig.skip(i + 1));
            assert(item_refs(orig)[i as int] == item.0@);
            lemma_same_refs_same_index(cur.submissions@, subs, item.0@);
        }
        let (student_ref, answers) = item;
        let step = record_pii_outcome(workflow_state, student_ref.as_str(), job_id, answers);
        let go = match step {
            Ok(b) => b,
            Err(e) => {
                proof {
                    assert(item_refs(orig)[i as int] == student_ref@);
                    assert(missing(item_refs(orig)[i as int]));
                    lemma_first_index_is(item_refs(orig), missing, i as int);
                    let tk = orig.take(i as int);
                    assert forall|j: int| 0 <= j < tk.len() implies #[trigger] pii_chain_step(chain, tk, job_id@, j) by {
                        assert(tk[j] == orig[j]);
                        assert(pii_chain_step(chain, orig, job_id@, j));
                    }
                    assert(chain[0] == *old(workflow_state));
                    assert(chain[tk.len() as int] == *workflow_state);
                    assert(pii_steps_applied(*old(workflow_state), *workflow_state, tk, job_id@));
                    assert(first_missing_ref(subs, item_refs(orig)) == i);
                }
                return Err(e);
            },
        };
        proof {
            let next = chain.push(*workflow_state);
            assert forall|j: int| 0 <= j < i + 1 implies #[trigger] pii_chain_step(next, orig, job_id@, j) by {
                assert(next[j] == chain[j]);
                if j < i {
                    assert(next[j + 1] == chain[j + 1]);
                    assert(pii_chain_step(chain, orig, job_id@, j));
                }
            }
            lemma_pii_continuing_prefix(chain, next, orig.take(i as int));
            chain = next;
            let t = orig.take(i + 1);
            assert(t.drop_last() =~= orig.take(i as int));
            assert(t[i as int] == orig[i as int]);
            let k = submission_index(subs, student_ref@);
            assert(student_ref@ == item_refs(orig)[i as int]);
            assert(has_submission(subs, item_refs(orig)[i as int]));
            crate::seqs::lemma_first_index_props(subs, crate::moderation::submission_has_ref(student_ref@));
            assert(0 <= k < subs.len());
            assert forall|w: int| 0 <= w < i + 1 implies has_submission(subs, #[trigger] item_refs(orig)[w]) by {
                if w == i {
                    assert(item_refs(orig)[w] == student_ref@);
                }
            }
            assert(cur.submissions@[k].student_ref == subs[k].student_ref);
            assert forall|kk: int| 0 <= kk < subs.len() implies (#[trigger] workflow_state.submissions@[kk]).student_ref
                == subs[kk].student_ref by {
                if kk != k {
                    assert(workflow_state.submissions@[kk] == cur.submissions@[kk]);
                }
            }
        }
        if go {
            let ghost before = texts(out@);
            out.push(student_ref);
            proof {
                assert(texts(out@) =~= before.push(orig[i as int].0@));
            }
        }
        i += 1;
    }
    proof {
        assert(orig.take(n as int) =~= orig);
        assert(chain[0] == *old(workflow_state));
        lemma_first_index_is(item_refs(orig), missing, n as int);
    }
    Ok(out)
}

proof fn lemma_pii_continuing_prefix(
    chain: Seq<StudentWorkflowState>,
    longer: Seq<StudentWorkflowState>,
    items: Seq<(String, Result<Option<Vec<StudentWorkflowAnswer>>, HostError>)>,
)
    requires
        items.len() < chain.len() <= longer.len(),
        forall|j: int| 0 <= j < chain.len() ==> #[trigger] longer[j] == chain[j],
    ensures
        pii_continuing(longer, items) == pii_continuing(chain, items),
    decreases items.len(),
{
    if items.len() > 0 {
        lemma_pii_continuing_prefix(chain, longer, items.drop_last());
        assert(longer[items.len() - 1] == chain[items.len() - 1]);
    }
}

// ---------------------------------------------------------------------------
// The event reported after the workflow state is saved
// ---------------------------------------------------------------------------

/// `p` is the payload of a workflow-state update:
/// `{workflowStateUpdated: true, studentRef, studentRefs, workflowStatus}`.
pub open spec fn is_workflow_update_payload(
    p: JsonValue,
    student_ref: Option<Seq<char>>,
    student_refs: Seq<Seq<char>>,
    workflow_status: Seq<char>,
) -> bool {
    &&& p is Object
    &&& members_of(p).len() == 4
    &&& members_of(p)[0].key@ == "workflowStateUpdated"@ && members_of(p)[0].value == JsonValue::Bool(true)
    &&& members_of(p)[1].key@ == "studentRef"@ && is_optional_text(members_of(p)[1].value, student_ref)
    &&& members_of(p)[2].key@ == "studentRefs"@ && is_text_array(members_of(p)[2].value, student_refs)
    &&& members_of(p)[3].key@ == "workflowStatus"@ && is_text(members_of(p)[3].value, workflow_status)
}

/// The event that the workflow state was updated, with the worker status
/// and the state's workflow status as it stands.
pub fn workflow_state_updated_event(
    workflow_state: &StudentWorkflowState,
    student_ref: Option<&str>,
    student_refs: &Vec<String>,
    worker_status: WorkerStatus,
) -> (e: RuntimeJobEvent)
    ensures
        e.event_type@ == "workflow_state_updated"@,
        e.command_name@ == "student.workflow"@,
        e.worker_status == worker_status,
        e.request_id is None,
        e.job_id is None,
        is_workflow_update_payload(
            e.payload,
            match student_ref {
                Some(r) => Some(r@),
                None => None,
            },
            texts(student_refs@),
            workflow_state.status@,
        ),
{
    let mut m: Vec<JsonMember> = Vec::new();
    m.push(member("workflowStateUpdated", JsonValue::Bool(true)));
    let sr = match student_ref {
        Some(r) => JsonValue::Text(owned(r)),
        None => JsonValue::Null,
    };
    m.push(member("studentRef", sr));
    m.push(member("studentRefs", text_array(student_refs)));
    m.push(member("workflowStatus", JsonValue::Text(owned(workflow_state.status.as_str()))));
    RuntimeJobEvent {
        event_type: owned("workflow_state_updated"),
        command_name: owned("student.workflow"),
        worker_status,
        request_id: None,
        job_id: None,
        payload: JsonValue::Object(m),
    }
}

/// Before the state of a batch's students is saved, its workflow status is
/// derived again from the submissions; the event then reports the batch's
/// students with the worker status.
pub fn refs_saved_event(
    workflow_state: &mut StudentWorkflowState,
    student_refs: &Vec<String>,
    worker_status: WorkerStatus,
) -> (e: RuntimeJobEvent)
    ensures
        final(workflow_state).status@ == derived_workflow_status(old(workflow_state).submissions@),
        final(workflow_state).submissions == old(workflow_state).submissions,
        final(workflow_state).latest_job_id == old(workflow_state).latest_job_id,
        e.event_type@ == "workflow_state_updated"@,
        e.command_name@ == "student.workflow"@,
        e.worker_status == worker_status,
        e.request_id is None,
        e.job_id is None,
        is_workflow_update_payload(
            e.payload,
            None,
            texts(student_refs@),
            derived_workflow_status(old(workflow_state).submissions@),
        ),
{
    update_workflow_status(workflow_state);
    workflow_state_updated_event(workflow_state, None, student_refs, worker_status)
}

// ---------------------------------------------------------------------------
// A batch job's outcome
// ---------------------------------------------------------------------------

/// How a batch job ended.
#[derive(Debug)]
pub enum BatchJobOutcome<T> {
    /// It finished with this result.
    Finished(T),
    /// It was cancelled.
    Cancelled,
    /// It failed with this error.
    Failed(HostError),
}

/// The message of students stopped by a cancelled batch job.
pub open spec fn batch_cancelled_message() -> Seq<char> {
    "Workflow stopped before this stage completed."@
}

/// A batch job's result goes on to be read; a cancelled job stops the
/// batch's students, and a failed one stops them with its error, and then
/// there is nothing to read (a student without a submission is refused when
/// reached, as `refs_marking` says).
pub fn batch_job_or_stop<T>(
    workflow_state: &mut StudentWorkflowState,
    refs: &Vec<String>,
    outcome: BatchJobOutcome<T>,
) -> (r: Result<Option<T>, HostError>)
    ensures
        match outcome {
            BatchJobOutcome::Finished(v) => r == Ok::<Option<T>, HostError>(Some(v))
                && *final(workflow_state) == *old(workflow_state),
            BatchJobOutcome::Cancelled => (r is Ok ==> r == Ok::<Option<T>, HostError>(None)) && refs_marking(
                *old(workflow_state),
                *final(workflow_state),
                texts(refs@),
                "stopped"@,
                Some(Some(batch_cancelled_message())),
                match r {
                    Ok(_) => Ok(()),
                    Err(x) => Err(x),
                },
            ),
            BatchJobOutcome::Failed(e) => (r is Ok ==> r == Ok::<Option<T>, HostError>(None)) && refs_marking(
                *old(workflow_state),
                *final(workflow_state),
                texts(refs@),
                "stopped"@,
                Some(Some(stopped_message(e))),
                match r {
                    Ok(_) => Ok(()),
                    Err(x) => Err(x),
                },
            ),
        },
{
    match outcome {
        BatchJobOutcome::Finished(v) => Ok(Some(v)),
        BatchJobOutcome::Cancelled => match mark_refs_stopped_with_message(
            workflow_state,
            refs,
            "Workflow stopped before this stage completed.",
        ) {
            Ok(()) => Ok(None),
            Err(x) => Err(x),
        },
        BatchJobOutcome::Failed(e) => match mark_refs_stopped_for_error(workflow_state, refs, &e) {
            Ok(()) => Ok(None),
            Err(x) => Err(x),
        },
    }
}

} // verus!
