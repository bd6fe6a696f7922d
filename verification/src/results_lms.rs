//! Results finalization and LMS upload: the saved assignment, finalization
//! records, the upload preparation of each student, upload attempts and the
//! report images the LMS holds.
use vstd::prelude::*;
use crate::errors::{emit_runtime_job_event, HostError, RuntimeEventSink, RuntimeJobEvent, WorkerStatus};
use crate::json::{is_optional_text, is_text, items_of, member, members_of, JsonMember, JsonValue};
use crate::report::{build_canvas_report_comment_template, max_points_total_fits, report_html, wrapped_report};
use crate::messages::{concat3, validation, validation_text};
use crate::models::{
    LmsRosterCacheSnapshot, LmsRosterCacheStatus, LmsUploadAttemptResult, LmsUploadMode,
    LmsUploadPublishOutcome, LmsUploadStudentResult, LmsUploadStudentStatus,
    ResultFinalizationRecord, ResultStudentRow, ResultsLmsAssetBinding, ResultsLmsState,
    ResultsLmsTarget, ExamWorkspaceState, LmsUploadPreparationRow, LmsUploadReportAsset,
    QuestionRecord, StudentRosterRow, StudentWorkflowSubmission,
};
use crate::sorted::{insert_sorted_text, record_for, record_keys, strictly_sorted, texts, upsert_sorted_record};
use crate::seqs::{any_where, count_where, first_index, keep, lemma_count_step, lemma_first_index_is, lemma_keep_step, retain_where};
use crate::text::{
    ascii_lower, ascii_lowercase, opt_text, owned, push_text, text_eq, trim, trimmed,
};

verus! {

/// How many upload attempts a project keeps.
pub const MAX_UPLOAD_ATTEMPTS: usize = 12;

/// Finalize or un-finalize one student's result.
#[derive(Debug, PartialEq, Eq)]
pub struct SetSubmissionResultFinalizedInput {
    pub student_ref: String,
    pub finalized: bool,
}

/// Finalize the ready results of the listed students (none listed: nothing to do).
#[derive(Debug, PartialEq, Eq)]
pub struct FinalizeReadyResultsInput {
    pub student_refs: Vec<String>,
}

/// Save (or clear, when absent or blank) the LMS assignment results go to.
#[derive(Debug, PartialEq, Eq)]
pub struct SaveResultsLmsAssignmentInput {
    pub assignment_id: Option<String>,
}

/// Upload the results of the listed students.
#[derive(Debug, PartialEq, Eq)]
pub struct RunResultsLmsUploadInput {
    pub mode: LmsUploadMode,
    pub student_refs: Vec<String>,
}

/// Retry the failed rows of an earlier upload attempt.
#[derive(Debug, PartialEq, Eq)]
pub struct RetryResultsLmsUploadInput {
    pub attempt_id: String,
}

// ---------------------------------------------------------------------------
// The saved assignment
// ---------------------------------------------------------------------------

/// The LMS provider of the settings: trimmed, lower-cased, absent when blank.
pub open spec fn active_provider(lms_provider: Seq<char>) -> Option<Seq<char>> {
    if trim(lms_provider).len() == 0 {
        None
    } else {
        Some(ascii_lower(trim(lms_provider)))
    }
}

/// The project's LMS course: trimmed, absent when blank.
pub open spec fn active_course(course_id: Option<String>) -> Option<Seq<char>> {
    match course_id {
        Some(c) => if trim(c@).len() == 0 {
            None
        } else {
            Some(trim(c@))
        },
        None => None,
    }
}

/// An optional text, trimmed.
pub open spec fn trimmed_opt(s: Option<String>) -> Option<Seq<char>> {
    match s {
        Some(t) => Some(trim(t@)),
        None => None,
    }
}

/// Whether the saved assignment no longer fits the active provider and
/// course: a saved target for another provider, course or assignment, or an
/// assignment id with no saved target.
pub open spec fn assignment_context_is_stale(
    target: Option<ResultsLmsTarget>,
    lms_provider: Seq<char>,
    course_id: Option<String>,
    assignment_id: Option<String>,
) -> bool {
    match target {
        Some(t) => Some(ascii_lower(trim(t.provider@))) != active_provider(lms_provider) || Some(
            trim(t.course_id@),
        ) != active_course(course_id) || trimmed_opt(assignment_id) != Some(trim(t.assignment_id@)),
        None => match assignment_id {
            Some(a) => trim(a@).len() > 0,
            None => false,
        },
    }
}

/// A copy of `t`, trimmed, as an optional text.
fn trimmed_option(s: &Option<String>) -> (r: Option<String>)
    ensures
        opt_text(r) == trimmed_opt(*s),
{
    match s {
        Some(t) => Some(trimmed(t.as_str())),
        None => None,
    }
}

fn opt_eq(a: &Option<String>, b: &Option<String>) -> (r: bool)
    ensures
        r == (opt_text(*a) == opt_text(*b)),
{
    crate::text::opt_text_eq(a, b)
}

/// Clears the saved assignment (the project's assignment id and the results
/// target) when it no longer fits the active provider and course. Returns
/// whether it was cleared.
pub fn sync_results_lms_assignment_context(
    lms_provider: &str,
    course_id: &Option<String>,
    assignment_id: &mut Option<String>,
    results_state: &mut ResultsLmsState,
) -> (cleared: bool)
    ensures
        cleared == assignment_context_is_stale(
            old(results_state).selected_target,
            lms_provider@,
            *course_id,
            *old(assignment_id),
        ),
        !cleared ==> *final(assignment_id) == *old(assignment_id) && *final(results_state) == *old(results_state),
        cleared ==> *final(assignment_id) is None && final(results_state).selected_target is None
            && final(results_state).finalization_records == old(results_state).finalization_records
            && final(results_state).asset_bindings == old(results_state).asset_bindings
            && final(results_state).upload_attempts == old(results_state).upload_attempts,
{
    let provider_text = trimmed(lms_provider);
    let active_provider_value = if provider_text.unicode_len() == 0 {
        None
    } else {
        Some(ascii_lowercase(provider_text.as_str()))
    };
    proof {
        assert(active_provider_value matches Some(p) ==> p@ == ascii_lower(trim(lms_provider@)));
    }
    let active_course_value = match course_id {
        Some(c) => {
            let t = trimmed(c.as_str());
            if t.unicode_len() == 0 {
                None
            } else {
                Some(t)
            }
        },
        None => None,
    };
    let assignment_trimmed = trimmed_option(assignment_id);
    let should_clear = match &results_state.selected_target {
        Some(target) => {
            let target_provider = Some(ascii_lowercase(trimmed(target.provider.as_str()).as_str()));
            let target_course = Some(trimmed(target.course_id.as_str()));
            let target_assignment = Some(trimmed(target.assignment_id.as_str()));
            !opt_eq(&target_provider, &active_provider_value) || !opt_eq(
                &target_course,
                &active_course_value,
            ) || !opt_eq(&assignment_trimmed, &target_assignment)
        },
        None => match &assignment_trimmed {
            Some(a) => a.unicode_len() > 0,
            None => false,
        },
    };
    if !should_clear {
        return false;
    }
    *assignment_id = None;
    results_state.selected_target = None;
    true
}

/// Saves the assignment results go to. A blank or absent id clears the
/// target; otherwise `loader` names the active provider and course (or says
/// why none is configured, which is a validation error).
pub fn save_results_lms_assignment(
    input: SaveResultsLmsAssignmentInput,
    loader: Result<(String, String), String>,
    assignment_id: &mut Option<String>,
    results_state: &mut ResultsLmsState,
) -> (r: Result<(), HostError>)
    ensures
        ({
            let wanted = match input.assignment_id {
                Some(a) => trim(a@).len() > 0,
                None => false,
            };
            &&& !wanted ==> r is Ok && *final(assignment_id) is None && final(results_state).selected_target is None
            &&& wanted && loader is Err ==> (r matches Err(e) && e is Validation && e.msg()
                == loader->Err_0@) && *final(assignment_id) == *old(assignment_id) && *final(results_state) == *old(results_state)
            &&& wanted && loader is Ok ==> r is Ok && opt_text(*final(assignment_id)) == Some(
                trim(input.assignment_id->Some_0@),
            ) && (final(results_state).selected_target matches Some(t) && t.provider@
                == loader->Ok_0.0@ && t.course_id@ == loader->Ok_0.1@ && t.assignment_id@ == trim(
                input.assignment_id->Some_0@,
            ))
        }),
        final(results_state).finalization_records == old(results_state).finalization_records,
        final(results_state).asset_bindings == old(results_state).asset_bindings,
        final(results_state).upload_attempts == old(results_state).upload_attempts,
{
    let wanted = match &input.assignment_id {
        Some(a) => {
            let t = trimmed(a.as_str());
            if t.unicode_len() == 0 {
                None
            } else {
                Some(t)
            }
        },
        None => None,
    };
    match wanted {
        Some(id) => {
            match loader {
                Ok((provider, course_id)) => {
                    results_state.selected_target = Some(
                        ResultsLmsTarget { provider, course_id, assignment_id: id.clone() },
                    );
                    *assignment_id = Some(id);
                    Ok(())
                },
                Err(reason) => Err(validation(reason)),
            }
        },
        None => {
            results_state.selected_target = None;
            *assignment_id = None;
            Ok(())
        },
    }
}

// ---------------------------------------------------------------------------
// Finalization
// ---------------------------------------------------------------------------

/// Rows of student `student_ref`.
pub open spec fn row_for(student_ref: Seq<char>) -> spec_fn(ResultStudentRow) -> bool {
    |r: ResultStudentRow| r.student_ref@ == student_ref
}

/// Finalization records of other students than `student_ref`.
pub open spec fn record_not_for(student_ref: Seq<char>) -> spec_fn(ResultFinalizationRecord) -> bool {
    |r: ResultFinalizationRecord| r.student_ref@ != student_ref
}

/// The result row of `student_ref`, or a validation error.
pub fn result_row_for_student<'a>(rows: &'a Vec<ResultStudentRow>, student_ref: &str) -> (r: Result<
    &'a ResultStudentRow,
    HostError,
>)
    ensures
        ({
            let i = first_index(rows@, row_for(student_ref@));
            &&& i <= rows@.len()
            &&& i < rows@.len() ==> (r matches Ok(row) && *row == rows@[i])
            &&& i == rows@.len() ==> (r matches Err(e) && e is Validation && e.msg()
                == "Result row '"@ + student_ref@ + "' was not found."@)
        }),
{
    let mut i: usize = 0;
    while i < rows.len()
        invariant
            i <= rows@.len(),
            forall|k: int| 0 <= k < i ==> !row_for(student_ref@)(#[trigger] rows@[k]),
        decreases rows@.len() - i,
    {
        if text_eq(rows[i].student_ref.as_str(), student_ref) {
            proof {
                lemma_first_index_is(rows@, row_for(student_ref@), i as int);
            }
            return Ok(&rows[i]);
        }
        i += 1;
    }
    proof {
        lemma_first_index_is(rows@, row_for(student_ref@), i as int);
    }
    Err(validation(concat3("Result row '", student_ref, "' was not found.")))
}

/// Drops the finalization records of `student_ref`.
fn remove_records_for(records: &mut Vec<ResultFinalizationRecord>, student_ref: &str)
    ensures
        final(records)@ == keep(old(records)@, record_not_for(student_ref@)),
{
    retain_where(
        records,
        (|r: &ResultFinalizationRecord| -> (b: bool)
            ensures
                b == record_not_for(student_ref@)(*r),
            { !text_eq(r.student_ref.as_str(), student_ref) }),
        Ghost(record_not_for(student_ref@)),
    );
}

/// Finalizes (with the row's current fingerprint, at `finalized_at`) or
/// un-finalizes the result of one student. Only a ready result with a
/// fingerprint can be finalized; the row must exist either way.
pub fn set_submission_result_finalized(
    results_state: &mut ResultsLmsState,
    rows: &Vec<ResultStudentRow>,
    input: SetSubmissionResultFinalizedInput,
    finalized_at: String,
) -> (r: Result<(), HostError>)
    ensures
        ({
            let i = first_index(rows@, row_for(input.student_ref@));
            let row = rows@[i];
            &&& i == rows@.len() ==> (r matches Err(e) && e is Validation && e.msg()
                == "Result row '"@ + input.student_ref@ + "' was not found."@)
            &&& i < rows@.len() && input.finalized && !row.ready_to_finalize ==> (r matches Err(e)
                && e is Validation && e.msg() == "Only ready results can be finalized."@)
            &&& i < rows@.len() && input.finalized && row.ready_to_finalize
                && row.result_fingerprint is None ==> (r matches Err(e) && e is Validation && e.msg()
                == "Ready results must have a current fingerprint."@)
            &&& r is Ok <==> (i < rows@.len() && (!input.finalized || (row.ready_to_finalize
                && row.result_fingerprint is Some)))
            &&& r is Ok && !input.finalized ==> final(results_state).finalization_records@ == keep(
                old(results_state).finalization_records@,
                record_not_for(input.student_ref@),
            )
            &&& r is Ok && input.finalized ==> final(results_state).finalization_records@ == keep(
                old(results_state).finalization_records@,
                record_not_for(input.student_ref@),
            ).push(
                (ResultFinalizationRecord {
                    student_ref: input.student_ref,
                    result_fingerprint: row.result_fingerprint->Some_0,
                    finalized_at,
                }),
            )
        }),
        r is Err ==> *final(results_state) == *old(results_state),
        final(results_state).selected_target == old(results_state).selected_target,
        final(results_state).asset_bindings == old(results_state).asset_bindings,
        final(results_state).upload_attempts == old(results_state).upload_attempts,
{
    let row = result_row_for_student(rows, input.student_ref.as_str())?;
    let mut fingerprint: Option<String> = None;
    if input.finalized {
        if !row.ready_to_finalize {
            return Err(validation_text("Only ready results can be finalized."));
        }
        match &row.result_fingerprint {
            Some(f) => {
                fingerprint = Some(f.clone());
            },
            None => {
                return Err(validation_text("Ready results must have a current fingerprint."));
            },
        }
    }
    remove_records_for(&mut results_state.finalization_records, input.student_ref.as_str());
    if let Some(f) = fingerprint {
        results_state.finalization_records.push(
            ResultFinalizationRecord {
                student_ref: input.student_ref,
                result_fingerprint: f,
                finalized_at,
            },
        );
    }
    Ok(())
}

/// The set of requested references: each one trimmed, blanks left out.
pub open spec fn requested_ref(requested: Seq<String>, x: Seq<char>) -> bool {
    exists|i: int| 0 <= i < requested.len() && trim(#[trigger] requested[i]@) == x && x.len() > 0
}

/// Whether `v` holds the text `x`.
pub open spec fn holds_text(v: Seq<String>, x: Seq<char>) -> bool {
    exists|k: int| 0 <= k < v.len() && #[trigger] v[k]@ == x
}

/// Whether one of the first `n` requested references, trimmed, is `x` (not blank).
pub open spec fn requested_among(requested: Seq<String>, n: int, x: Seq<char>) -> bool {
    exists|k: int| 0 <= k < n && trim(#[trigger] requested[k]@) == x && x.len() > 0
}

/// Whether some row belongs to `student_ref`.
pub open spec fn has_row(rows: Seq<ResultStudentRow>, student_ref: Seq<char>) -> bool {
    exists|i: int| 0 <= i < rows.len() && #[trigger] rows[i].student_ref@ == student_ref
}

/// Requested references, trimmed, that name no row.
pub open spec fn unknown_request(rows: Seq<ResultStudentRow>) -> spec_fn(String) -> bool {
    |s: String| trim(s@).len() > 0 && !has_row(rows, trim(s@))
}

/// Whether a row exists for `student_ref`.
fn row_exists(rows: &Vec<ResultStudentRow>, student_ref: &str) -> (r: bool)
    ensures
        r == has_row(rows@, student_ref@),
{
    let mut i: usize = 0;
    while i < rows.len()
        invariant
            i <= rows@.len(),
            forall|k: int| 0 <= k < i ==> rows@[k].student_ref@ != student_ref@,
        decreases rows@.len() - i,
    {
        if text_eq(rows[i].student_ref.as_str(), student_ref) {
            return true;
        }
        i += 1;
    }
    false
}

/// Whether `v` holds the text `x`.
fn contains_text_item(v: &Vec<String>, x: &str) -> (r: bool)
    ensures
        r == (exists|i: int| 0 <= i < v@.len() && #[trigger] v@[i]@ == x@),
{
    let mut i: usize = 0;
    while i < v.len()
        invariant
            i <= v@.len(),
            forall|k: int| 0 <= k < i ==> v@[k]@ != x@,
        decreases v@.len() - i,
    {
        if text_eq(v[i].as_str(), x) {
            return true;
        }
        i += 1;
    }
    false
}

/// The requested students, trimmed, without blanks or repeats, in the order
/// first requested. The first reference that names no result row is an error.
pub fn normalize_requested_student_refs(requested: &Vec<String>, rows: &Vec<ResultStudentRow>) -> (r:
    Result<Vec<String>, HostError>)
    ensures
        ({
            let u = first_index(requested@, unknown_request(rows@));
            &&& u <= requested@.len()
            &&& u < requested@.len() ==> (r matches Err(e) && e is Validation && e.msg()
                == "Result row '"@ + trim(requested@[u]@) + "' was not found."@)
            &&& u == requested@.len() ==> (r matches Ok(out) && (forall|x: Seq<char>|
                #[trigger] holds_text(out@, x) <==> requested_ref(requested@, x)) && (forall|
                a: int,
                b: int,
            | 0 <= a < b < out@.len() ==> out@[a]@ != out@[b]@))
        }),
{
    let mut out: Vec<String> = Vec::new();
    let mut i: usize = 0;
    while i < requested.len()
        invariant
            i <= requested@.len(),
            forall|k: int| 0 <= k < i ==> !unknown_request(rows@)(#[trigger] requested@[k]),
            forall|x: Seq<char>| #[trigger] holds_text(out@, x) <==> requested_among(requested@, i as int, x),
            forall|a: int, b: int| 0 <= a < b < out@.len() ==> out@[a]@ != out@[b]@,
        decreases requested@.len() - i,
    {
        let t = trimmed(requested[i].as_str());
        let ghost before = out@;
        if t.unicode_len() > 0 {
            if !row_exists(rows, t.as_str()) {
                proof {
                    lemma_first_index_is(requested@, unknown_request(rows@), i as int);
                }
                return Err(validation(concat3("Result row '", t.as_str(), "' was not found.")));
            }
            if !contains_text_item(&out, t.as_str()) {
                out.push(t);
                proof {
                    assert forall|x: Seq<char>| #[trigger] holds_text(out@, x) <==> requested_among(
                        requested@,
                        i + 1,
                        x,
                    ) by {
                        if holds_text(out@, x) {
                            let k = choose|k: int| 0 <= k < out@.len() && #[trigger] out@[k]@ == x;
                            if k < before.len() {
                                assert(before[k] == out@[k]);
                                assert(holds_text(before, x));
                            } else {
                                assert(trim(requested@[i as int]@) == x);
                            }
                        }
                        if requested_among(requested@, i + 1, x) {
                            let k = choose|k: int|
                                0 <= k < i + 1 && trim(#[trigger] requested@[k]@) == x && x.len() > 0;
                            if k < i {
                                assert(requested_among(requested@, i as int, x));
                                assert(holds_text(before, x));
                                let w = choose|w: int| 0 <= w < before.len() && #[trigger] before[w]@ == x;
                                assert(out@[w] == before[w]);
                            } else {
                                assert(out@[before.len() as int]@ == x);
                            }
                        }
                    }
                    assert forall|a: int, b: int| 0 <= a < b < out@.len() implies out@[a]@ != out@[b]@ by {
                        if b == before.len() {
                            assert(out@[a] == before[a]);
                            if out@[a]@ == out@[b]@ {
                                assert(holds_text(before, t@));
                            }
                        } else {
                            assert(out@[a] == before[a]);
                            assert(out@[b] == before[b]);
                        }
                    }
                }
            } else {
                proof {
                    assert forall|x: Seq<char>| #[trigger] holds_text(out@, x) <==> requested_among(
                        requested@,
                        i + 1,
                        x,
                    ) by {
                        if requested_among(requested@, i + 1, x) {
                            let k = choose|k: int|
                                0 <= k < i + 1 && trim(#[trigger] requested@[k]@) == x && x.len() > 0;
                            if k < i {
                                assert(requested_among(requested@, i as int, x));
                            } else {
                                assert(holds_text(out@, t@));
                            }
                        }
                        if holds_text(out@, x) {
                            assert(requested_among(requested@, i as int, x));
                            let k = choose|k: int|
                                0 <= k < i && trim(#[trigger] requested@[k]@) == x && x.len() > 0;
                            assert(0 <= k < i + 1 && trim(requested@[k]@) == x);
                        }
                    }
                }
            }
        } else {
            proof {
                assert forall|x: Seq<char>| #[trigger] holds_text(out@, x) <==> requested_among(
                    requested@,
                    i + 1,
                    x,
                ) by {
                    if requested_among(requested@, i + 1, x) {
                        let k = choose|k: int|
                            0 <= k < i + 1 && trim(#[trigger] requested@[k]@) == x && x.len() > 0;
                        assert(k != i);
                        assert(requested_among(requested@, i as int, x));
                    }
                    if holds_text(out@, x) {
                        assert(requested_among(requested@, i as int, x));
                        let k = choose|k: int|
                            0 <= k < i && trim(#[trigger] requested@[k]@) == x && x.len() > 0;
                        assert(0 <= k < i + 1 && trim(requested@[k]@) == x);
                    }
                }
            }
        }
        i += 1;
    }
    proof {
        lemma_first_index_is(requested@, unknown_request(rows@), i as int);
        assert forall|x: Seq<char>| #[trigger] holds_text(out@, x) <==> requested_ref(requested@, x) by {
            if requested_ref(requested@, x) {
                let k = choose|k: int| 0 <= k < requested@.len() && trim(#[trigger] requested@[k]@) == x && x.len() > 0;
                assert(requested_among(requested@, i as int, x));
            }
            if holds_text(out@, x) {
                assert(requested_among(requested@, i as int, x));
                let k = choose|k: int| 0 <= k < i && trim(#[trigger] requested@[k]@) == x && x.len() > 0;
                assert(0 <= k < requested@.len() && trim(requested@[k]@) == x);
            }
        }
    }
    Ok(out)
}

/// Whether `row` may be finalized now as part of the request `requested`.
pub open spec fn finalizable_row(row: ResultStudentRow, requested: Seq<String>) -> bool {
    holds_text(requested, row.student_ref@) && row.ready_to_finalize && row.result_fingerprint is Some
}

/// The finalization record for a requested, ready row with a fingerprint.
pub fn finalized_record_for_requested_row(
    row: &ResultStudentRow,
    requested: &Vec<String>,
    finalized_at: &str,
) -> (r: Option<ResultFinalizationRecord>)
    ensures
        r is Some <==> finalizable_row(*row, requested@),
        !row.ready_to_finalize ==> r is None,
        r matches Some(rec) ==> rec.student_ref@ == row.student_ref@ && rec.result_fingerprint@
            == row.result_fingerprint->Some_0@ && rec.finalized_at@ == finalized_at@,
{
    if !contains_text_item(requested, row.student_ref.as_str()) || !row.ready_to_finalize {
        return None;
    }
    match &row.result_fingerprint {
        Some(f) => Some(
            ResultFinalizationRecord {
                student_ref: row.student_ref.clone(),
                result_fingerprint: f.clone(),
                finalized_at: owned(finalized_at),
            },
        ),
        None => None,
    }
}

// ---------------------------------------------------------------------------
// Upload targets and preflight
// ---------------------------------------------------------------------------

/// Checks that a retry goes to the assignment of the attempt it retries.
pub fn validate_retry_target(
    selected_target: Option<&ResultsLmsTarget>,
    prior_attempt: &LmsUploadAttemptResult,
) -> (r: Result<(), HostError>)
    ensures
        match selected_target {
            None => r matches Err(e) && e is Validation && e.msg()
                == "Re-select the LMS assignment used for this upload attempt before retrying failed rows."@,
            Some(t) => if t.provider@ == prior_attempt.provider@ && t.course_id@
                == prior_attempt.course_id@ && t.assignment_id@ == prior_attempt.assignment_id@ {
                r is Ok
            } else {
                r matches Err(e) && e is Validation && e.msg()
                    == "The selected LMS assignment no longer matches the chosen upload attempt. Re-select the original assignment before retrying failed rows."@
            },
        },
{
    let target = match selected_target {
        Some(t) => t,
        None => {
            return Err(
                validation_text(
                    "Re-select the LMS assignment used for this upload attempt before retrying failed rows.",
                ),
            );
        },
    };
    if !text_eq(target.provider.as_str(), prior_attempt.provider.as_str()) || !text_eq(
        target.course_id.as_str(),
        prior_attempt.course_id.as_str(),
    ) || !text_eq(target.assignment_id.as_str(), prior_attempt.assignment_id.as_str()) {
        return Err(
            validation_text(
                "The selected LMS assignment no longer matches the chosen upload attempt. Re-select the original assignment before retrying failed rows.",
            ),
        );
    }
    Ok(())
}

/// Checks that the saved assignment is the one the active publisher posts to.
pub fn validate_active_upload_target(selected_target: &ResultsLmsTarget, publisher: &ResultsLmsTarget) -> (r:
    Result<(), HostError>)
    ensures
        (publisher.provider@ == selected_target.provider@ && publisher.course_id@
            == selected_target.course_id@ && publisher.assignment_id@ == selected_target.assignment_id@)
            ==> r is Ok,
        !(publisher.provider@ == selected_target.provider@ && publisher.course_id@
            == selected_target.course_id@ && publisher.assignment_id@ == selected_target.assignment_id@)
            ==> (r matches Err(e) && e is Validation && e.msg()
            == "The saved LMS assignment no longer matches the active LMS configuration. Choose the assignment again before upload."@),
{
    if text_eq(publisher.provider.as_str(), selected_target.provider.as_str()) && text_eq(
        publisher.course_id.as_str(),
        selected_target.course_id.as_str(),
    ) && text_eq(publisher.assignment_id.as_str(), selected_target.assignment_id.as_str()) {
        return Ok(());
    }
    Err(
        validation_text(
            "The saved LMS assignment no longer matches the active LMS configuration. Choose the assignment again before upload.",
        ),
    )
}

/// Checks that the roster cache is ready and belongs to this project, course
/// and provider.
pub fn validate_roster_cache(
    roster_cache: &LmsRosterCacheSnapshot,
    workspace: &ExamWorkspaceState,
    selected_target: &ResultsLmsTarget,
) -> (r: Result<(), HostError>)
    ensures
        ({
            let not_ready = roster_cache.status != LmsRosterCacheStatus::Ready;
            let other_project = opt_text(roster_cache.project_path) != Some(
                workspace.project.project_path@,
            );
            let other_course = opt_text(roster_cache.course_id) != Some(selected_target.course_id@);
            let other_provider = opt_text(roster_cache.lms_provider) != Some(selected_target.provider@);
            &&& not_ready ==> (r matches Err(e) && e is Validation && e.msg()
                == "The LMS roster cache is not ready. Refresh the roster before upload."@)
            &&& !not_ready && other_project ==> (r matches Err(e) && e is Validation && e.msg()
                == "The LMS roster cache belongs to a different project. Refresh the roster before upload."@)
            &&& !not_ready && !other_project && other_course ==> (r matches Err(e) && e is Validation
                && e.msg()
                == "The LMS roster cache does not match the selected course. Refresh the roster before upload."@)
            &&& !not_ready && !other_project && !other_course && other_provider ==> (r matches Err(e)
                && e is Validation && e.msg()
                == "The LMS roster cache does not match the selected provider. Refresh the roster before upload."@)
            &&& (r is Ok <==> !not_ready && !other_project && !other_course && !other_provider)
        }),
{
    if roster_cache.status != LmsRosterCacheStatus::Ready {
        return Err(
            validation_text("The LMS roster cache is not ready. Refresh the roster before upload."),
        );
    }
    let same_project = match &roster_cache.project_path {
        Some(p) => text_eq(p.as_str(), workspace.project.project_path.as_str()),
        None => false,
    };
    if !same_project {
        return Err(
            validation_text(
                "The LMS roster cache belongs to a different project. Refresh the roster before upload.",
            ),
        );
    }
    let same_course = match &roster_cache.course_id {
        Some(c) => text_eq(c.as_str(), selected_target.course_id.as_str()),
        None => false,
    };
    if !same_course {
        return Err(
            validation_text(
                "The LMS roster cache does not match the selected course. Refresh the roster before upload.",
            ),
        );
    }
    let same_provider = match &roster_cache.lms_provider {
        Some(p) => text_eq(p.as_str(), selected_target.provider.as_str()),
        None => false,
    };
    if !same_provider {
        return Err(
            validation_text(
                "The LMS roster cache does not match the selected provider. Refresh the roster before upload.",
            ),
        );
    }
    Ok(())
}

/// A failed upload outcome for `row`, found before publishing.
pub fn build_preflight_failure(row: &ResultStudentRow, result_fingerprint: String, message: &str) -> (r:
    LmsUploadStudentResult)
    ensures
        r.student_ref@ == row.student_ref@,
        r.result_fingerprint == result_fingerprint,
        r.status == LmsUploadStudentStatus::Failed,
        opt_text(r.sanitized_error) == Some(message@),
{
    LmsUploadStudentResult {
        student_ref: row.student_ref.clone(),
        result_fingerprint,
        status: LmsUploadStudentStatus::Failed,
        sanitized_error: Some(owned(message)),
    }
}

// ---------------------------------------------------------------------------
// Upload attempts
// ---------------------------------------------------------------------------

/// Outcomes that count as a success.
pub open spec fn succeeded() -> spec_fn(LmsUploadStudentResult) -> bool {
    |r: LmsUploadStudentResult| r.status == LmsUploadStudentStatus::Ready || r.status
        == LmsUploadStudentStatus::Uploaded
}

/// Outcomes that count as a failure.
pub open spec fn failed() -> spec_fn(LmsUploadStudentResult) -> bool {
    |r: LmsUploadStudentResult| r.status == LmsUploadStudentStatus::Failed
}

/// A lower-case hexadecimal digit.
pub open spec fn lower_hex_char(c: char) -> bool {
    ('0' <= c && c <= '9') || ('a' <= c && c <= 'f')
}

/// The places of the hyphens in a hyphenated UUID.
pub open spec fn uuid_hyphen_at(i: int) -> bool {
    i == 8 || i == 13 || i == 18 || i == 23
}

/// `Uuid::new_v4().simple().to_string()`: a fresh random identifier, the 32
/// lower-case hexadecimal digits of a version-4 UUID (its value is left
/// open: it is random).
#[verifier::external_body]
fn new_unique_suffix() -> (r: String)
    ensures
        r@.len() == 32,
        forall|i: int| 0 <= i < 32 ==> lower_hex_char(#[trigger] r@[i]),
{
    uuid::Uuid::new_v4().simple().to_string()
}

/// `Uuid::new_v4().to_string()`: a fresh random identifier, a version-4
/// UUID in its hyphenated lower-case form (36 characters, hyphens at 8, 13,
/// 18 and 23, hexadecimal digits elsewhere; its value is left open: it is
/// random).
#[verifier::external_body]
fn new_hyphenated_uuid() -> (r: String)
    ensures
        r@.len() == 36,
        forall|i: int| 0 <= i < 36 ==> if uuid_hyphen_at(i) {
            #[trigger] r@[i] == '-'
        } else {
            lower_hex_char(r@[i])
        },
{
    uuid::Uuid::new_v4().to_string()
}

/// A fresh upload batch id: `results_upload_` and a random version-4 UUID in
/// its hyphenated form.
pub fn new_upload_batch_id() -> (r: String)
    ensures
        r@.len() == 15 + 36,
        r@.take(15) == "results_upload_"@,
        forall|i: int| 15 <= i < 51 ==> if uuid_hyphen_at(i - 15) {
            #[trigger] r@[i] == '-'
        } else {
            lower_hex_char(r@[i])
        },
{
    let mut id = owned("results_upload_");
    let uuid = new_hyphenated_uuid();
    push_text(&mut id, uuid.as_str());
    proof {
        reveal_strlit("results_upload_");
        assert(id@.take(15) =~= "results_upload_"@);
        assert forall|i: int| 15 <= i < 51 implies if uuid_hyphen_at(i - 15) {
            #[trigger] id@[i] == '-'
        } else {
            lower_hex_char(id@[i])
        } by {
            assert(id@[i] == uuid@[i - 15]);
        }
    }
    id
}

/// Counts the outcomes of `results` that satisfy `p`.
fn count_results(results: &Vec<LmsUploadStudentResult>, success: bool) -> (n: i64)
    requires
        results@.len() <= i64::MAX,
    ensures
        n == count_where(results@, if success { succeeded() } else { failed() }),
{
    let ghost p = if success { succeeded() } else { failed() };
    let mut n: i64 = 0;
    let mut i: usize = 0;
    proof {
        assert(results@.take(0) =~= Seq::<LmsUploadStudentResult>::empty());
    }
    while i < results.len()
        invariant
            i <= results@.len(),
            results@.len() <= i64::MAX,
            p == (if success { succeeded() } else { failed() }),
            n == count_where(results@.take(i as int), p),
            n <= i,
        decreases results@.len() - i,
    {
        proof {
            lemma_count_step(results@, p, i as int);
        }
        let s = results[i].status;
        let hit = if success {
            s == LmsUploadStudentStatus::Ready || s == LmsUploadStudentStatus::Uploaded
        } else {
            s == LmsUploadStudentStatus::Failed
        };
        if hit {
            n = n + 1;
        }
        i += 1;
    }
    proof {
        assert(results@.take(i as int) =~= results@);
    }
    n
}

/// The record of one upload run: its target, mode, times and per-student
/// outcomes, with how many were attempted, succeeded (ready or uploaded) and
/// failed. The attempt id is `attempt_` and a fresh random suffix.
pub fn build_upload_attempt(
    selected_target: &ResultsLmsTarget,
    mode: LmsUploadMode,
    started_at: String,
    finished_at: String,
    student_results: Vec<LmsUploadStudentResult>,
) -> (a: LmsUploadAttemptResult)
    requires
        student_results@.len() <= i64::MAX,
    ensures
        a.attempt_id@.len() == 8 + 32,
        a.attempt_id@.take(8) == "attempt_"@,
        forall|i: int| 8 <= i < 40 ==> lower_hex_char(#[trigger] a.attempt_id@[i]),
        a.mode == mode,
        a.provider == selected_target.provider,
        a.course_id == selected_target.course_id,
        a.assignment_id == selected_target.assignment_id,
        a.started_at == started_at,
        a.finished_at == finished_at,
        a.attempted_count == student_results@.len(),
        a.success_count == count_where(student_results@, succeeded()),
        a.failure_count == count_where(student_results@, failed()),
        a.student_results == student_results,
{
    let success_count = count_results(&student_results, true);
    let failure_count = count_results(&student_results, false);
    let attempted_count = student_results.len() as i64;
    let mut attempt_id = owned("attempt_");
    let suffix = new_unique_suffix();
    push_text(&mut attempt_id, suffix.as_str());
    proof {
        reveal_strlit("attempt_");
        assert(attempt_id@.take(8) =~= "attempt_"@);
        assert forall|i: int| 8 <= i < 40 implies lower_hex_char(#[trigger] attempt_id@[i]) by {
            assert(attempt_id@[i] == suffix@[i - 8]);
        }
    }
    LmsUploadAttemptResult {
        attempt_id,
        mode,
        provider: selected_target.provider.clone(),
        course_id: selected_target.course_id.clone(),
        assignment_id: selected_target.assignment_id.clone(),
        started_at,
        finished_at,
        attempted_count,
        success_count,
        failure_count,
        student_results,
    }
}

/// The upload attempts a project keeps: the last `MAX_UPLOAD_ATTEMPTS`.
pub open spec fn kept_attempts(attempts: Seq<LmsUploadAttemptResult>) -> Seq<LmsUploadAttemptResult> {
    if attempts.len() <= MAX_UPLOAD_ATTEMPTS {
        attempts
    } else {
        attempts.skip(attempts.len() - MAX_UPLOAD_ATTEMPTS)
    }
}

/// Drops the oldest upload attempts beyond the most recent `MAX_UPLOAD_ATTEMPTS`.
pub fn trim_upload_attempt_history(state: &mut ResultsLmsState)
    ensures
        final(state).upload_attempts@ == kept_attempts(old(state).upload_attempts@),
        final(state).selected_target == old(state).selected_target,
        final(state).finalization_records == old(state).finalization_records,
        final(state).asset_bindings == old(state).asset_bindings,
{
    trim_attempts(&mut state.upload_attempts);
}

fn trim_attempts(attempts: &mut Vec<LmsUploadAttemptResult>)
    ensures
        final(attempts)@ == kept_attempts(old(attempts)@),
{
    if attempts.len() <= MAX_UPLOAD_ATTEMPTS {
        return ;
    }
    let remove_count = attempts.len() - MAX_UPLOAD_ATTEMPTS;
    let ghost orig = attempts@;
    let mut removed: usize = 0;
    while removed < remove_count
        invariant
            orig == old(attempts)@,
            remove_count == orig.len() - MAX_UPLOAD_ATTEMPTS,
            removed <= remove_count,
            attempts@ == orig.skip(removed as int),
        decreases remove_count - removed,
    {
        let _dropped = attempts.remove(0);
        proof {
            assert(attempts@ =~= orig.skip(removed + 1));
        }
        removed += 1;
    }
}

/// Whether `binding` belongs to the assignment `provider`/`course_id`/`assignment_id`
/// and to `student_ref`.
pub open spec fn binding_is_for(
    binding: ResultsLmsAssetBinding,
    provider: Seq<char>,
    course_id: Seq<char>,
    assignment_id: Seq<char>,
    student_ref: Seq<char>,
) -> bool {
    binding.provider@ == provider && binding.course_id@ == course_id && binding.assignment_id@
        == assignment_id && binding.student_ref@ == student_ref
}

/// Whether `binding` belongs to the given assignment and student.
pub fn binding_matches_target_student(
    binding: &ResultsLmsAssetBinding,
    provider: &str,
    course_id: &str,
    assignment_id: &str,
    student_ref: &str,
) -> (r: bool)
    ensures
        r == binding_is_for(*binding, provider@, course_id@, assignment_id@, student_ref@),
{
    text_eq(binding.provider.as_str(), provider) && text_eq(binding.course_id.as_str(), course_id)
        && text_eq(binding.assignment_id.as_str(), assignment_id) && text_eq(
        binding.student_ref.as_str(),
        student_ref,
    )
}

/// Bindings that do not belong to `target` and `student_ref`.
pub open spec fn binding_kept(target: ResultsLmsTarget, student_ref: Seq<char>) -> spec_fn(
    ResultsLmsAssetBinding,
) -> bool {
    |b: ResultsLmsAssetBinding|
        !binding_is_for(b, target.provider@, target.course_id@, target.assignment_id@, student_ref)
}

/// The bindings after one publish outcome: an uploaded student's bindings
/// for the target are replaced by the ones the LMS now holds.
pub open spec fn bindings_after_outcome(
    bindings: Seq<ResultsLmsAssetBinding>,
    target: ResultsLmsTarget,
    outcome: LmsUploadPublishOutcome,
) -> Seq<ResultsLmsAssetBinding> {
    if outcome.student_result.status == LmsUploadStudentStatus::Uploaded {
        keep(bindings, binding_kept(target, outcome.student_result.student_ref@))
            + outcome.active_asset_bindings@
    } else {
        bindings
    }
}

/// The bindings after the outcomes, taken in order.
pub open spec fn bindings_after_outcomes(
    bindings: Seq<ResultsLmsAssetBinding>,
    target: ResultsLmsTarget,
    outcomes: Seq<LmsUploadPublishOutcome>,
) -> Seq<ResultsLmsAssetBinding>
    decreases outcomes.len(),
{
    if outcomes.len() == 0 {
        bindings
    } else {
        bindings_after_outcome(
            bindings_after_outcomes(bindings, target, outcomes.drop_last()),
            target,
            outcomes.last(),
        )
    }
}

/// Drops the bindings of `target` and `student_ref`.
fn remove_bindings_for(
    bindings: &mut Vec<ResultsLmsAssetBinding>,
    target: &ResultsLmsTarget,
    student_ref: &str,
)
    ensures
        final(bindings)@ == keep(old(bindings)@, binding_kept(*target, student_ref@)),
{
    retain_where(
        bindings,
        (|b: &ResultsLmsAssetBinding| -> (k: bool)
            ensures
                k == binding_kept(*target, student_ref@)(*b),
            {
                !binding_matches_target_student(
                    b,
                    target.provider.as_str(),
                    target.course_id.as_str(),
                    target.assignment_id.as_str(),
                    student_ref,
                )
            }),
        Ghost(binding_kept(*target, student_ref@)),
    );
}

/// Appends copies of `extra` to `bindings`.
fn append_bindings(bindings: &mut Vec<ResultsLmsAssetBinding>, extra: &Vec<ResultsLmsAssetBinding>)
    ensures
        final(bindings)@ == old(bindings)@ + extra@,
{
    let mut i: usize = 0;
    while i < extra.len()
        invariant
            i <= extra@.len(),
            bindings@ == old(bindings)@ + extra@.take(i as int),
        decreases extra@.len() - i,
    {
        bindings.push(extra[i].clone());
        proof {
            assert(extra@.take(i + 1) =~= extra@.take(i as int).push(extra@[i as int]));
        }
        i += 1;
    }
    proof {
        assert(extra@.take(i as int) =~= extra@);
    }
}

fn apply_bindings(
    bindings: &mut Vec<ResultsLmsAssetBinding>,
    target: &ResultsLmsTarget,
    outcomes: &Vec<LmsUploadPublishOutcome>,
)
    ensures
        final(bindings)@ == bindings_after_outcomes(old(bindings)@, *target, outcomes@),
{
    let mut i: usize = 0;
    proof {
        assert(outcomes@.take(0) =~= Seq::<LmsUploadPublishOutcome>::empty());
    }
    while i < outcomes.len()
        invariant
            i <= outcomes@.len(),
            bindings@ == bindings_after_outcomes(old(bindings)@, *target, outcomes@.take(i as int)),
        decreases outcomes@.len() - i,
    {
        proof {
            assert(outcomes@.take(i + 1).drop_last() =~= outcomes@.take(i as int));
        }
        let outcome = &outcomes[i];
        if outcome.student_result.status == LmsUploadStudentStatus::Uploaded {
            remove_bindings_for(bindings, target, outcome.student_result.student_ref.as_str());
            append_bindings(bindings, &outcome.active_asset_bindings);
        }
        i += 1;
    }
    proof {
        assert(outcomes@.take(i as int) =~= outcomes@);
    }
}

/// Records the report images the LMS now holds: for each uploaded student,
/// in order, the bindings of the target and student are replaced by the
/// bindings the publish returned.
pub fn apply_published_asset_bindings(
    results_state: &mut ResultsLmsState,
    selected_target: &ResultsLmsTarget,
    published_outcomes: &Vec<LmsUploadPublishOutcome>,
)
    ensures
        final(results_state).asset_bindings@ == bindings_after_outcomes(
            old(results_state).asset_bindings@,
            *selected_target,
            published_outcomes@,
        ),
        final(results_state).selected_target == old(results_state).selected_target,
        final(results_state).finalization_records == old(results_state).finalization_records,
        final(results_state).upload_attempts == old(results_state).upload_attempts,
{
    apply_bindings(&mut results_state.asset_bindings, selected_target, published_outcomes);
}

/// Saves an upload run: the attempt joins the history, the LMS bindings of
/// the uploaded students are replaced, and only the most recent attempts are kept.
pub fn persist_upload_attempt(
    results_state: &mut ResultsLmsState,
    selected_target: &ResultsLmsTarget,
    attempt: LmsUploadAttemptResult,
    published_outcomes: &Vec<LmsUploadPublishOutcome>,
)
    ensures
        final(results_state).upload_attempts@ == kept_attempts(
            old(results_state).upload_attempts@.push(attempt),
        ),
        final(results_state).asset_bindings@ == bindings_after_outcomes(
            old(results_state).asset_bindings@,
            *selected_target,
            published_outcomes@,
        ),
        final(results_state).selected_target == old(results_state).selected_target,
        final(results_state).finalization_records == old(results_state).finalization_records,
{
    results_state.upload_attempts.push(attempt);
    apply_published_asset_bindings(results_state, selected_target, published_outcomes);
    trim_upload_attempt_history(results_state);
}

/// Attempts with id `attempt_id`.
pub open spec fn attempt_with_id(attempt_id: Seq<char>) -> spec_fn(LmsUploadAttemptResult) -> bool {
    |a: LmsUploadAttemptResult| a.attempt_id@ == attempt_id
}

/// The upload attempt with id `attempt_id`, or a validation error.
pub fn find_upload_attempt<'a>(state: &'a ResultsLmsState, attempt_id: &str) -> (r: Result<
    &'a LmsUploadAttemptResult,
    HostError,
>)
    ensures
        ({
            let i = first_index(state.upload_attempts@, attempt_with_id(attempt_id@));
            &&& i <= state.upload_attempts@.len()
            &&& i < state.upload_attempts@.len() ==> (r matches Ok(a) && *a == state.upload_attempts@[i])
            &&& i == state.upload_attempts@.len() ==> (r matches Err(e) && e is Validation && e.msg()
                == "The selected upload attempt was not found."@)
        }),
{
    let attempts = &state.upload_attempts;
    let mut i: usize = 0;
    while i < attempts.len()
        invariant
            attempts == state.upload_attempts,
            i <= attempts@.len(),
            forall|k: int| 0 <= k < i ==> !attempt_with_id(attempt_id@)(#[trigger] attempts@[k]),
        decreases attempts@.len() - i,
    {
        if text_eq(attempts[i].attempt_id.as_str(), attempt_id) {
            proof {
                lemma_first_index_is(attempts@, attempt_with_id(attempt_id@), i as int);
            }
            return Ok(&attempts[i]);
        }
        i += 1;
    }
    proof {
        lemma_first_index_is(attempts@, attempt_with_id(attempt_id@), i as int);
    }
    Err(validation_text("The selected upload attempt was not found."))
}

/// What a retry of an upload attempt does: the attempt's mode and the
/// students whose upload failed in it.
#[derive(Debug)]
pub struct UploadRetryPlan {
    pub mode: LmsUploadMode,
    pub student_refs: Vec<String>,
}

/// Plans the retry of upload attempt `input.attempt_id`: the attempt must
/// exist, the selected target must still be the attempt's, and it must have
/// failed rows, which are retried in the attempt's mode.
pub fn plan_upload_retry(
    selected_target: Option<&ResultsLmsTarget>,
    results_state: &ResultsLmsState,
    input: &RetryResultsLmsUploadInput,
) -> (r: Result<UploadRetryPlan, HostError>)
    ensures
        ({
            let attempts = results_state.upload_attempts@;
            let i = first_index(attempts, attempt_with_id(input.attempt_id@));
            &&& i == attempts.len() ==> (r matches Err(e) && e is Validation && e.msg()
                == "The selected upload attempt was not found."@)
            &&& i < attempts.len() ==> {
                let a = attempts[i];
                let target_ok = match selected_target {
                    Some(t) => t.provider@ == a.provider@ && t.course_id@ == a.course_id@ && t.assignment_id@
                        == a.assignment_id@,
                    None => false,
                };
                let failures = keep(a.student_results@, failed());
                &&& selected_target is None ==> (r matches Err(e) && e is Validation && e.msg()
                    == "Re-select the LMS assignment used for this upload attempt before retrying failed rows."@)
                &&& selected_target is Some && !target_ok ==> (r matches Err(e) && e is Validation && e.msg()
                    == "The selected LMS assignment no longer matches the chosen upload attempt. Re-select the original assignment before retrying failed rows."@)
                &&& target_ok && failures.len() == 0 ==> (r matches Err(e) && e is Validation && e.msg()
                    == "The selected upload attempt has no failed rows to retry."@)
                &&& r is Ok <==> target_ok && failures.len() > 0
                &&& r matches Ok(plan) ==> plan.mode == a.mode && plan.student_refs@.len() == failures.len()
                    && forall|k: int| 0 <= k < failures.len() ==> (#[trigger] plan.student_refs@[k])@
                    == failures[k].student_ref@
            }
        }),
{
    let attempt = find_upload_attempt(results_state, input.attempt_id.as_str())?;
    validate_retry_target(selected_target, attempt)?;
    let student_refs = retry_student_refs(attempt)?;
    Ok(UploadRetryPlan { mode: attempt.mode, student_refs })
}

/// The students whose upload failed in `attempt`, in attempt order; an
/// attempt without failures cannot be retried.
pub fn retry_student_refs(attempt: &LmsUploadAttemptResult) -> (r: Result<Vec<String>, HostError>)
    ensures
        keep(attempt.student_results@, failed()).len() == 0 ==> (r matches Err(e) && e is Validation
            && e.msg() == "The selected upload attempt has no failed rows to retry."@),
        keep(attempt.student_results@, failed()).len() > 0 ==> (r matches Ok(refs) && refs@.len()
            == keep(attempt.student_results@, failed()).len() && (forall|i: int|
            0 <= i < refs@.len() ==> (#[trigger] refs@[i])@ == keep(
                attempt.student_results@,
                failed(),
            )[i].student_ref@)),
{
    let results = &attempt.student_results;
    let mut refs: Vec<String> = Vec::new();
    let mut i: usize = 0;
    proof {
        assert(results@.take(0) =~= Seq::<LmsUploadStudentResult>::empty());
    }
    while i < results.len()
        invariant
            i <= results@.len(),
            refs@.len() == keep(results@.take(i as int), failed()).len(),
            forall|k: int|
                0 <= k < refs@.len() ==> (#[trigger] refs@[k])@ == keep(
                    results@.take(i as int),
                    failed(),
                )[k].student_ref@,
        decreases results@.len() - i,
    {
        proof {
            lemma_keep_step(results@, failed(), i as int);
        }
        if results[i].status == LmsUploadStudentStatus::Failed {
            refs.push(results[i].student_ref.clone());
        }
        i += 1;
    }
    proof {
        assert(results@.take(i as int) =~= results@);
    }
    if refs.len() == 0 {
        return Err(validation_text("The selected upload attempt has no failed rows to retry."));
    }
    Ok(refs)
}


// ---------------------------------------------------------------------------
// Finalizing many results
// ---------------------------------------------------------------------------

/// The texts of a finalization record: student, fingerprint and time.
pub open spec fn record_view(r: ResultFinalizationRecord) -> (Seq<char>, Seq<char>, Seq<char>) {
    (r.student_ref@, r.result_fingerprint@, r.finalized_at@)
}

pub open spec fn opt_record_view(r: Option<ResultFinalizationRecord>) -> Option<(Seq<char>, Seq<char>, Seq<char>)> {
    match r {
        Some(x) => Some(record_view(x)),
        None => None,
    }
}

/// The last record of student `k` among `records`.
pub open spec fn last_record_view(records: Seq<ResultFinalizationRecord>, k: Seq<char>) -> Option<
    (Seq<char>, Seq<char>, Seq<char>),
>
    decreases records.len(),
{
    if records.len() == 0 {
        None
    } else if records.last().student_ref@ == k {
        Some(record_view(records.last()))
    } else {
        last_record_view(records.drop_last(), k)
    }
}

/// The record that finalizing at `now` makes for student `k`: from the last
/// row of `k` that the request names, that is ready and has a fingerprint.
pub open spec fn last_finalized_view(
    rows: Seq<ResultStudentRow>,
    requested: Seq<String>,
    now: Seq<char>,
    k: Seq<char>,
) -> Option<(Seq<char>, Seq<char>, Seq<char>)>
    decreases rows.len(),
{
    if rows.len() == 0 {
        None
    } else if rows.last().student_ref@ == k && requested_ref(requested, k)
        && rows.last().ready_to_finalize && rows.last().result_fingerprint is Some {
        Some((k, rows.last().result_fingerprint->Some_0@, now))
    } else {
        last_finalized_view(rows.drop_last(), requested, now, k)
    }
}

/// The finalization record of student `k` after finalizing: the new record
/// when the request finalizes `k`, the earlier one otherwise.
pub open spec fn finalized_view(
    records: Seq<ResultFinalizationRecord>,
    rows: Seq<ResultStudentRow>,
    requested: Seq<String>,
    now: Seq<char>,
    k: Seq<char>,
) -> Option<(Seq<char>, Seq<char>, Seq<char>)> {
    match last_finalized_view(rows, requested, now, k) {
        Some(v) => Some(v),
        None => last_record_view(records, k),
    }
}

/// Only a ready result is finalized. A row that is not ready to finalize is
/// never finalizable; after finalizing, a student none of whose rows is
/// ready keeps the record it had (or none); and a requested student with a
/// ready row carrying a fingerprint gets a record at `now` with the
/// fingerprint of the last such row.
pub proof fn law_only_ready_results_are_finalized(
    records: Seq<ResultFinalizationRecord>,
    rows: Seq<ResultStudentRow>,
    requested: Seq<String>,
    now: Seq<char>,
    k: Seq<char>,
)
    ensures
        forall|row: ResultStudentRow| !row.ready_to_finalize ==> !#[trigger] finalizable_row(row, requested),
        (forall|j: int| 0 <= j < rows.len() && (#[trigger] rows[j]).student_ref@ == k ==> !rows[j].ready_to_finalize)
            ==> finalized_view(records, rows, requested, now, k) == last_record_view(records, k),
        forall|j: int|
            0 <= j < rows.len() && (#[trigger] rows[j]).student_ref@ == k && requested_ref(requested, k)
                && rows[j].ready_to_finalize && rows[j].result_fingerprint is Some && (forall|l: int|
                j < l < rows.len() ==> !(rows[l].student_ref@ == k && rows[l].ready_to_finalize
                    && rows[l].result_fingerprint is Some)) ==> finalized_view(records, rows, requested, now, k) == Some(
                (k, rows[j].result_fingerprint->Some_0@, now),
            ),
    decreases rows.len(),
{
    if rows.len() > 0 {
        let r0 = rows.drop_last();
        law_only_ready_results_are_finalized(records, r0, requested, now, k);
        assert forall|j: int| 0 <= j < r0.len() implies #[trigger] r0[j] == rows[j] by {}
        if forall|j: int| 0 <= j < rows.len() && (#[trigger] rows[j]).student_ref@ == k ==> !rows[j].ready_to_finalize {
            assert(!(rows.last().student_ref@ == k && rows.last().ready_to_finalize));
            assert forall|j: int| 0 <= j < r0.len() && (#[trigger] r0[j]).student_ref@ == k implies !r0[j].ready_to_finalize by {
                assert(r0[j] == rows[j]);
            }
        }
        assert forall|j: int|
            0 <= j < rows.len() && (#[trigger] rows[j]).student_ref@ == k && requested_ref(requested, k)
                && rows[j].ready_to_finalize && rows[j].result_fingerprint is Some && (forall|l: int|
                j < l < rows.len() ==> !(rows[l].student_ref@ == k && rows[l].ready_to_finalize
                    && rows[l].result_fingerprint is Some)) implies finalized_view(records, rows, requested, now, k)
            == Some((k, rows[j].result_fingerprint->Some_0@, now)) by {
            if j < rows.len() - 1 {
                let last = rows.len() - 1;
                assert(!(rows[last].student_ref@ == k && rows[last].ready_to_finalize
                    && rows[last].result_fingerprint is Some));
                assert(r0[j] == rows[j]);
                assert forall|l: int| j < l < r0.len() implies !(r0[l].student_ref@ == k && r0[l].ready_to_finalize
                    && r0[l].result_fingerprint is Some) by {
                    assert(r0[l] == rows[l]);
                }
                assert((#[trigger] r0[j]).student_ref@ == k);
            }
        }
    }
}

/// Finalizes, at `now`, the ready results of the requested students. The
/// records end up one per student, sorted by student; a requested ready row
/// replaces the student's earlier record. An unknown student is an error; a
/// request naming nobody changes nothing.
pub fn finalize_ready_results(
    results_state: &mut ResultsLmsState,
    rows: &Vec<ResultStudentRow>,
    input: &FinalizeReadyResultsInput,
    now: &str,
) -> (r: Result<(), HostError>)
    ensures
        ({
            let u = first_index(input.student_refs@, unknown_request(rows@));
            let old_records = old(results_state).finalization_records@;
            let new_records = final(results_state).finalization_records@;
            &&& u < input.student_refs@.len() ==> (r matches Err(e) && e is Validation && e.msg()
                == "Result row '"@ + trim(input.student_refs@[u]@) + "' was not found."@)
            &&& r is Ok <==> u == input.student_refs@.len()
            &&& r is Err ==> *final(results_state) == *old(results_state)
            &&& r is Ok && (forall|x: Seq<char>| !#[trigger] requested_ref(input.student_refs@, x))
                ==> *final(results_state) == *old(results_state)
            &&& r is Ok && (exists|x: Seq<char>| #[trigger] requested_ref(input.student_refs@, x))
                ==> strictly_sorted(record_keys(new_records)) && (forall|k: Seq<char>|
                #[trigger] opt_record_view(record_for(new_records, k)) == finalized_view(
                    old_records,
                    rows@,
                    input.student_refs@,
                    now@,
                    k,
                ))
            &&& final(results_state).selected_target == old(results_state).selected_target
            &&& final(results_state).asset_bindings == old(results_state).asset_bindings
            &&& final(results_state).upload_attempts == old(results_state).upload_attempts
        }),
{
    let requested = normalize_requested_student_refs(&input.student_refs, rows)?;
    if requested.len() == 0 {
        proof {
            assert forall|x: Seq<char>| !#[trigger] requested_ref(input.student_refs@, x) by {
                if requested_ref(input.student_refs@, x) {
                    assert(holds_text(requested@, x));
                }
            }
        }
        return Ok(());
    }
    proof {
        assert(holds_text(requested@, requested@[0]@));
        assert(requested_ref(input.student_refs@, requested@[0]@));
    }
    let ghost old_records = results_state.finalization_records@;
    let mut out: Vec<ResultFinalizationRecord> = Vec::new();
    let mut i: usize = 0;
    proof {
        assert(old_records.take(0) =~= Seq::<ResultFinalizationRecord>::empty());
        assert forall|k: Seq<char>| #[trigger] opt_record_view(record_for(out@, k)) == last_record_view(
            old_records.take(0),
            k,
        ) by {
            crate::sorted::lemma_record_for_absent(out@, k);
        }
    }
    while i < results_state.finalization_records.len()
        invariant
            old_records == results_state.finalization_records@,
            i <= old_records.len(),
            strictly_sorted(record_keys(out@)),
            forall|k: Seq<char>|
                #[trigger] opt_record_view(record_for(out@, k)) == last_record_view(
                    old_records.take(i as int),
                    k,
                ),
        decreases old_records.len() - i,
    {
        let rec = results_state.finalization_records[i].clone();
        let ghost before = out@;
        upsert_sorted_record(&mut out, rec);
        proof {
            assert(old_records.take(i + 1).drop_last() =~= old_records.take(i as int));
            assert(old_records.take(i + 1).last() == old_records[i as int]);
            assert forall|k: Seq<char>| #[trigger] opt_record_view(record_for(out@, k))
                == last_record_view(old_records.take(i + 1), k) by {
                assert(record_for(out@, k) == if k == rec.student_ref@ {
                    Some(rec)
                } else {
                    record_for(before, k)
                });
            }
        }
        i += 1;
    }
    proof {
        assert(old_records.take(i as int) =~= old_records);
    }
    let mut j: usize = 0;
    proof {
        assert(rows@.take(0) =~= Seq::<ResultStudentRow>::empty());
    }
    while j < rows.len()
        invariant
            old_records == results_state.finalization_records@,
            j <= rows@.len(),
            strictly_sorted(record_keys(out@)),
            forall|x: Seq<char>| #[trigger] holds_text(requested@, x) <==> requested_ref(input.student_refs@, x),
            forall|k: Seq<char>|
                #[trigger] opt_record_view(record_for(out@, k)) == finalized_view(
                    old_records,
                    rows@.take(j as int),
                    input.student_refs@,
                    now@,
                    k,
                ),
        decreases rows@.len() - j,
    {
        let ghost before = out@;
        proof {
            assert(rows@.take(j + 1).drop_last() =~= rows@.take(j as int));
            assert(rows@.take(j + 1).last() == rows@[j as int]);
        }
        match finalized_record_for_requested_row(&rows[j], &requested, now) {
            Some(rec) => {
                let ghost rg = rec;
                upsert_sorted_record(&mut out, rec);
                proof {
                    assert forall|k: Seq<char>| #[trigger] opt_record_view(record_for(out@, k))
                        == finalized_view(old_records, rows@.take(j + 1), input.student_refs@, now@, k) by {
                        assert(record_for(out@, k) == if k == rg.student_ref@ {
                            Some(rg)
                        } else {
                            record_for(before, k)
                        });
                    }
                }
            },
            None => {
                proof {
                    assert forall|k: Seq<char>| #[trigger] opt_record_view(record_for(out@, k))
                        == finalized_view(old_records, rows@.take(j + 1), input.student_refs@, now@, k) by {
                        assert(opt_record_view(record_for(before, k)) == finalized_view(
                            old_records,
                            rows@.take(j as int),
                            input.student_refs@,
                            now@,
                            k,
                        ));
                    }
                }
            },
        }
        j += 1;
    }
    proof {
        assert(rows@.take(j as int) =~= rows@);
    }
    results_state.finalization_records = out;
    Ok(())
}

// ---------------------------------------------------------------------------
// Upload batches
// ---------------------------------------------------------------------------

/// The students an upload batch reports on: those being published and those
/// that failed preflight, sorted, each once.
pub fn tracked_upload_student_refs(
    preparation_rows: &Vec<crate::models::LmsUploadPreparationRow>,
    preflight_failures: &Vec<LmsUploadStudentResult>,
) -> (r: Vec<String>)
    ensures
        strictly_sorted(texts(r@)),
        forall|y: Seq<char>|
            #[trigger] texts(r@).contains(y) <==> ((exists|i: int|
                0 <= i < preparation_rows@.len() && #[trigger] preparation_rows@[i].student_ref@ == y)
                || (exists|i: int|
                0 <= i < preflight_failures@.len() && #[trigger] preflight_failures@[i].student_ref@
                    == y)),
{
    let mut out: Vec<String> = Vec::new();
    let mut i: usize = 0;
    while i < preparation_rows.len()
        invariant
            i <= preparation_rows@.len(),
            strictly_sorted(texts(out@)),
            forall|y: Seq<char>|
                #[trigger] texts(out@).contains(y) <==> (exists|k: int|
                    0 <= k < i && #[trigger] preparation_rows@[k].student_ref@ == y),
        decreases preparation_rows@.len() - i,
    {
        insert_sorted_text(&mut out, preparation_rows[i].student_ref.clone());
        proof {
            assert forall|y: Seq<char>| #[trigger] texts(out@).contains(y) <==> (exists|k: int|
                0 <= k < i + 1 && #[trigger] preparation_rows@[k].student_ref@ == y) by {
                if y == preparation_rows@[i as int].student_ref@ {
                    assert(0 <= i < i + 1 && preparation_rows@[i as int].student_ref@ == y);
                }
            }
        }
        i += 1;
    }
    let mut j: usize = 0;
    while j < preflight_failures.len()
        invariant
            i == preparation_rows@.len(),
            j <= preflight_failures@.len(),
            strictly_sorted(texts(out@)),
            forall|y: Seq<char>|
                #[trigger] texts(out@).contains(y) <==> ((exists|k: int|
                    0 <= k < i && #[trigger] preparation_rows@[k].student_ref@ == y) || (exists|k: int|
                    0 <= k < j && #[trigger] preflight_failures@[k].student_ref@ == y)),
        decreases preflight_failures@.len() - j,
    {
        insert_sorted_text(&mut out, preflight_failures[j].student_ref.clone());
        proof {
            assert forall|y: Seq<char>| #[trigger] texts(out@).contains(y) <==> ((exists|k: int|
                0 <= k < i && #[trigger] preparation_rows@[k].student_ref@ == y) || (exists|k: int|
                0 <= k < j + 1 && #[trigger] preflight_failures@[k].student_ref@ == y)) by {
                if y == preflight_failures@[j as int].student_ref@ {
                    assert(0 <= j < j + 1 && preflight_failures@[j as int].student_ref@ == y);
                }
            }
        }
        j += 1;
    }
    out
}


// ---------------------------------------------------------------------------
// Roster identities
// ---------------------------------------------------------------------------

/// The value of the last pair with key `key` (what a map built from the
/// pairs, in order, holds).
pub open spec fn last_value(pairs: Seq<(String, String)>, key: Seq<char>) -> Option<Seq<char>>
    decreases pairs.len(),
{
    if pairs.len() == 0 {
        None
    } else if pairs.last().0@ == key {
        Some(pairs.last().1@)
    } else {
        last_value(pairs.drop_last(), key)
    }
}

fn find_last_value(pairs: &Vec<(String, String)>, key: &str) -> (r: Option<String>)
    ensures
        crate::text::opt_text(r) == last_value(pairs@, key@),
{
    let mut i: usize = pairs.len();
    proof {
        assert(pairs@.take(i as int) =~= pairs@);
    }
    while i > 0
        invariant
            i <= pairs@.len(),
            last_value(pairs@, key@) == last_value(pairs@.take(i as int), key@),
        decreases i,
    {
        proof {
            assert(pairs@.take(i as int).drop_last() =~= pairs@.take(i - 1));
            assert(pairs@.take(i as int).last() == pairs@[i - 1]);
        }
        if text_eq(pairs[i - 1].0.as_str(), key) {
            return Some(pairs[i - 1].1.clone());
        }
        i -= 1;
    }
    proof {
        assert(pairs@.take(0) =~= Seq::<(String, String)>::empty());
    }
    None
}

/// The LMS user of student `student_ref`: through the last roster row of the
/// student whose binding token the LMS roster knows.
pub open spec fn resolved_user(
    student_roster: Seq<StudentRosterRow>,
    roster_tokens: Seq<(String, String)>,
    student_ref: Seq<char>,
) -> Option<Seq<char>>
    decreases student_roster.len(),
{
    if student_roster.len() == 0 {
        None
    } else if student_roster.last().student_ref@ == student_ref && last_value(
        roster_tokens,
        student_roster.last().binding_token_hex@,
    ) is Some {
        last_value(roster_tokens, student_roster.last().binding_token_hex@)
    } else {
        resolved_user(student_roster.drop_last(), roster_tokens, student_ref)
    }
}

/// Maps each student of the project roster to the LMS user whose binding
/// token matches; `roster_tokens` pairs each LMS roster token with its user.
/// Students without a match are left out.
pub fn resolve_transient_user_ids(
    student_roster: &Vec<StudentRosterRow>,
    roster_tokens: &Vec<(String, String)>,
) -> (r: Vec<(String, String)>)
    ensures
        forall|s: Seq<char>| #[trigger] last_value(r@, s) == resolved_user(student_roster@, roster_tokens@, s),
{
    let mut out: Vec<(String, String)> = Vec::new();
    let mut i: usize = 0;
    proof {
        assert(student_roster@.take(0) =~= Seq::<StudentRosterRow>::empty());
    }
    while i < student_roster.len()
        invariant
            i <= student_roster@.len(),
            forall|s: Seq<char>| #[trigger] last_value(out@, s) == resolved_user(
                student_roster@.take(i as int),
                roster_tokens@,
                s,
            ),
        decreases student_roster@.len() - i,
    {
        proof {
            assert(student_roster@.take(i + 1).drop_last() =~= student_roster@.take(i as int));
            assert(student_roster@.take(i + 1).last() == student_roster@[i as int]);
        }
        let row = &student_roster[i];
        let ghost before = out@;
        match find_last_value(roster_tokens, row.binding_token_hex.as_str()) {
            Some(user_id) => {
                let ghost uv = user_id@;
                out.push((row.student_ref.clone(), user_id));
                proof {
                    assert(out@.drop_last() =~= before);
                    assert forall|s: Seq<char>| #[trigger] last_value(out@, s) == resolved_user(
                        student_roster@.take(i + 1),
                        roster_tokens@,
                        s,
                    ) by {
                        assert(out@.last().0@ == row.student_ref@);
                        assert(out@.last().1@ == uv);
                        assert(last_value(before, s) == resolved_user(
                            student_roster@.take(i as int),
                            roster_tokens@,
                            s,
                        ));
                    }
                }
            },
            None => {
                proof {
                    assert forall|s: Seq<char>| #[trigger] last_value(out@, s) == resolved_user(
                        student_roster@.take(i + 1),
                        roster_tokens@,
                        s,
                    ) by {
                        assert(last_value(before, s) == resolved_user(
                            student_roster@.take(i as int),
                            roster_tokens@,
                            s,
                        ));
                    }
                }
            },
        }
        i += 1;
    }
    proof {
        assert(student_roster@.take(i as int) =~= student_roster@);
    }
    out
}

// ---------------------------------------------------------------------------
// Upload preparation
// ---------------------------------------------------------------------------

/// What the preparation of one student needs besides the student's own data.
pub struct UploadPreparationContext<'a> {
    pub exam_title: &'a str,
    pub selected_target: &'a ResultsLmsTarget,
    pub existing_asset_bindings: &'a Vec<ResultsLmsAssetBinding>,
    pub questions: &'a Vec<QuestionRecord>,
    /// Student reference to LMS user id, last pair winning.
    pub transient_user_ids: &'a Vec<(String, String)>,
}

/// Why the upload of `row` fails before publishing, if it does: 1 = not
/// currently finalized, 2 = not in the LMS roster, 3 = no graded submission.
pub open spec fn preflight_failure_kind(
    row: ResultStudentRow,
    transient_user_ids: Seq<(String, String)>,
    has_submission: bool,
) -> int {
    if !row.finalized || row.stale_finalization {
        1
    } else if last_value(transient_user_ids, row.student_ref@) is None {
        2
    } else if !has_submission {
        3
    } else {
        0
    }
}

/// The message of a preflight failure kind.
pub open spec fn preflight_message(kind: int) -> Seq<char> {
    if kind == 1 {
        "Only currently finalized results can be uploaded."@
    } else if kind == 2 {
        "Could not resolve this student in the current LMS roster cache."@
    } else {
        "Could not find this student's graded submission while preparing the HTML report."@
    }
}

/// Whether `p` is the upload preparation of `row`: the student, the LMS user,
/// the fingerprint, the score (the aggregate total), the report template over
/// `assets`, the assets, and the bindings the LMS already holds for the
/// student and target.
pub open spec fn prepared_row(
    p: LmsUploadPreparationRow,
    exam_title: Seq<char>,
    target: ResultsLmsTarget,
    bindings: Seq<ResultsLmsAssetBinding>,
    questions: Seq<QuestionRecord>,
    user_id: Seq<char>,
    row: ResultStudentRow,
    submission: StudentWorkflowSubmission,
    assets: Seq<LmsUploadReportAsset>,
) -> bool {
    &&& p.student_ref@ == row.student_ref@
    &&& p.user_id@ == user_id
    &&& row.result_fingerprint matches Some(f) && p.result_fingerprint@ == f@
    &&& p.score == row.aggregate_total
    &&& p.report_html_template@ == wrapped_report(
        report_html(exam_title, row, submission.answers@, questions, assets),
        Some(row.result_fingerprint->Some_0@),
    )
    &&& p.report_assets@ == assets
    &&& p.existing_asset_bindings@ == keep(bindings, |b: ResultsLmsAssetBinding| !binding_kept(target, row.student_ref@)(b))
}

fn bindings_of_student(
    bindings: &Vec<ResultsLmsAssetBinding>,
    target: &ResultsLmsTarget,
    student_ref: &str,
) -> (r: Vec<ResultsLmsAssetBinding>)
    ensures
        r@ == keep(bindings@, |b: ResultsLmsAssetBinding| !binding_kept(*target, student_ref@)(b)),
{
    let ghost p = |b: ResultsLmsAssetBinding| !binding_kept(*target, student_ref@)(b);
    let mut out: Vec<ResultsLmsAssetBinding> = Vec::new();
    let mut i: usize = 0;
    proof {
        assert(bindings@.take(0) =~= Seq::<ResultsLmsAssetBinding>::empty());
    }
    while i < bindings.len()
        invariant
            i <= bindings@.len(),
            p == |b: ResultsLmsAssetBinding| !binding_kept(*target, student_ref@)(b),
            out@ == keep(bindings@.take(i as int), p),
        decreases bindings@.len() - i,
    {
        proof {
            lemma_keep_step(bindings@, p, i as int);
        }
        if binding_matches_target_student(
            &bindings[i],
            target.provider.as_str(),
            target.course_id.as_str(),
            target.assignment_id.as_str(),
            student_ref,
        ) {
            out.push(bindings[i].clone());
        }
        i += 1;
    }
    proof {
        assert(bindings@.take(i as int) =~= bindings@);
    }
    out
}

/// Prepares the upload of one student, or says why it fails before publishing
/// (not currently finalized; not in the LMS roster; no graded submission). A
/// finalized result without a fingerprint is a host error.
pub fn build_upload_preparation_row(
    context: &UploadPreparationContext,
    row: &ResultStudentRow,
    submission: Option<&StudentWorkflowSubmission>,
    report_assets: Vec<LmsUploadReportAsset>,
) -> (r: Result<Result<LmsUploadPreparationRow, LmsUploadStudentResult>, HostError>)
    requires
        max_points_total_fits(row.question_rows@),
    ensures
        ({
            let finalized_now = row.finalized && !row.stale_finalization;
            let kind = preflight_failure_kind(*row, context.transient_user_ids@, submission is Some);
            &&& finalized_now && row.result_fingerprint is None ==> (r matches Err(e) && e is Validation
                && e.msg() == "Finalized results must have a current fingerprint."@)
            &&& r is Err <==> finalized_now && row.result_fingerprint is None
            &&& r is Ok && kind != 0 ==> (r matches Ok(Err(f)) && f.student_ref@ == row.student_ref@
                && f.result_fingerprint@ == crate::text::text_or_empty(row.result_fingerprint)
                && f.status == LmsUploadStudentStatus::Failed && crate::text::opt_text(f.sanitized_error)
                == Some(preflight_message(kind)))
            &&& r is Ok && kind == 0 ==> (r matches Ok(Ok(p)) && prepared_row(
                p,
                context.exam_title@,
                *context.selected_target,
                context.existing_asset_bindings@,
                context.questions@,
                last_value(context.transient_user_ids@, row.student_ref@)->Some_0,
                *row,
                *submission->Some_0,
                report_assets@,
            ))
        }),
{
    if !row.finalized || row.stale_finalization {
        let fingerprint = match &row.result_fingerprint {
            Some(f) => f.clone(),
            None => String::new(),
        };
        return Ok(
            Err(
                build_preflight_failure(
                    row,
                    fingerprint,
                    "Only currently finalized results can be uploaded.",
                ),
            ),
        );
    }
    let fingerprint = match &row.result_fingerprint {
        Some(f) => f.clone(),
        None => {
            return Err(validation_text("Finalized results must have a current fingerprint."));
        },
    };
    let user_id = match find_last_value(context.transient_user_ids, row.student_ref.as_str()) {
        Some(u) => u,
        None => {
            return Ok(
                Err(
                    build_preflight_failure(
                        row,
                        fingerprint,
                        "Could not resolve this student in the current LMS roster cache.",
                    ),
                ),
            );
        },
    };
    let submission = match submission {
        Some(s) => s,
        None => {
            return Ok(
                Err(
                    build_preflight_failure(
                        row,
                        fingerprint,
                        "Could not find this student's graded submission while preparing the HTML report.",
                    ),
                ),
            );
        },
    };
    let report_html_template = build_canvas_report_comment_template(
        context.exam_title,
        row,
        submission,
        context.questions,
        &report_assets,
    );
    let existing_asset_bindings = bindings_of_student(
        context.existing_asset_bindings,
        context.selected_target,
        row.student_ref.as_str(),
    );
    Ok(
        Ok(
            LmsUploadPreparationRow {
                student_ref: row.student_ref.clone(),
                user_id,
                result_fingerprint: fingerprint,
                score: row.aggregate_total,
                report_html_template,
                report_assets,
                existing_asset_bindings,
            },
        ),
    )
}

/// The last submission of student `student_ref`.
pub open spec fn last_submission(submissions: Seq<StudentWorkflowSubmission>, student_ref: Seq<char>) -> Option<
    StudentWorkflowSubmission,
>
    decreases submissions.len(),
{
    if submissions.len() == 0 {
        None
    } else if submissions.last().student_ref@ == student_ref {
        Some(submissions.last())
    } else {
        last_submission(submissions.drop_last(), student_ref)
    }
}

fn find_last_submission<'a>(submissions: &'a Vec<StudentWorkflowSubmission>, student_ref: &str) -> (r: Option<
    &'a StudentWorkflowSubmission,
>)
    ensures
        match r {
            Some(s) => last_submission(submissions@, student_ref@) == Some(*s),
            None => last_submission(submissions@, student_ref@) is None,
        },
{
    let mut i: usize = submissions.len();
    proof {
        assert(submissions@.take(i as int) =~= submissions@);
    }
    while i > 0
        invariant
            i <= submissions@.len(),
            last_submission(submissions@, student_ref@) == last_submission(submissions@.take(i as int), student_ref@),
        decreases i,
    {
        proof {
            assert(submissions@.take(i as int).drop_last() =~= submissions@.take(i - 1));
            assert(submissions@.take(i as int).last() == submissions@[i - 1]);
        }
        if text_eq(submissions[i - 1].student_ref.as_str(), student_ref) {
            return Some(&submissions[i - 1]);
        }
        i -= 1;
    }
    proof {
        assert(submissions@.take(0) =~= Seq::<StudentWorkflowSubmission>::empty());
    }
    None
}

/// The report images prepared for student `student_ref` (the last entry of
/// the student), none when absent.
pub open spec fn assets_of(
    assets_by_student: Seq<(String, Vec<LmsUploadReportAsset>)>,
    student_ref: Seq<char>,
) -> Seq<LmsUploadReportAsset>
    decreases assets_by_student.len(),
{
    if assets_by_student.len() == 0 {
        Seq::empty()
    } else if assets_by_student.last().0@ == student_ref {
        assets_by_student.last().1@
    } else {
        assets_of(assets_by_student.drop_last(), student_ref)
    }
}

fn clone_assets(v: &Vec<LmsUploadReportAsset>) -> (r: Vec<LmsUploadReportAsset>)
    ensures
        r@ == v@,
{
    let r = v.clone();
    proof {
        assert forall|i: int| 0 <= i < v@.len() implies r@[i] == v@[i] by {
            assert(cloned::<LmsUploadReportAsset>(v@[i], r@[i]));
        }
        assert(r@ =~= v@);
    }
    r
}

fn find_assets(assets_by_student: &Vec<(String, Vec<LmsUploadReportAsset>)>, student_ref: &str) -> (r: Vec<
    LmsUploadReportAsset,
>)
    ensures
        r@ == assets_of(assets_by_student@, student_ref@),
{
    let mut i: usize = assets_by_student.len();
    proof {
        assert(assets_by_student@.take(i as int) =~= assets_by_student@);
    }
    while i > 0
        invariant
            i <= assets_by_student@.len(),
            assets_of(assets_by_student@, student_ref@) == assets_of(assets_by_student@.take(i as int), student_ref@),
        decreases i,
    {
        proof {
            assert(assets_by_student@.take(i as int).drop_last() =~= assets_by_student@.take(i - 1));
            assert(assets_by_student@.take(i as int).last() == assets_by_student@[i - 1]);
        }
        if text_eq(assets_by_student[i - 1].0.as_str(), student_ref) {
            return clone_assets(&assets_by_student[i - 1].1);
        }
        i -= 1;
    }
    proof {
        assert(assets_by_student@.take(0) =~= Seq::<(String, Vec<LmsUploadReportAsset>)>::empty());
    }
    Vec::new()
}

/// Requested rows whose upload is prepared.
pub open spec fn to_prepare(
    requested: Seq<String>,
    transient_user_ids: Seq<(String, String)>,
    submissions: Seq<StudentWorkflowSubmission>,
) -> spec_fn(ResultStudentRow) -> bool {
    |row: ResultStudentRow| holds_text(requested, row.student_ref@) && preflight_failure_kind(
        row,
        transient_user_ids,
        last_submission(submissions, row.student_ref@) is Some,
    ) == 0
}

/// Requested rows whose upload fails before publishing.
pub open spec fn to_fail(
    requested: Seq<String>,
    transient_user_ids: Seq<(String, String)>,
    submissions: Seq<StudentWorkflowSubmission>,
) -> spec_fn(ResultStudentRow) -> bool {
    |row: ResultStudentRow| holds_text(requested, row.student_ref@) && preflight_failure_kind(
        row,
        transient_user_ids,
        last_submission(submissions, row.student_ref@) is Some,
    ) != 0
}

/// Requested rows that are finalized but have no fingerprint.
pub open spec fn broken_request(requested: Seq<String>) -> spec_fn(ResultStudentRow) -> bool {
    |row: ResultStudentRow| holds_text(requested, row.student_ref@) && row.finalized
        && !row.stale_finalization && row.result_fingerprint is None
}

/// Whether `f` is the preflight failure of `row`.
pub open spec fn failure_of(
    f: LmsUploadStudentResult,
    row: ResultStudentRow,
    transient_user_ids: Seq<(String, String)>,
    submissions: Seq<StudentWorkflowSubmission>,
) -> bool {
    let kind = preflight_failure_kind(
        row,
        transient_user_ids,
        last_submission(submissions, row.student_ref@) is Some,
    );
    &&& f.student_ref@ == row.student_ref@
    &&& f.result_fingerprint@ == crate::text::text_or_empty(row.result_fingerprint)
    &&& f.status == LmsUploadStudentStatus::Failed
    &&& crate::text::opt_text(f.sanitized_error) == Some(preflight_message(kind))
}

/// Whether `p` is the preparation of `row` within `workspace`.
pub open spec fn preparation_of(
    p: LmsUploadPreparationRow,
    row: ResultStudentRow,
    workspace: ExamWorkspaceState,
    selected_target: ResultsLmsTarget,
    transient_user_ids: Seq<(String, String)>,
    assets_by_student: Seq<(String, Vec<LmsUploadReportAsset>)>,
) -> bool {
    prepared_row(
        p,
        workspace.project.display_name@,
        selected_target,
        workspace.results_lms_state.asset_bindings@,
        workspace.questions@,
        last_value(transient_user_ids, row.student_ref@)->Some_0,
        row,
        last_submission(workspace.student_workflow.submissions@, row.student_ref@)->Some_0,
        assets_of(assets_by_student, row.student_ref@),
    )
}

/// Prepares the upload of every requested result row, in row order: each is
/// either prepared or a preflight failure. The student's submission is the
/// last one of the student; `assets_by_student` holds the report images
/// prepared for each student. A requested finalized row without a
/// fingerprint is a host error.
pub fn build_upload_preparation_rows(
    workspace: &ExamWorkspaceState,
    selected_target: &ResultsLmsTarget,
    requested: &Vec<String>,
    transient_user_ids: &Vec<(String, String)>,
    assets_by_student: &Vec<(String, Vec<LmsUploadReportAsset>)>,
) -> (r: Result<(Vec<LmsUploadPreparationRow>, Vec<LmsUploadStudentResult>), HostError>)
    requires
        forall|i: int|
            0 <= i < workspace.results_lms_rows@.len() ==> max_points_total_fits(
                #[trigger] workspace.results_lms_rows@[i].question_rows@,
            ),
    ensures
        ({
            let rows = workspace.results_lms_rows@;
            let subs = workspace.student_workflow.submissions@;
            let ok_rows = keep(rows, to_prepare(requested@, transient_user_ids@, subs));
            let failed_rows = keep(rows, to_fail(requested@, transient_user_ids@, subs));
            &&& r is Err <==> any_where(rows, broken_request(requested@))
            &&& r is Err ==> (r matches Err(e) && e is Validation && e.msg()
                == "Finalized results must have a current fingerprint."@)
            &&& r matches Ok((prepared, failures)) ==> prepared@.len() == ok_rows.len() && (forall|
                i: int,
            |
                0 <= i < prepared@.len() ==> preparation_of(
                    #[trigger] prepared@[i],
                    ok_rows[i],
                    *workspace,
                    *selected_target,
                    transient_user_ids@,
                    assets_by_student@,
                )) && failures@.len() == failed_rows.len() && (forall|i: int|
                0 <= i < failures@.len() ==> failure_of(
                    #[trigger] failures@[i],
                    failed_rows[i],
                    transient_user_ids@,
                    subs,
                ))
        }),
{
    let context = UploadPreparationContext {
        exam_title: workspace.project.display_name.as_str(),
        selected_target,
        existing_asset_bindings: &workspace.results_lms_state.asset_bindings,
        questions: &workspace.questions,
        transient_user_ids,
    };
    let all_rows = &workspace.results_lms_rows;
    let ghost subs = workspace.student_workflow.submissions@;
    let ghost okp = to_prepare(requested@, transient_user_ids@, subs);
    let ghost failp = to_fail(requested@, transient_user_ids@, subs);
    let mut prepared: Vec<LmsUploadPreparationRow> = Vec::new();
    let mut failures: Vec<LmsUploadStudentResult> = Vec::new();
    let mut i: usize = 0;
    proof {
        assert(all_rows@.take(0) =~= Seq::<ResultStudentRow>::empty());
    }
    while i < all_rows.len()
        invariant
            all_rows == workspace.results_lms_rows,
            i <= all_rows@.len(),
            subs == workspace.student_workflow.submissions@,
            okp == to_prepare(requested@, transient_user_ids@, subs),
            failp == to_fail(requested@, transient_user_ids@, subs),
            context.exam_title@ == workspace.project.display_name@,
            *context.selected_target == *selected_target,
            *context.existing_asset_bindings == workspace.results_lms_state.asset_bindings,
            *context.questions == workspace.questions,
            *context.transient_user_ids == *transient_user_ids,
            forall|w: int|
                0 <= w < all_rows@.len() ==> max_points_total_fits(#[trigger] all_rows@[w].question_rows@),
            forall|k: int| 0 <= k < i ==> !broken_request(requested@)(#[trigger] all_rows@[k]),
            prepared@.len() == keep(all_rows@.take(i as int), okp).len(),
            forall|w: int|
                0 <= w < prepared@.len() ==> preparation_of(
                    #[trigger] prepared@[w],
                    keep(all_rows@.take(i as int), okp)[w],
                    *workspace,
                    *selected_target,
                    transient_user_ids@,
                    assets_by_student@,
                ),
            failures@.len() == keep(all_rows@.take(i as int), failp).len(),
            forall|w: int|
                0 <= w < failures@.len() ==> failure_of(
                    #[trigger] failures@[w],
                    keep(all_rows@.take(i as int), failp)[w],
                    transient_user_ids@,
                    subs,
                ),
        decreases all_rows@.len() - i,
    {
        proof {
            lemma_keep_step(all_rows@, okp, i as int);
            lemma_keep_step(all_rows@, failp, i as int);
        }
        let row = &all_rows[i];
        if contains_text_item(requested, row.student_ref.as_str()) {
            let submission = find_last_submission(
                &workspace.student_workflow.submissions,
                row.student_ref.as_str(),
            );
            let assets = find_assets(assets_by_student, row.student_ref.as_str());
            let outcome = build_upload_preparation_row(&context, row, submission, assets);
            match outcome {
                Err(e) => {
                    proof {
                        assert(broken_request(requested@)(all_rows@[i as int]));
                    }
                    return Err(e);
                },
                Ok(Ok(p)) => {
                    let ghost before = prepared@;
                    prepared.push(p);
                    proof {
                        assert(okp(all_rows@[i as int]));
                        assert(!failp(all_rows@[i as int]));
                        assert forall|w: int| 0 <= w < prepared@.len() implies preparation_of(
                            #[trigger] prepared@[w],
                            keep(all_rows@.take(i + 1), okp)[w],
                            *workspace,
                            *selected_target,
                            transient_user_ids@,
                            assets_by_student@,
                        ) by {
                            if w < before.len() {
                                assert(prepared@[w] == before[w]);
                            }
                        }
                    }
                },
                Ok(Err(f)) => {
                    let ghost before = failures@;
                    failures.push(f);
                    proof {
                        assert(!okp(all_rows@[i as int]));
                        assert(failp(all_rows@[i as int]));
                        assert forall|w: int| 0 <= w < failures@.len() implies failure_of(
                            #[trigger] failures@[w],
                            keep(all_rows@.take(i + 1), failp)[w],
                            transient_user_ids@,
                            subs,
                        ) by {
                            if w < before.len() {
                                assert(failures@[w] == before[w]);
                            }
                        }
                    }
                },
            }
        } else {
            proof {
                assert(!okp(all_rows@[i as int]));
                assert(!failp(all_rows@[i as int]));
            }
        }
        i += 1;
    }
    proof {
        assert(all_rows@.take(i as int) =~= all_rows@);
    }
    Ok((prepared, failures))
}


// ---------------------------------------------------------------------------
// Upload events
// ---------------------------------------------------------------------------

/// The JSON text of an upload mode.
pub open spec fn mode_text(mode: LmsUploadMode) -> Seq<char> {
    match mode {
        LmsUploadMode::Live => "live"@,
        LmsUploadMode::DryRun => "dry_run"@,
    }
}

/// The JSON text of an upload status.
pub open spec fn status_text(status: LmsUploadStudentStatus) -> Seq<char> {
    match status {
        LmsUploadStudentStatus::Ready => "ready"@,
        LmsUploadStudentStatus::Uploaded => "uploaded"@,
        LmsUploadStudentStatus::Failed => "failed"@,
    }
}

fn mode_value(mode: LmsUploadMode) -> (v: JsonValue)
    ensures
        is_text(v, mode_text(mode)),
{
    match mode {
        LmsUploadMode::Live => JsonValue::Text(owned("live")),
        LmsUploadMode::DryRun => JsonValue::Text(owned("dry_run")),
    }
}

fn status_value(status: LmsUploadStudentStatus) -> (v: JsonValue)
    ensures
        is_text(v, status_text(status)),
{
    match status {
        LmsUploadStudentStatus::Ready => JsonValue::Text(owned("ready")),
        LmsUploadStudentStatus::Uploaded => JsonValue::Text(owned("uploaded")),
        LmsUploadStudentStatus::Failed => JsonValue::Text(owned("failed")),
    }
}

/// Whether `e` is an upload event of type `event_type` with worker status `status`.
pub open spec fn upload_event(e: RuntimeJobEvent, event_type: Seq<char>, status: WorkerStatus) -> bool {
    &&& e.event_type@ == event_type
    &&& e.command_name@ == "results.lms-upload"@
    &&& e.worker_status == status
    &&& e.request_id is None
    &&& e.job_id is None
    &&& e.payload is Object
}

fn upload_event_with(event_type: &str, status: WorkerStatus, members: Vec<JsonMember>) -> (e: RuntimeJobEvent)
    ensures
        upload_event(e, event_type@, status),
        members_of(e.payload) == members@,
{
    RuntimeJobEvent {
        event_type: owned(event_type),
        command_name: owned("results.lms-upload"),
        worker_status: status,
        request_id: None,
        job_id: None,
        payload: JsonValue::Object(members),
    }
}

/// The event that opens an upload batch: its id, mode and students.
pub fn upload_batch_started_event(batch_id: &str, mode: LmsUploadMode, student_refs: &Vec<String>) -> (e:
    RuntimeJobEvent)
    ensures
        upload_event(e, "results_lms_upload_batch_started"@, WorkerStatus::Busy),
        members_of(e.payload).len() == 3,
        members_of(e.payload)[0].key@ == "batchId"@ && is_text(members_of(e.payload)[0].value, batch_id@),
        members_of(e.payload)[1].key@ == "mode"@ && is_text(members_of(e.payload)[1].value, mode_text(mode)),
        members_of(e.payload)[2].key@ == "studentRefs"@ && members_of(e.payload)[2].value is Array
            && items_of(members_of(e.payload)[2].value).len() == student_refs@.len() && (forall|i: int|
            0 <= i < student_refs@.len() ==> is_text(
                #[trigger] items_of(members_of(e.payload)[2].value)[i],
                student_refs@[i]@,
            )),
{
    let mut refs: Vec<JsonValue> = Vec::new();
    let mut i: usize = 0;
    while i < student_refs.len()
        invariant
            i <= student_refs@.len(),
            refs@.len() == i,
            forall|k: int| 0 <= k < i ==> is_text(#[trigger] refs@[k], student_refs@[k]@),
        decreases student_refs@.len() - i,
    {
        refs.push(JsonValue::Text(student_refs[i].clone()));
        i += 1;
    }
    let mut members: Vec<JsonMember> = Vec::new();
    members.push(member("batchId", JsonValue::Text(owned(batch_id))));
    members.push(member("mode", mode_value(mode)));
    members.push(member("studentRefs", JsonValue::Array(refs)));
    upload_event_with("results_lms_upload_batch_started", WorkerStatus::Busy, members)
}

/// The event that one student's upload starts.
pub fn upload_student_started_event(batch_id: &str, student_ref: &str) -> (e: RuntimeJobEvent)
    ensures
        upload_event(e, "results_lms_upload_student_started"@, WorkerStatus::Busy),
        members_of(e.payload).len() == 2,
        members_of(e.payload)[0].key@ == "batchId"@ && is_text(members_of(e.payload)[0].value, batch_id@),
        members_of(e.payload)[1].key@ == "studentRef"@ && is_text(members_of(e.payload)[1].value, student_ref@),
{
    let mut members: Vec<JsonMember> = Vec::new();
    members.push(member("batchId", JsonValue::Text(owned(batch_id))));
    members.push(member("studentRef", JsonValue::Text(owned(student_ref))));
    upload_event_with("results_lms_upload_student_started", WorkerStatus::Busy, members)
}

/// The event that one student's upload finished, with its status and the
/// sanitized error (no fingerprint, no LMS user id).
pub fn upload_student_finished_event(batch_id: &str, result: &LmsUploadStudentResult) -> (e: RuntimeJobEvent)
    ensures
        upload_event(e, "results_lms_upload_student_finished"@, WorkerStatus::Busy),
        members_of(e.payload).len() == 4,
        members_of(e.payload)[0].key@ == "batchId"@ && is_text(members_of(e.payload)[0].value, batch_id@),
        members_of(e.payload)[1].key@ == "studentRef"@ && is_text(
            members_of(e.payload)[1].value,
            result.student_ref@,
        ),
        members_of(e.payload)[2].key@ == "status"@ && is_text(
            members_of(e.payload)[2].value,
            status_text(result.status),
        ),
        members_of(e.payload)[3].key@ == "error"@ && is_optional_text(
            members_of(e.payload)[3].value,
            crate::text::opt_text(result.sanitized_error),
        ),
{
    let error = match &result.sanitized_error {
        Some(m) => JsonValue::Text(m.clone()),
        None => JsonValue::Null,
    };
    let mut members: Vec<JsonMember> = Vec::new();
    members.push(member("batchId", JsonValue::Text(owned(batch_id))));
    members.push(member("studentRef", JsonValue::Text(result.student_ref.clone())));
    members.push(member("status", status_value(result.status)));
    members.push(member("error", error));
    upload_event_with("results_lms_upload_student_finished", WorkerStatus::Busy, members)
}

/// The event that an upload batch finished.
pub fn upload_batch_finished_event(batch_id: &str) -> (e: RuntimeJobEvent)
    ensures
        upload_event(e, "results_lms_upload_batch_finished"@, WorkerStatus::Ready),
        members_of(e.payload).len() == 1,
        members_of(e.payload)[0].key@ == "batchId"@ && is_text(members_of(e.payload)[0].value, batch_id@),
{
    let mut members: Vec<JsonMember> = Vec::new();
    members.push(member("batchId", JsonValue::Text(owned(batch_id))));
    upload_event_with("results_lms_upload_batch_finished", WorkerStatus::Ready, members)
}

/// The event that an upload batch failed, with the error.
pub fn upload_batch_failed_event(batch_id: &str, error_message: &str) -> (e: RuntimeJobEvent)
    ensures
        upload_event(e, "results_lms_upload_batch_failed"@, WorkerStatus::Error),
        members_of(e.payload).len() == 2,
        members_of(e.payload)[0].key@ == "batchId"@ && is_text(members_of(e.payload)[0].value, batch_id@),
        members_of(e.payload)[1].key@ == "error"@ && is_text(members_of(e.payload)[1].value, error_message@),
{
    let mut members: Vec<JsonMember> = Vec::new();
    members.push(member("batchId", JsonValue::Text(owned(batch_id))));
    members.push(member("error", JsonValue::Text(owned(error_message))));
    upload_event_with("results_lms_upload_batch_failed", WorkerStatus::Error, members)
}

/// Reports the start of an upload batch.
pub fn emit_results_lms_upload_batch_started(
    event_sink: &dyn RuntimeEventSink,
    batch_id: &str,
    mode: LmsUploadMode,
    student_refs: &Vec<String>,
) {
    emit_runtime_job_event(event_sink, upload_batch_started_event(batch_id, mode, student_refs));
}

/// Reports the start of one student's upload.
pub fn emit_results_lms_upload_student_started(event_sink: &dyn RuntimeEventSink, batch_id: &str, student_ref: &str) {
    emit_runtime_job_event(event_sink, upload_student_started_event(batch_id, student_ref));
}

/// Reports the outcome of one student's upload.
pub fn emit_results_lms_upload_student_finished(
    event_sink: &dyn RuntimeEventSink,
    batch_id: &str,
    result: &LmsUploadStudentResult,
) {
    emit_runtime_job_event(event_sink, upload_student_finished_event(batch_id, result));
}

/// Reports the end of an upload batch.
pub fn emit_results_lms_upload_batch_finished(event_sink: &dyn RuntimeEventSink, batch_id: &str) {
    emit_runtime_job_event(event_sink, upload_batch_finished_event(batch_id));
}

/// Reports the failure of an upload batch.
pub fn emit_results_lms_upload_batch_failed(event_sink: &dyn RuntimeEventSink, batch_id: &str, error_message: &str) {
    emit_runtime_job_event(event_sink, upload_batch_failed_event(batch_id, error_message));
}

// ---------------------------------------------------------------------------
// Collecting an upload run
// ---------------------------------------------------------------------------

/// An upload run needs at least one student, prepared or failed.
pub fn require_upload_rows(
    preparation_rows: &Vec<LmsUploadPreparationRow>,
    preflight_failures: &Vec<LmsUploadStudentResult>,
) -> (r: Result<(), HostError>)
    ensures
        preparation_rows@.len() == 0 && preflight_failures@.len() == 0 ==> (r matches Err(e)
            && e is Validation && e.msg() == "Select at least one finalized result before upload."@),
        !(preparation_rows@.len() == 0 && preflight_failures@.len() == 0) ==> r is Ok,
{
    if preparation_rows.len() == 0 && preflight_failures.len() == 0 {
        return Err(validation_text("Select at least one finalized result before upload."));
    }
    Ok(())
}

/// The index where a stable sort by student puts `x` among the sorted `s`:
/// after every outcome whose student does not sort after `x`'s.
pub open spec fn stable_position(s: Seq<LmsUploadStudentResult>, x: LmsUploadStudentResult) -> int {
    first_index(s, |y: LmsUploadStudentResult| crate::text::text_lt(x.student_ref@, y.student_ref@))
}

/// `s` sorted by student, keeping the order of outcomes of one student (a
/// stable sort).
pub open spec fn sorted_by_student(s: Seq<LmsUploadStudentResult>) -> Seq<LmsUploadStudentResult>
    decreases s.len(),
{
    if s.len() == 0 {
        s
    } else {
        let t = sorted_by_student(s.drop_last());
        t.insert(stable_position(t, s.last()), s.last())
    }
}

/// The outcomes of an upload run: the preflight failures, then the published
/// outcomes, sorted by student (stable).
pub fn collect_upload_student_results(
    preflight_failures: Vec<LmsUploadStudentResult>,
    published_outcomes: &Vec<LmsUploadPublishOutcome>,
) -> (r: Vec<LmsUploadStudentResult>)
    ensures
        r@ == sorted_by_student(
            preflight_failures@ + published_outcomes@.map_values(
                |o: LmsUploadPublishOutcome| o.student_result,
            ),
        ),
{
    let mut all = preflight_failures;
    let mut k: usize = 0;
    let ghost base = all@;
    while k < published_outcomes.len()
        invariant
            k <= published_outcomes@.len(),
            all@ == base + published_outcomes@.take(k as int).map_values(
                |o: LmsUploadPublishOutcome| o.student_result,
            ),
        decreases published_outcomes@.len() - k,
    {
        all.push(published_outcomes[k].student_result.clone());
        proof {
            assert(published_outcomes@.take(k + 1).map_values(|o: LmsUploadPublishOutcome| o.student_result)
                =~= published_outcomes@.take(k as int).map_values(
                |o: LmsUploadPublishOutcome| o.student_result,
            ).push(published_outcomes@[k as int].student_result));
        }
        k += 1;
    }
    proof {
        assert(published_outcomes@.take(k as int) =~= published_outcomes@);
    }
    let ghost input = all@;
    let mut out: Vec<LmsUploadStudentResult> = Vec::new();
    let mut i: usize = 0;
    proof {
        assert(input.take(0) =~= Seq::<LmsUploadStudentResult>::empty());
    }
    while i < all.len()
        invariant
            all@ == input,
            i <= input.len(),
            out@ == sorted_by_student(input.take(i as int)),
        decreases input.len() - i,
    {
        let x = all[i].clone();
        let mut p: usize = 0;
        while p < out.len() && !crate::text::text_less(x.student_ref.as_str(), out[p].student_ref.as_str())
            invariant
                p <= out@.len(),
                forall|w: int|
                    0 <= w < p ==> !crate::text::text_lt(x.student_ref@, (#[trigger] out@[w]).student_ref@),
            decreases out@.len() - p,
        {
            p += 1;
        }
        proof {
            lemma_first_index_is(
                out@,
                |y: LmsUploadStudentResult| crate::text::text_lt(x.student_ref@, y.student_ref@),
                p as int,
            );
            assert(input.take(i + 1).drop_last() =~= input.take(i as int));
            assert(input.take(i + 1).last() == input[i as int]);
        }
        out.insert(p, x);
        i += 1;
    }
    proof {
        assert(input.take(i as int) =~= input);
    }
    out
}

} // verus!
