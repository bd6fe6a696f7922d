//! Deleting a student's submission: its intake item, its workflow row, its
//! moderation and results records, and the list of files it owns.
use vstd::prelude::*;
use crate::errors::HostError;
use crate::messages::{concat3, validation, validation_text};
use crate::models::{
    ModerationFeedbackOverride, ModerationScoreOverride, ModerationState, ResultFinalizationRecord,
    ResultsLmsAssetBinding, ResultsLmsState, StudentIntakeSummary, StudentWorkflowAnswer, StudentWorkflowPage,
    StudentWorkflowState, StudentWorkflowSubmission,
};
use crate::moderation::{find_submission, submission_index};
use crate::seqs::{first_index, keep, lemma_first_index_is, retain_where};
use crate::sorted::texts;
use crate::text::{chars_of, owned, string_of, text_eq, trim, trimmed};

verus! {

/// The student whose submission is to be deleted.
#[derive(Debug)]
pub struct DeleteStudentSubmissionInput {
    pub student_ref: String,
}

/// What was removed of a student's submission.
#[derive(Debug)]
pub struct RemovedStudentSubmission {
    pub intake: Option<StudentIntakeSummary>,
    pub workflow: Option<StudentWorkflowSubmission>,
}

pub open spec fn intake_of(student_ref: Seq<char>) -> spec_fn(StudentIntakeSummary) -> bool {
    |i: StudentIntakeSummary| i.student_ref@ == student_ref
}

/// The position of the first intake item of `student_ref` (or the number
/// of items).
pub open spec fn intake_index(items: Seq<StudentIntakeSummary>, student_ref: Seq<char>) -> int {
    first_index(items, intake_of(student_ref))
}

/// Removes the first intake item of `student_ref`, if any.
pub fn remove_intake_item(items: &mut Vec<StudentIntakeSummary>, student_ref: &str) -> (r: Option<StudentIntakeSummary>)
    ensures
        ({
            let k = intake_index(old(items)@, student_ref@);
            &&& k <= old(items)@.len()
            &&& k < old(items)@.len() ==> (r matches Some(x) && x == old(items)@[k] && final(items)@ == old(items)@.remove(k))
            &&& k == old(items)@.len() ==> r is None && *final(items) == *old(items)
        }),
{
    let ghost p = intake_of(student_ref@);
    let mut i: usize = 0;
    while i < items.len()
        invariant
            i <= items@.len(),
            *items == *old(items),
            p == intake_of(student_ref@),
            forall|k: int| 0 <= k < i ==> !p(#[trigger] items@[k]),
        decreases items@.len() - i,
    {
        if text_eq(items[i].student_ref.as_str(), student_ref) {
            proof {
                lemma_first_index_is(items@, p, i as int);
            }
            return Some(items.remove(i));
        }
        i += 1;
    }
    proof {
        lemma_first_index_is(items@, p, i as int);
    }
    None
}

/// Removes the first workflow submission of `student_ref`, if any.
pub fn remove_workflow_submission(submissions: &mut Vec<StudentWorkflowSubmission>, student_ref: &str) -> (r: Option<
    StudentWorkflowSubmission,
>)
    ensures
        ({
            let k = submission_index(old(submissions)@, student_ref@);
            &&& k <= old(submissions)@.len()
            &&& k < old(submissions)@.len() ==> (r matches Some(x) && x == old(submissions)@[k] && final(submissions)@
                == old(submissions)@.remove(k))
            &&& k == old(submissions)@.len() ==> r is None && *final(submissions) == *old(submissions)
        }),
{
    let k = find_submission(submissions, student_ref);
    if k < submissions.len() {
        Some(submissions.remove(k))
    } else {
        None
    }
}

/// Records not of `student_ref`.
pub open spec fn other_score(student_ref: Seq<char>) -> spec_fn(ModerationScoreOverride) -> bool {
    |o: ModerationScoreOverride| o.student_ref@ != student_ref
}

/// Records not of `student_ref`.
pub open spec fn other_feedback(student_ref: Seq<char>) -> spec_fn(ModerationFeedbackOverride) -> bool {
    |o: ModerationFeedbackOverride| o.student_ref@ != student_ref
}

/// Records not of `student_ref`.
pub open spec fn other_finalization(student_ref: Seq<char>) -> spec_fn(ResultFinalizationRecord) -> bool {
    |o: ResultFinalizationRecord| o.student_ref@ != student_ref
}

/// Records not of `student_ref`.
pub open spec fn other_binding(student_ref: Seq<char>) -> spec_fn(ResultsLmsAssetBinding) -> bool {
    |o: ResultsLmsAssetBinding| o.student_ref@ != student_ref
}

/// `after` is `before` without any record of `student_ref`: its intake item
/// and workflow submission (the first of each) are gone, and so are all its
/// moderation overrides, finalization records and asset bindings.
pub open spec fn student_records_removed(
    items0: Seq<StudentIntakeSummary>,
    items1: Seq<StudentIntakeSummary>,
    wf0: StudentWorkflowState,
    wf1: StudentWorkflowState,
    mod0: ModerationState,
    mod1: ModerationState,
    res0: ResultsLmsState,
    res1: ResultsLmsState,
    student_ref: Seq<char>,
) -> bool {
    let ki = intake_index(items0, student_ref);
    let kw = submission_index(wf0.submissions@, student_ref);
    &&& items1 == if ki < items0.len() { items0.remove(ki) } else { items0 }
    &&& wf1.submissions@ == if kw < wf0.submissions@.len() { wf0.submissions@.remove(kw) } else { wf0.submissions@ }
    &&& wf1.status == wf0.status
    &&& wf1.latest_job_id == wf0.latest_job_id
    &&& mod1.score_overrides@ == keep(mod0.score_overrides@, other_score(student_ref))
    &&& mod1.feedback_overrides@ == keep(mod0.feedback_overrides@, other_feedback(student_ref))
    &&& mod1.question_reviews == mod0.question_reviews
    &&& res1.finalization_records@ == keep(res0.finalization_records@, other_finalization(student_ref))
    &&& res1.asset_bindings@ == keep(res0.asset_bindings@, other_binding(student_ref))
    &&& res1.selected_target == res0.selected_target
    &&& res1.upload_attempts == res0.upload_attempts
}

/// Deletes every record of a student from the project state. The student
/// reference is trimmed; a blank one is refused, and so is a student with
/// neither an intake item nor a workflow submission. Returns what was
/// removed of the submission.
pub fn delete_student_submission_records(
    intake_items: &mut Vec<StudentIntakeSummary>,
    workflow: &mut StudentWorkflowState,
    moderation: &mut ModerationState,
    results: &mut ResultsLmsState,
    input: &DeleteStudentSubmissionInput,
) -> (r: Result<RemovedStudentSubmission, HostError>)
    ensures
        ({
            let student_ref = trim(input.student_ref@);
            let ki = intake_index(old(intake_items)@, student_ref);
            let kw = submission_index(old(workflow).submissions@, student_ref);
            let found = ki < old(intake_items)@.len() || kw < old(workflow).submissions@.len();
            &&& student_ref.len() == 0 ==> (r matches Err(e) && e is Validation && e.msg() == "studentRef is required."@)
            &&& student_ref.len() > 0 && !found ==> (r matches Err(e) && e is Validation && e.msg()
                == "Student submission '"@ + student_ref + "' was not found."@)
            &&& r is Ok <==> student_ref.len() > 0 && found
            &&& r is Err ==> final(intake_items)@ == old(intake_items)@ && *final(workflow) == *old(workflow)
                && *final(moderation) == *old(moderation) && *final(results) == *old(results)
            &&& r matches Ok(removed) ==> {
                &&& student_records_removed(
                    old(intake_items)@,
                    final(intake_items)@,
                    *old(workflow),
                    *final(workflow),
                    *old(moderation),
                    *final(moderation),
                    *old(results),
                    *final(results),
                    student_ref,
                )
                &&& (ki < old(intake_items)@.len() ==> removed.intake == Some(old(intake_items)@[ki]))
                &&& (ki == old(intake_items)@.len() ==> removed.intake is None)
                &&& (kw < old(workflow).submissions@.len() ==> removed.workflow == Some(old(workflow).submissions@[kw]))
                &&& (kw == old(workflow).submissions@.len() ==> removed.workflow is None)
            }
        }),
{
    let student_ref = trimmed(input.student_ref.as_str());
    if student_ref.unicode_len() == 0 {
        return Err(validation_text("studentRef is required."));
    }
    let sref = student_ref.as_str();
    let removed_intake = remove_intake_item(intake_items, sref);
    let removed_workflow = remove_workflow_submission(&mut workflow.submissions, sref);
    if removed_intake.is_none() && removed_workflow.is_none() {
        return Err(validation(concat3("Student submission '", sref, "' was not found.")));
    }
    retain_where(
        &mut moderation.score_overrides,
        (|o: &ModerationScoreOverride| -> (b: bool)
            ensures
                b == (o.student_ref@ != student_ref@),
            { !text_eq(o.student_ref.as_str(), sref) }),
        Ghost(other_score(student_ref@)),
    );
    retain_where(
        &mut moderation.feedback_overrides,
        (|o: &ModerationFeedbackOverride| -> (b: bool)
            ensures
                b == (o.student_ref@ != student_ref@),
            { !text_eq(o.student_ref.as_str(), sref) }),
        Ghost(other_feedback(student_ref@)),
    );
    retain_where(
        &mut results.finalization_records,
        (|o: &ResultFinalizationRecord| -> (b: bool)
            ensures
                b == (o.student_ref@ != student_ref@),
            { !text_eq(o.student_ref.as_str(), sref) }),
        Ghost(other_finalization(student_ref@)),
    );
    retain_where(
        &mut results.asset_bindings,
        (|o: &ResultsLmsAssetBinding| -> (b: bool)
            ensures
                b == (o.student_ref@ != student_ref@),
            { !text_eq(o.student_ref.as_str(), sref) }),
        Ghost(other_binding(student_ref@)),
    );
    Ok(RemovedStudentSubmission { intake: removed_intake, workflow: removed_workflow })
}

/// After a deletion no moderation override, finalization record or asset
/// binding of the deleted student is left.
pub proof fn law_deleted_student_leaves_no_records(
    items0: Seq<StudentIntakeSummary>,
    items1: Seq<StudentIntakeSummary>,
    wf0: StudentWorkflowState,
    wf1: StudentWorkflowState,
    mod0: ModerationState,
    mod1: ModerationState,
    res0: ResultsLmsState,
    res1: ResultsLmsState,
    student_ref: Seq<char>,
)
    requires
        student_records_removed(items0, items1, wf0, wf1, mod0, mod1, res0, res1, student_ref),
    ensures
        forall|i: int| 0 <= i < mod1.score_overrides@.len() ==> (#[trigger] mod1.score_overrides@[i]).student_ref@ != student_ref,
        forall|i: int| 0 <= i < mod1.feedback_overrides@.len() ==> (#[trigger] mod1.feedback_overrides@[i]).student_ref@ != student_ref,
        forall|i: int| 0 <= i < res1.finalization_records@.len() ==> (#[trigger] res1.finalization_records@[i]).student_ref@ != student_ref,
        forall|i: int| 0 <= i < res1.asset_bindings@.len() ==> (#[trigger] res1.asset_bindings@[i]).student_ref@ != student_ref,
{
    crate::seqs::lemma_keep_props(mod0.score_overrides@, other_score(student_ref));
    crate::seqs::lemma_keep_props(mod0.feedback_overrides@, other_feedback(student_ref));
    crate::seqs::lemma_keep_props(res0.finalization_records@, other_finalization(student_ref));
    crate::seqs::lemma_keep_props(res0.asset_bindings@, other_binding(student_ref));
}

// ---------------------------------------------------------------------------
// Files owned by a removed submission
// ---------------------------------------------------------------------------

/// The files of an intake item: its canonical PDF, then its page images.
pub open spec fn intake_paths(item: StudentIntakeSummary) -> Seq<Seq<char>> {
    seq![item.canonical_pdf_path@] + texts(item.exam_page_paths@)
}

/// The files of a canonicalized page: its image, then its OCR metadata.
pub open spec fn page_paths(page: StudentWorkflowPage) -> Seq<Seq<char>> {
    seq![page.image_path@] + match page.ocr_metadata_path {
        Some(p) => seq![p@],
        None => Seq::empty(),
    }
}

/// The files of the pages, in order.
pub open spec fn pages_paths(pages: Seq<StudentWorkflowPage>) -> Seq<Seq<char>>
    decreases pages.len(),
{
    if pages.len() == 0 {
        Seq::empty()
    } else {
        pages_paths(pages.drop_last()) + page_paths(pages.last())
    }
}

/// The crop images of the answers, in order.
pub open spec fn crop_paths(answers: Seq<StudentWorkflowAnswer>) -> Seq<Seq<char>>
    decreases answers.len(),
{
    if answers.len() == 0 {
        Seq::empty()
    } else {
        let rest = crop_paths(answers.drop_last());
        match answers.last().crop_image_path {
            Some(p) => rest.push(p@),
            None => rest,
        }
    }
}

/// The files of a workflow submission: its canonical PDF, its pages' files,
/// then its answers' crops.
pub open spec fn workflow_paths(s: StudentWorkflowSubmission) -> Seq<Seq<char>> {
    seq![s.canonical_pdf_path@] + pages_paths(s.page_artifacts@) + crop_paths(s.answers@)
}

/// The files of what was removed: the intake item's, then the submission's.
pub open spec fn removed_paths(removed: RemovedStudentSubmission) -> Seq<Seq<char>> {
    (match removed.intake {
        Some(i) => intake_paths(i),
        None => Seq::empty(),
    }) + match removed.workflow {
        Some(s) => workflow_paths(s),
        None => Seq::empty(),
    }
}

fn push_path(paths: &mut Vec<String>, p: &str)
    ensures
        texts(final(paths)@) == texts(old(paths)@).push(p@),
{
    let ghost before = paths@;
    paths.push(owned(p));
    proof {
        assert(texts(paths@) =~= texts(before).push(p@));
    }
}

fn push_texts(paths: &mut Vec<String>, items: &Vec<String>)
    ensures
        texts(final(paths)@) == texts(old(paths)@) + texts(items@),
{
    let ghost start = texts(paths@);
    let mut i: usize = 0;
    while i < items.len()
        invariant
            i <= items@.len(),
            texts(paths@) == start + texts(items@).take(i as int),
        decreases items@.len() - i,
    {
        push_path(paths, items[i].as_str());
        proof {
            assert(texts(items@).take(i + 1) =~= texts(items@).take(i as int).push(items@[i as int]@));
            assert(start + texts(items@).take(i + 1) =~= (start + texts(items@).take(i as int)).push(items@[i as int]@));
        }
        i += 1;
    }
    proof {
        assert(texts(items@).take(i as int) =~= texts(items@));
    }
}

fn push_workflow_paths(paths: &mut Vec<String>, s: &StudentWorkflowSubmission)
    ensures
        texts(final(paths)@) == texts(old(paths)@) + workflow_paths(*s),
{
    let ghost start = texts(paths@);
    push_path(paths, s.canonical_pdf_path.as_str());
    let pages = &s.page_artifacts;
    let mut i: usize = 0;
    proof {
        assert(pages@.take(0) =~= Seq::<StudentWorkflowPage>::empty());
    }
    while i < pages.len()
        invariant
            i <= pages@.len(),
            pages@ == s.page_artifacts@,
            texts(paths@) == start.push(s.canonical_pdf_path@) + pages_paths(pages@.take(i as int)),
        decreases pages@.len() - i,
    {
        let ghost before = texts(paths@);
        push_path(paths, pages[i].image_path.as_str());
        if let Some(o) = &pages[i].ocr_metadata_path {
            push_path(paths, o.as_str());
        }
        proof {
            let t = pages@.take(i + 1);
            assert(t.drop_last() =~= pages@.take(i as int));
            assert(t.last() == pages@[i as int]);
            assert(texts(paths@) =~= before + page_paths(pages@[i as int]));
            assert(start.push(s.canonical_pdf_path@) + pages_paths(t) =~= start.push(s.canonical_pdf_path@)
                + pages_paths(pages@.take(i as int)) + page_paths(pages@[i as int]));
        }
        i += 1;
    }
    proof {
        assert(pages@.take(i as int) =~= pages@);
    }
    let answers = &s.answers;
    let ghost mid = texts(paths@);
    let mut j: usize = 0;
    proof {
        assert(answers@.take(0) =~= Seq::<StudentWorkflowAnswer>::empty());
        assert(mid + crop_paths(answers@.take(0)) =~= mid);
    }
    while j < answers.len()
        invariant
            j <= answers@.len(),
            answers@ == s.answers@,
            texts(paths@) == mid + crop_paths(answers@.take(j as int)),
        decreases answers@.len() - j,
    {
        proof {
            let t = answers@.take(j + 1);
            assert(t.drop_last() =~= answers@.take(j as int));
            assert(t.last() == answers@[j as int]);
        }
        if let Some(p) = &answers[j].crop_image_path {
            push_path(paths, p.as_str());
            proof {
                assert(mid + crop_paths(answers@.take(j + 1)) =~= (mid + crop_paths(answers@.take(j as int))).push(p@));
            }
        }
        j += 1;
    }
    proof {
        assert(answers@.take(j as int) =~= answers@);
        assert(texts(paths@) =~= start + workflow_paths(*s));
    }
}

/// `p` cut at each `/`, empty pieces included.
pub open spec fn path_segments(p: Seq<char>) -> Seq<Seq<char>>
    decreases p.len(),
{
    if p.len() == 0 {
        seq![Seq::<char>::empty()]
    } else if p.last() == '/' {
        path_segments(p.drop_last()).push(Seq::<char>::empty())
    } else {
        let s = path_segments(p.drop_last());
        s.update(s.len() - 1, s.last().push(p.last()))
    }
}

/// The segments that name a step: those neither empty nor `.`.
pub open spec fn named_segments(s: Seq<Seq<char>>) -> Seq<Seq<char>>
    decreases s.len(),
{
    if s.len() == 0 {
        Seq::empty()
    } else {
        let r = named_segments(s.drop_last());
        if s.last().len() == 0 || s.last() == seq!['.'] {
            r
        } else {
            r.push(s.last())
        }
    }
}

/// The components of the path `p`, each as text, as std documents
/// `Path::components` on Unix: a leading `/` is the root (written `/`); a
/// path that begins with `.` and a separator, or is `.`, begins with the
/// current directory (written `.`); then each segment that is neither empty
/// nor `.`. Two paths are the same path when their components are equal.
pub open spec fn path_components(p: Seq<char>) -> Seq<Seq<char>> {
    path_lead(p) + named_segments(path_segments(p))
}

/// The root or current-directory component that begins the path `p`, if any.
pub open spec fn path_lead(p: Seq<char>) -> Seq<Seq<char>> {
    if p.len() > 0 && p[0] == '/' {
        seq![seq!['/']]
    } else if path_segments(p)[0] == seq!['.'] {
        seq![seq!['.']]
    } else {
        Seq::<Seq<char>>::empty()
    }
}

proof fn lemma_path_segments_nonempty(p: Seq<char>)
    ensures
        path_segments(p).len() >= 1,
    decreases p.len(),
{
    if p.len() > 0 {
        lemma_path_segments_nonempty(p.drop_last());
    }
}

fn path_segments_of(p: &str) -> (r: Vec<String>)
    ensures
        texts(r@) == path_segments(p@),
{
    let cs = chars_of(p);
    let mut done: Vec<String> = Vec::new();
    let mut cur: Vec<char> = Vec::new();
    let mut i: usize = 0;
    proof {
        assert(cs@.take(0) =~= Seq::<char>::empty());
        assert(texts(done@).push(cur@) =~= seq![Seq::<char>::empty()]);
    }
    while i < cs.len()
        invariant
            i <= cs@.len(),
            cs@ == p@,
            path_segments(cs@.take(i as int)) == texts(done@).push(cur@),
        decreases cs@.len() - i,
    {
        let c = cs[i];
        proof {
            assert(cs@.take(i + 1).drop_last() =~= cs@.take(i as int));
            assert(cs@.take(i + 1).last() == c);
        }
        if c == '/' {
            let piece = string_of(&cur);
            push_path(&mut done, piece.as_str());
            cur = Vec::new();
            proof {
                assert(texts(done@).push(cur@) =~= path_segments(cs@.take(i as int)).push(Seq::<char>::empty()));
            }
        } else {
            let ghost before = cur@;
            cur.push(c);
            proof {
                let s = path_segments(cs@.take(i as int));
                assert(s.update(s.len() - 1, s.last().push(c)) =~= texts(done@).push(cur@));
            }
        }
        i += 1;
    }
    let piece = string_of(&cur);
    push_path(&mut done, piece.as_str());
    proof {
        assert(cs@.take(i as int) =~= p@);
    }
    done
}

/// The components of the path `p`, each as text.
pub fn path_components_of(p: &str) -> (r: Vec<String>)
    ensures
        texts(r@) == path_components(p@),
{
    let segs = path_segments_of(p);
    let cs = chars_of(p);
    proof {
        lemma_path_segments_nonempty(p@);
        reveal_strlit("/");
        reveal_strlit(".");
        reveal_strlit("");
        assert("/"@ =~= seq!['/']);
        assert("."@ =~= seq!['.']);
        assert(""@ =~= Seq::<char>::empty());
    }
    let mut out: Vec<String> = Vec::new();
    if cs.len() > 0 && cs[0] == '/' {
        push_path(&mut out, "/");
    } else if text_eq(segs[0].as_str(), ".") {
        push_path(&mut out, ".");
    }
    proof {
        assert(texts(segs@)[0] == segs@[0]@);
        assert(texts(out@) =~= path_lead(p@));
    }
    let ghost lead = texts(out@);
    let mut k: usize = 0;
    proof {
        assert(texts(segs@).take(0) =~= Seq::<Seq<char>>::empty());
        assert(lead + named_segments(texts(segs@).take(0)) =~= lead);
    }
    while k < segs.len()
        invariant
            k <= segs@.len(),
            texts(out@) == lead + named_segments(texts(segs@).take(k as int)),
        decreases segs@.len() - k,
    {
        proof {
            let t = texts(segs@).take(k + 1);
            assert(t.drop_last() =~= texts(segs@).take(k as int));
            assert(t.last() == segs@[k as int]@);
            reveal_strlit("");
            reveal_strlit(".");
            assert("."@ =~= seq!['.']);
            assert(""@ =~= Seq::<char>::empty());
        }
        let seg = segs[k].as_str();
        let ghost pre = texts(out@);
        if !text_eq(seg, "") && !text_eq(seg, ".") {
            push_path(&mut out, seg);
        }
        proof {
            let t = texts(segs@).take(k + 1);
            assert(t.last() == seg@);
            assert(named_segments(t) == (if seg@.len() == 0 || seg@ == seq!['.'] {
                named_segments(t.drop_last())
            } else {
                named_segments(t.drop_last()).push(seg@)
            }));
            assert(t.drop_last() =~= texts(segs@).take(k as int));
            assert(pre == lead + named_segments(texts(segs@).take(k as int)));
            if seg@.len() == 0 || seg@ == seq!['.'] {
                if seg@.len() == 0 {
                    assert(seg@ =~= ""@);
                }
                assert(texts(out@) == pre);
            } else {
                assert(texts(out@) =~= pre.push(seg@));
                assert(lead + named_segments(t.drop_last()).push(seg@) =~= (lead + named_segments(t.drop_last())).push(seg@));
            }
        }
        k += 1;
    }
    proof {
        assert(texts(segs@).take(k as int) =~= path_segments(p@));
    }
    out
}

fn same_components(a: &Vec<String>, b: &Vec<String>) -> (r: bool)
    ensures
        r == (texts(a@) == texts(b@)),
{
    if a.len() != b.len() {
        proof {
            assert(texts(a@).len() != texts(b@).len());
        }
        return false;
    }
    let mut i: usize = 0;
    while i < a.len()
        invariant
            a@.len() == b@.len(),
            i <= a@.len(),
            forall|k: int| 0 <= k < i ==> (#[trigger] a@[k])@ == b@[k]@,
        decreases a@.len() - i,
    {
        if !text_eq(a[i].as_str(), b[i].as_str()) {
            proof {
                assert(texts(a@)[i as int] != texts(b@)[i as int]);
            }
            return false;
        }
        i += 1;
    }
    proof {
        assert(texts(a@) =~= texts(b@));
    }
    true
}

/// Whether `paths` holds a path with the components `key`.
fn contains_path(paths: &Vec<String>, key: &Vec<String>) -> (r: bool)
    ensures
        r == exists|k: int| 0 <= k < paths@.len() && path_components(#[trigger] texts(paths@)[k]) == texts(key@),
{
    let mut i: usize = 0;
    while i < paths.len()
        invariant
            i <= paths@.len(),
            forall|k: int| 0 <= k < i ==> path_components(#[trigger] texts(paths@)[k]) != texts(key@),
        decreases paths@.len() - i,
    {
        let c = path_components_of(paths[i].as_str());
        if same_components(&c, key) {
            proof {
                assert(texts(paths@)[i as int] == paths@[i as int]@);
            }
            return true;
        }
        proof {
            assert(texts(paths@)[i as int] == paths@[i as int]@);
        }
        i += 1;
    }
    false
}

/// `s` with each path kept at its first occurrence only, two paths being
/// the same when their components are.
pub open spec fn first_path_occurrences(s: Seq<Seq<char>>) -> Seq<Seq<char>>
    decreases s.len(),
{
    if s.len() == 0 {
        Seq::empty()
    } else {
        let rest = first_path_occurrences(s.drop_last());
        if exists|k: int| 0 <= k < rest.len() && path_components(#[trigger] rest[k]) == path_components(s.last()) {
            rest
        } else {
            rest.push(s.last())
        }
    }
}

/// Every file the removed submission mentions, in order: the intake item's,
/// then the workflow submission's (a file may be mentioned more than once).
pub fn artifact_path_candidates(removed: &RemovedStudentSubmission) -> (r: Vec<String>)
    ensures
        texts(r@) == removed_paths(*removed),
{
    let mut all: Vec<String> = Vec::new();
    proof {
        assert(texts(all@) =~= Seq::<Seq<char>>::empty());
    }
    if let Some(item) = &removed.intake {
        push_path(&mut all, item.canonical_pdf_path.as_str());
        push_texts(&mut all, &item.exam_page_paths);
        proof {
            assert(texts(all@) =~= intake_paths(*item));
        }
    }
    if let Some(s) = &removed.workflow {
        push_workflow_paths(&mut all, s);
    }
    proof {
        assert(texts(all@) =~= removed_paths(*removed));
    }
    all
}

/// Each path of `paths` once, at its first mention, paths with equal
/// components being one path.
pub fn distinct_paths(paths: &Vec<String>) -> (r: Vec<String>)
    ensures
        texts(r@) == first_path_occurrences(texts(paths@)),
{
    let ghost every = texts(paths@);
    let mut out: Vec<String> = Vec::new();
    let mut i: usize = 0;
    proof {
        assert(every.take(0) =~= Seq::<Seq<char>>::empty());
        assert(texts(out@) =~= Seq::<Seq<char>>::empty());
    }
    while i < paths.len()
        invariant
            i <= paths@.len(),
            every == texts(paths@),
            texts(out@) == first_path_occurrences(every.take(i as int)),
        decreases paths@.len() - i,
    {
        proof {
            let t = every.take(i + 1);
            assert(t.drop_last() =~= every.take(i as int));
            assert(t.last() == paths@[i as int]@);
        }
        let key = path_components_of(paths[i].as_str());
        if !contains_path(&out, &key) {
            push_path(&mut out, paths[i].as_str());
        }
        i += 1;
    }
    proof {
        assert(every.take(i as int) =~= every);
    }
    out
}

/// The files that the removed submission owns, each path once (at its
/// first mention, paths with equal components being one path): the intake
/// item's, then the workflow submission's.
pub fn project_owned_artifact_paths(removed: &RemovedStudentSubmission) -> (r: Vec<String>)
    ensures
        texts(r@) == first_path_occurrences(removed_paths(*removed)),
{
    let all = artifact_path_candidates(removed);
    distinct_paths(&all)
}

} // verus!
