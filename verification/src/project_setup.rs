//! Decisions around project setup: which questions get an automatically
//! generated rubric, and the checks behind binding LMS students to the
//! project's submissions.
use vstd::prelude::*;
use crate::errors::HostError;
use crate::json::{json_get, json_get_text, member, JsonMember, JsonValue};
use crate::messages::validation_text;
use crate::models::{ExamWorkspaceState, QuestionRecord, StudentIntakeSummary};
use crate::scheduler::{generates_rubric_for, payload_question_id, QueuedRuntimeJob, RuntimeScheduler};
use crate::seqs::{keep, lemma_keep_step};
use crate::sorted::texts;
use crate::text::{blank, is_blank, owned, text_eq, trim, trimmed};

verus! {

// ---------------------------------------------------------------------------
// Automatic rubric generation
// ---------------------------------------------------------------------------

/// Rubrics are generated automatically while the template is a draft or
/// approved.
pub open spec fn template_allows_auto_rubric(status: Seq<char>) -> bool {
    status == "draft"@ || status == "approved"@
}

/// Whether the template status allows automatic rubric generation.
pub fn template_status_allows_auto_rubric_enqueue(workspace: &ExamWorkspaceState) -> (r: bool)
    ensures
        r == template_allows_auto_rubric(workspace.status@),
{
    text_eq(workspace.status.as_str(), "draft") || text_eq(workspace.status.as_str(), "approved")
}

/// A question needs an automatic rubric: it has an image, its analysis is
/// complete, and it has no rubric criteria yet.
pub open spec fn needs_auto_rubric(q: QuestionRecord) -> bool {
    q.image_path is Some && q.analysis_complete && q.rubric.criteria@.len() == 0
}

/// The ids of the questions that need an automatic rubric, in order.
pub open spec fn auto_rubric_ids(questions: Seq<QuestionRecord>) -> Seq<Seq<char>> {
    keep(questions, |q: QuestionRecord| needs_auto_rubric(q)).map_values(|q: QuestionRecord| q.question_id@)
}

/// The ids of the questions that need an automatic rubric.
pub fn eligible_auto_rubric_question_ids(workspace: &ExamWorkspaceState) -> (r: Vec<String>)
    ensures
        texts(r@) == auto_rubric_ids(workspace.questions@),
{
    let questions = &workspace.questions;
    let ghost p = |q: QuestionRecord| needs_auto_rubric(q);
    let ghost f = |q: QuestionRecord| q.question_id@;
    let mut out: Vec<String> = Vec::new();
    let mut i: usize = 0;
    proof {
        assert(questions@.take(0) =~= Seq::<QuestionRecord>::empty());
        assert(texts(out@) =~= keep(questions@.take(0), p).map_values(f));
    }
    while i < questions.len()
        invariant
            i <= questions@.len(),
            questions@ == workspace.questions@,
            p == (|q: QuestionRecord| needs_auto_rubric(q)),
            f == (|q: QuestionRecord| q.question_id@),
            texts(out@) == keep(questions@.take(i as int), p).map_values(f),
        decreases questions@.len() - i,
    {
        proof {
            lemma_keep_step(questions@, p, i as int);
        }
        let q = &questions[i];
        if q.image_path.is_some() && q.analysis_complete && q.rubric.criteria.len() == 0 {
            let ghost before = out@;
            out.push(owned(q.question_id.as_str()));
            proof {
                assert(texts(out@) =~= texts(before).push(q.question_id@));
                assert(keep(questions@.take(i + 1), p).map_values(f) =~= keep(questions@.take(i as int), p).map_values(
                    f,
                ).push(q.question_id@));
            }
        }
        i += 1;
    }
    proof {
        assert(questions@.take(i as int) =~= questions@);
    }
    out
}

/// Whether the scheduler holds a rubric job for question `q`, queued or
/// running.
pub open spec fn scheduler_has_rubric_job(s: RuntimeScheduler, q: Seq<char>) -> bool {
    (exists|i: int| 0 <= i < s.pending().len() && generates_rubric_for(#[trigger] s.pending()[i], q)) || (exists|i: int|
        0 <= i < s.active().len() && generates_rubric_for(#[trigger] s.active()[i].job, q))
}

/// The questions to queue a rubric job for, from `ids` in order: those
/// without a rubric job in the scheduler and not already chosen.
pub open spec fn rubric_ids_to_queue(s: RuntimeScheduler, ids: Seq<Seq<char>>) -> Seq<Seq<char>>
    decreases ids.len(),
{
    if ids.len() == 0 {
        Seq::empty()
    } else {
        let rest = rubric_ids_to_queue(s, ids.drop_last());
        let q = ids.last();
        if scheduler_has_rubric_job(s, q) || rest.contains(q) {
            rest
        } else {
            rest.push(q)
        }
    }
}

fn contains_text(v: &Vec<String>, t: &str) -> (r: bool)
    ensures
        r == texts(v@).contains(t@),
{
    let mut i: usize = 0;
    while i < v.len()
        invariant
            i <= v@.len(),
            forall|k: int| 0 <= k < i ==> (#[trigger] v@[k])@ != t@,
        decreases v@.len() - i,
    {
        if text_eq(v[i].as_str(), t) {
            proof {
                assert(texts(v@)[i as int] == t@);
            }
            return true;
        }
        i += 1;
    }
    proof {
        if texts(v@).contains(t@) {
            let w = choose|w: int| 0 <= w < texts(v@).len() && texts(v@)[w] == t@;
            assert(v@[w]@ == t@);
        }
    }
    false
}

/// The questions that get an automatic rubric job now: none unless the
/// template allows it; else the questions that need one, skipping those
/// with a rubric job queued or running, each once.
pub fn auto_rubric_question_ids_to_enqueue(scheduler: &RuntimeScheduler, workspace: &ExamWorkspaceState) -> (r: Vec<String>)
    ensures
        !template_allows_auto_rubric(workspace.status@) ==> r@.len() == 0,
        template_allows_auto_rubric(workspace.status@) ==> texts(r@) == rubric_ids_to_queue(
            *scheduler,
            auto_rubric_ids(workspace.questions@),
        ),
{
    if !template_status_allows_auto_rubric_enqueue(workspace) {
        return Vec::new();
    }
    let ids = eligible_auto_rubric_question_ids(workspace);
    let ghost all = texts(ids@);
    let mut out: Vec<String> = Vec::new();
    let mut i: usize = 0;
    proof {
        assert(all.take(0) =~= Seq::<Seq<char>>::empty());
        assert(texts(out@) =~= Seq::<Seq<char>>::empty());
    }
    while i < ids.len()
        invariant
            i <= ids@.len(),
            all == texts(ids@),
            texts(out@) == rubric_ids_to_queue(*scheduler, all.take(i as int)),
        decreases ids@.len() - i,
    {
        proof {
            let t = all.take(i + 1);
            assert(t.drop_last() =~= all.take(i as int));
            assert(t.last() == ids@[i as int]@);
        }
        let q = ids[i].as_str();
        if !scheduler.has_generate_rubric_for_question(q) && !contains_text(&out, q) {
            let ghost before = out@;
            out.push(owned(q));
            proof {
                assert(texts(out@) =~= texts(before).push(q@));
            }
        }
        i += 1;
    }
    proof {
        assert(all.take(i as int) =~= all);
    }
    out
}

/// The payload of a rubric job for question `q`: `{question_id, replace_existing: true}`.
pub open spec fn rubric_payload(p: JsonValue, q: Seq<char>) -> bool {
    &&& p is Object
    &&& crate::json::members_of(p).len() == 2
    &&& json_get_text(p, "question_id"@) == Some(q)
    &&& json_get(p, "replace_existing"@) == Some(JsonValue::Bool(true))
}

fn rubric_request(question_id: &str) -> (p: JsonValue)
    ensures
        rubric_payload(p, question_id@),
        payload_question_id(p) == Some(question_id@),
{
    let mut m: Vec<JsonMember> = Vec::new();
    m.push(member("question_id", JsonValue::Text(owned(question_id))));
    m.push(member("replace_existing", JsonValue::Bool(true)));
    let p = JsonValue::Object(m);
    proof {
        reveal_with_fuel(crate::json::member_value, 3);
        reveal_strlit("question_id");
        reveal_strlit("replace_existing");
        assert("question_id"@.len() == 11);
        assert("replace_existing"@.len() == 16);
    }
    p
}

/// The queued job that generates the rubric of `question_id`, replacing any
/// existing one, submitted with the given ids, time and settings.
pub fn queued_generate_rubric_job(
    project_path: &str,
    settings: Option<JsonValue>,
    question_id: &str,
    job_id: String,
    request_id: String,
    submitted_at: String,
) -> (j: QueuedRuntimeJob)
    ensures
        j.job_id == job_id,
        j.request_id == request_id,
        j.command_name@ == "exam.generate-rubric"@,
        rubric_payload(j.worker_request_payload, question_id@),
        rubric_payload(j.persisted_request_payload, question_id@),
        generates_rubric_for(j, question_id@),
        j.output_artifacts_dir is None,
        crate::text::opt_text(j.project_path) == Some(project_path@),
        j.submitted_at == submitted_at,
        j.depends_on_job_id is None,
        !j.skip_if_dependency_failed,
        j.settings == settings,
{
    QueuedRuntimeJob {
        job_id,
        request_id,
        command_name: owned("exam.generate-rubric"),
        worker_request_payload: rubric_request(question_id),
        persisted_request_payload: rubric_request(question_id),
        output_artifacts_dir: None,
        project_path: Some(owned(project_path)),
        submitted_at,
        depends_on_job_id: None,
        skip_if_dependency_failed: false,
        settings,
    }
}

// ---------------------------------------------------------------------------
// Binding LMS students
// ---------------------------------------------------------------------------

/// An intake item has canonical outputs: a canonical PDF path and either an
/// `ok` ingest or some pages.
pub open spec fn has_canonical_outputs(item: StudentIntakeSummary) -> bool {
    !is_blank(item.canonical_pdf_path@) && (item.ingest_status@ == "ok"@ || item.page_count > 0)
}

/// Whether an intake item has canonical outputs.
pub fn intake_row_has_canonical_outputs(item: &StudentIntakeSummary) -> (r: bool)
    ensures
        r == has_canonical_outputs(*item),
{
    if blank(item.canonical_pdf_path.as_str()) {
        return false;
    }
    text_eq(item.ingest_status.as_str(), "ok") || item.page_count > 0
}

/// Whether the bound student already has an intake item with canonical
/// outputs; a student the binding token does not resolve to has none.
pub fn prior_canonical_submission_exists(items: &Vec<StudentIntakeSummary>, student_ref: Option<&str>) -> (r: bool)
    ensures
        r == match student_ref {
            Some(s) => exists|i: int| 0 <= i < items@.len() && (#[trigger] items@[i]).student_ref@ == s@
                && has_canonical_outputs(items@[i]),
            None => false,
        },
{
    let s = match student_ref {
        Some(s) => s,
        None => {
            return false;
        },
    };
    let mut i: usize = 0;
    while i < items.len()
        invariant
            i <= items@.len(),
            student_ref == Some(s),
            forall|k: int| 0 <= k < i ==> !((#[trigger] items@[k]).student_ref@ == s@ && has_canonical_outputs(items@[k])),
        decreases items@.len() - i,
    {
        if text_eq(items[i].student_ref.as_str(), s) && intake_row_has_canonical_outputs(&items[i]) {
            proof {
                assert(items@[i as int].student_ref@ == s@ && has_canonical_outputs(items@[i as int]));
            }
            return true;
        }
        i += 1;
    }
    false
}

/// The course id for a binding made with no project open: the given id,
/// trimmed; a blank one is refused.
pub fn binding_course_id_without_project(course_id: &str) -> (r: Result<String, HostError>)
    ensures
        is_blank(course_id@) ==> (r matches Err(e) && e is Validation && e.msg()
            == "Canvas course id is required for LMS binding."@),
        !is_blank(course_id@) ==> (r matches Ok(c) && c@ == trim(course_id@)),
{
    if blank(course_id) {
        return Err(validation_text("Canvas course id is required for LMS binding."));
    }
    Ok(trimmed(course_id))
}

/// The project student that an LMS student was matched to.
#[derive(Debug)]
pub struct StudentRosterMatchResult {
    pub student_ref: String,
    pub binding_token_hex: String,
}

/// The match of an LMS student whose binding token resolved to
/// `student_ref`; an unresolved token means the student is not in the
/// persisted roster.
pub fn roster_match_result(student_ref: Option<String>, binding_token_hex: String) -> (r: Result<
    StudentRosterMatchResult,
    HostError,
>)
    ensures
        student_ref is None ==> (r matches Err(e) && e is Validation && e.msg()
            == "Selected LMS student is not present in the persisted project roster. Run LMS roster preload before intake."@),
        student_ref matches Some(s) ==> (r matches Ok(m) && m.student_ref == s && m.binding_token_hex == binding_token_hex),
{
    match student_ref {
        Some(s) => Ok(StudentRosterMatchResult { student_ref: s, binding_token_hex }),
        None => Err(
            validation_text(
                "Selected LMS student is not present in the persisted project roster. Run LMS roster preload before intake.",
            ),
        ),
    }
}

} // verus!
