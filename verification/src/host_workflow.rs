//! Host workflows: long host-side operations reported to the frontend as
//! jobs, with the worker jobs they start recorded as their children.
use vstd::prelude::*;
use crate::errors::{RuntimeJobEvent, WorkerStatus};
use crate::json::{is_text, member, members_of, JsonMember, JsonValue};
use crate::models::clone_strings;
use crate::sorted::texts;
use crate::text::{owned, text_eq};

verus! {

/// What the result of a host workflow holds.
#[derive(Clone, Copy, Debug, PartialEq, Eq, Structural)]
pub enum HostWorkflowResultKind {
    Workspace,
    Shell,
    Export,
    Nothing,
}

/// The name of a result kind.
pub open spec fn result_kind_name(kind: HostWorkflowResultKind) -> Seq<char> {
    match kind {
        HostWorkflowResultKind::Workspace => "workspace"@,
        HostWorkflowResultKind::Shell => "shell"@,
        HostWorkflowResultKind::Export => "export"@,
        HostWorkflowResultKind::Nothing => "none"@,
    }
}

impl HostWorkflowResultKind {
    /// The name of the result kind.
    pub fn as_str(self) -> (r: &'static str)
        ensures
            r@ == result_kind_name(self),
    {
        match self {
            HostWorkflowResultKind::Workspace => "workspace",
            HostWorkflowResultKind::Shell => "shell",
            HostWorkflowResultKind::Export => "export",
            HostWorkflowResultKind::Nothing => "none",
        }
    }
}

/// `v` is the JSON array of the texts `ids`.
pub open spec fn is_text_array(v: JsonValue, ids: Seq<Seq<char>>) -> bool {
    &&& v is Array
    &&& v->Array_0@.len() == ids.len()
    &&& forall|i: int| 0 <= i < ids.len() ==> is_text(#[trigger] v->Array_0@[i], ids[i])
}

/// The ids as a JSON array of strings.
pub fn text_array(ids: &Vec<String>) -> (v: JsonValue)
    ensures
        is_text_array(v, texts(ids@)),
{
    let mut items: Vec<JsonValue> = Vec::new();
    let mut i: usize = 0;
    while i < ids.len()
        invariant
            i <= ids@.len(),
            items@.len() == i,
            forall|k: int| 0 <= k < i ==> is_text(#[trigger] items@[k], ids@[k]@),
        decreases ids@.len() - i,
    {
        items.push(JsonValue::Text(owned(ids[i].as_str())));
        i += 1;
    }
    JsonValue::Array(items)
}

/// `p` is the payload of a host workflow that started or finished:
/// `{resultKind, data, workspaceChanged, nestedJobIds}`.
pub open spec fn is_workflow_payload(
    p: JsonValue,
    result_kind: Seq<char>,
    data: JsonValue,
    workspace_changed: bool,
    nested_job_ids: Seq<Seq<char>>,
) -> bool {
    &&& p is Object
    &&& members_of(p).len() == 4
    &&& members_of(p)[0].key@ == "resultKind"@ && is_text(members_of(p)[0].value, result_kind)
    &&& members_of(p)[1].key@ == "data"@ && members_of(p)[1].value == data
    &&& members_of(p)[2].key@ == "workspaceChanged"@ && members_of(p)[2].value == JsonValue::Bool(workspace_changed)
    &&& members_of(p)[3].key@ == "nestedJobIds"@ && is_text_array(members_of(p)[3].value, nested_job_ids)
}

/// `p` is the payload of a host workflow that failed with `message`:
/// `{resultKind: "error", message, workspaceChanged, nestedJobIds, error:
/// {message, nestedJobIds}}`.
pub open spec fn is_workflow_error_payload(
    p: JsonValue,
    workspace_changed: bool,
    nested_job_ids: Seq<Seq<char>>,
    message: Seq<char>,
) -> bool {
    &&& p is Object
    &&& members_of(p).len() == 5
    &&& members_of(p)[0].key@ == "resultKind"@ && is_text(members_of(p)[0].value, "error"@)
    &&& members_of(p)[1].key@ == "message"@ && is_text(members_of(p)[1].value, message)
    &&& members_of(p)[2].key@ == "workspaceChanged"@ && members_of(p)[2].value == JsonValue::Bool(workspace_changed)
    &&& members_of(p)[3].key@ == "nestedJobIds"@ && is_text_array(members_of(p)[3].value, nested_job_ids)
    &&& members_of(p)[4].key@ == "error"@ && members_of(p)[4].value is Object
    &&& members_of(members_of(p)[4].value).len() == 2
    &&& members_of(members_of(p)[4].value)[0].key@ == "message"@
    &&& is_text(members_of(members_of(p)[4].value)[0].value, message)
    &&& members_of(members_of(p)[4].value)[1].key@ == "nestedJobIds"@
    &&& is_text_array(members_of(members_of(p)[4].value)[1].value, nested_job_ids)
}

/// The payload of a host workflow that started or finished: its result
/// kind, its data, whether the workspace changed, and its child jobs.
pub fn workflow_payload(
    result_kind: HostWorkflowResultKind,
    workspace_changed: bool,
    nested_job_ids: &Vec<String>,
    data: JsonValue,
) -> (p: JsonValue)
    ensures
        is_workflow_payload(p, result_kind_name(result_kind), data, workspace_changed, texts(nested_job_ids@)),
{
    let mut m: Vec<JsonMember> = Vec::new();
    m.push(member("resultKind", JsonValue::Text(owned(result_kind.as_str()))));
    m.push(member("data", data));
    m.push(member("workspaceChanged", JsonValue::Bool(workspace_changed)));
    m.push(member("nestedJobIds", text_array(nested_job_ids)));
    JsonValue::Object(m)
}

/// The payload of a host workflow that failed with `message`.
pub fn workflow_error_payload(workspace_changed: bool, nested_job_ids: &Vec<String>, message: &str) -> (p: JsonValue)
    ensures
        is_workflow_error_payload(p, workspace_changed, texts(nested_job_ids@), message@),
{
    let mut inner: Vec<JsonMember> = Vec::new();
    inner.push(member("message", JsonValue::Text(owned(message))));
    inner.push(member("nestedJobIds", text_array(nested_job_ids)));
    let mut m: Vec<JsonMember> = Vec::new();
    m.push(member("resultKind", JsonValue::Text(owned("error"))));
    m.push(member("message", JsonValue::Text(owned(message))));
    m.push(member("workspaceChanged", JsonValue::Bool(workspace_changed)));
    m.push(member("nestedJobIds", text_array(nested_job_ids)));
    m.push(member("error", JsonValue::Object(inner)));
    JsonValue::Object(m)
}

/// The event that a host workflow started: the worker is busy, and the
/// payload has no data and no child jobs yet.
pub fn workflow_started_event(
    command_name: &str,
    result_kind: HostWorkflowResultKind,
    workspace_changed: bool,
    request_id: &str,
    workflow_id: &str,
) -> (e: RuntimeJobEvent)
    ensures
        e.event_type@ == "job_started"@,
        e.command_name@ == command_name@,
        e.worker_status == WorkerStatus::Busy,
        crate::text::opt_text(e.request_id) == Some(request_id@),
        crate::text::opt_text(e.job_id) == Some(workflow_id@),
        is_workflow_payload(e.payload, result_kind_name(result_kind), JsonValue::Null, workspace_changed, Seq::empty()),
{
    let none: Vec<String> = Vec::new();
    let payload = workflow_payload(result_kind, workspace_changed, &none, JsonValue::Null);
    proof {
        assert(texts(none@) =~= Seq::<Seq<char>>::empty());
    }
    RuntimeJobEvent {
        event_type: owned("job_started"),
        command_name: owned(command_name),
        worker_status: WorkerStatus::Busy,
        request_id: Some(owned(request_id)),
        job_id: Some(owned(workflow_id)),
        payload,
    }
}

/// The event that a host workflow finished with `data`: the worker is
/// ready.
pub fn workflow_finished_event(
    command_name: &str,
    result_kind: HostWorkflowResultKind,
    workspace_changed: bool,
    request_id: &str,
    workflow_id: &str,
    nested_job_ids: &Vec<String>,
    data: JsonValue,
) -> (e: RuntimeJobEvent)
    ensures
        e.event_type@ == "job_finished"@,
        e.command_name@ == command_name@,
        e.worker_status == WorkerStatus::Ready,
        crate::text::opt_text(e.request_id) == Some(request_id@),
        crate::text::opt_text(e.job_id) == Some(workflow_id@),
        is_workflow_payload(e.payload, result_kind_name(result_kind), data, workspace_changed, texts(nested_job_ids@)),
{
    RuntimeJobEvent {
        event_type: owned("job_finished"),
        command_name: owned(command_name),
        worker_status: WorkerStatus::Ready,
        request_id: Some(owned(request_id)),
        job_id: Some(owned(workflow_id)),
        payload: workflow_payload(result_kind, workspace_changed, nested_job_ids, data),
    }
}

/// The event that a host workflow failed with `message`; it reports the
/// worker status the application holds.
pub fn workflow_failed_event(
    command_name: &str,
    workspace_changed: bool,
    request_id: &str,
    workflow_id: &str,
    nested_job_ids: &Vec<String>,
    message: &str,
    worker_status: WorkerStatus,
) -> (e: RuntimeJobEvent)
    ensures
        e.event_type@ == "job_failed"@,
        e.command_name@ == command_name@,
        e.worker_status == worker_status,
        crate::text::opt_text(e.request_id) == Some(request_id@),
        crate::text::opt_text(e.job_id) == Some(workflow_id@),
        is_workflow_error_payload(e.payload, workspace_changed, texts(nested_job_ids@), message@),
{
    RuntimeJobEvent {
        event_type: owned("job_failed"),
        command_name: owned(command_name),
        worker_status,
        request_id: Some(owned(request_id)),
        job_id: Some(owned(workflow_id)),
        payload: workflow_error_payload(workspace_changed, nested_job_ids, message),
    }
}

// ---------------------------------------------------------------------------
// Child jobs of host workflows
// ---------------------------------------------------------------------------

/// The worker jobs started by one host workflow, in order.
#[derive(Debug)]
pub struct HostWorkflowChildren {
    pub workflow_id: String,
    pub child_job_ids: Vec<String>,
}

/// No workflow id occurs twice.
pub open spec fn distinct_workflows(children: Seq<HostWorkflowChildren>) -> bool {
    forall|i: int, j: int| 0 <= i < j < children.len() ==> (#[trigger] children[i]).workflow_id@ != (#[trigger] children[j]).workflow_id@
}

/// The child jobs recorded for `workflow_id` (none when it has no entry).
pub open spec fn children_of(children: Seq<HostWorkflowChildren>, workflow_id: Seq<char>) -> Seq<Seq<char>>
    decreases children.len(),
{
    if children.len() == 0 {
        Seq::empty()
    } else if children.last().workflow_id@ == workflow_id {
        texts(children.last().child_job_ids@)
    } else {
        children_of(children.drop_last(), workflow_id)
    }
}

fn find_workflow(children: &Vec<HostWorkflowChildren>, workflow_id: &str) -> (r: usize)
    ensures
        r <= children@.len(),
        r < children@.len() ==> children@[r as int].workflow_id@ == workflow_id@,
        r == children@.len() ==> forall|i: int| 0 <= i < children@.len() ==> (#[trigger] children@[i]).workflow_id@ != workflow_id@,
{
    let mut i: usize = 0;
    while i < children.len()
        invariant
            i <= children@.len(),
            forall|k: int| 0 <= k < i ==> (#[trigger] children@[k]).workflow_id@ != workflow_id@,
        decreases children@.len() - i,
    {
        if text_eq(children[i].workflow_id.as_str(), workflow_id) {
            return i;
        }
        i += 1;
    }
    i
}

proof fn lemma_children_of_at(children: Seq<HostWorkflowChildren>, k: int, workflow_id: Seq<char>)
    requires
        distinct_workflows(children),
        0 <= k < children.len(),
        children[k].workflow_id@ == workflow_id,
    ensures
        children_of(children, workflow_id) == texts(children[k].child_job_ids@),
    decreases children.len(),
{
    if k < children.len() - 1 {
        assert(children.last().workflow_id@ != workflow_id);
        assert(children.drop_last()[k] == children[k]);
        lemma_children_of_at(children.drop_last(), k, workflow_id);
    }
}

proof fn lemma_children_of_absent(children: Seq<HostWorkflowChildren>, workflow_id: Seq<char>)
    requires
        forall|i: int| 0 <= i < children.len() ==> (#[trigger] children[i]).workflow_id@ != workflow_id,
    ensures
        children_of(children, workflow_id) == Seq::<Seq<char>>::empty(),
    decreases children.len(),
{
    if children.len() > 0 {
        assert(children.last().workflow_id@ != workflow_id);
        assert forall|i: int| 0 <= i < children.len() - 1 implies (#[trigger] children.drop_last()[i]).workflow_id@
            != workflow_id by {
            assert(children.drop_last()[i] == children[i]);
        }
        lemma_children_of_absent(children.drop_last(), workflow_id);
    }
}

/// Records a worker job started by host workflow `workflow_id`: it joins the
/// end of that workflow's children; no other workflow's children change.
pub fn record_host_workflow_child(children: &mut Vec<HostWorkflowChildren>, workflow_id: &str, child_job_id: &str)
    requires
        distinct_workflows(old(children)@),
    ensures
        distinct_workflows(final(children)@),
        children_of(final(children)@, workflow_id@) == children_of(old(children)@, workflow_id@).push(child_job_id@),
        forall|w: Seq<char>| w != workflow_id@ ==> #[trigger] children_of(final(children)@, w) == children_of(old(children)@, w),
{
    let ghost before = children@;
    let k = find_workflow(children, workflow_id);
    if k < children.len() {
        let mut entry = children.remove(k);
        let ghost olde = entry;
        entry.child_job_ids.push(owned(child_job_id));
        children.insert(k, entry);
        proof {
            assert(children@ =~= before.update(k as int, entry));
            assert(texts(entry.child_job_ids@) =~= texts(olde.child_job_ids@).push(child_job_id@));
            assert forall|i: int, j: int| 0 <= i < j < children@.len() implies (#[trigger] children@[i]).workflow_id@
                != (#[trigger] children@[j]).workflow_id@ by {
                assert(before[i].workflow_id@ != before[j].workflow_id@);
            }
            lemma_children_of_at(before, k as int, workflow_id@);
            lemma_children_of_at(children@, k as int, workflow_id@);
            assert forall|w: Seq<char>| w != workflow_id@ implies #[trigger] children_of(children@, w) == children_of(before, w) by {
                lemma_children_of_other(before, k as int, entry, w);
            }
        }
    } else {
        let mut ids: Vec<String> = Vec::new();
        ids.push(owned(child_job_id));
        let entry = HostWorkflowChildren { workflow_id: owned(workflow_id), child_job_ids: ids };
        children.push(entry);
        proof {
            assert(children@ =~= before.push(entry));
            assert(children@.drop_last() =~= before);
            lemma_children_of_absent(before, workflow_id@);
            assert(texts(entry.child_job_ids@) =~= seq![child_job_id@]);
            assert forall|i: int, j: int| 0 <= i < j < children@.len() implies (#[trigger] children@[i]).workflow_id@
                != (#[trigger] children@[j]).workflow_id@ by {
                if j == before.len() {
                    assert(before[i].workflow_id@ != workflow_id@);
                } else {
                    assert(before[i].workflow_id@ != before[j].workflow_id@);
                }
            }
        }
    }
}

proof fn lemma_children_of_other(children: Seq<HostWorkflowChildren>, k: int, e: HostWorkflowChildren, w: Seq<char>)
    requires
        0 <= k < children.len(),
        e.workflow_id@ == children[k].workflow_id@,
        w != e.workflow_id@,
    ensures
        children_of(children.update(k, e), w) == children_of(children, w),
    decreases children.len(),
{
    let u = children.update(k, e);
    if k == children.len() - 1 {
        assert(u.drop_last() =~= children.drop_last());
    } else {
        assert(u.drop_last() =~= children.drop_last().update(k, e));
        assert(u.last() == children.last());
        lemma_children_of_other(children.drop_last(), k, e, w);
    }
}

/// The child job to cancel when host workflow `workflow_id` is cancelled:
/// the last one it started.
pub fn host_workflow_child_for_cancel(children: &Vec<HostWorkflowChildren>, workflow_id: &str) -> (r: Option<String>)
    requires
        distinct_workflows(children@),
    ensures
        children_of(children@, workflow_id@).len() == 0 ==> r is None,
        children_of(children@, workflow_id@).len() > 0 ==> (r matches Some(c) && c@ == children_of(children@, workflow_id@).last()),
{
    let k = find_workflow(children, workflow_id);
    if k == children.len() {
        proof {
            lemma_children_of_absent(children@, workflow_id@);
        }
        return None;
    }
    proof {
        lemma_children_of_at(children@, k as int, workflow_id@);
    }
    let ids = &children[k].child_job_ids;
    if ids.len() == 0 {
        None
    } else {
        Some(owned(ids[ids.len() - 1].as_str()))
    }
}

/// A copy of the child jobs of `workflow_id` (none when it has no entry).
pub fn nested_snapshot(children: &Vec<HostWorkflowChildren>, workflow_id: &str) -> (r: Vec<String>)
    requires
        distinct_workflows(children@),
    ensures
        texts(r@) == children_of(children@, workflow_id@),
{
    let k = find_workflow(children, workflow_id);
    if k == children.len() {
        proof {
            lemma_children_of_absent(children@, workflow_id@);
        }
        let none: Vec<String> = Vec::new();
        proof {
            assert(texts(none@) =~= Seq::<Seq<char>>::empty());
        }
        return none;
    }
    proof {
        lemma_children_of_at(children@, k as int, workflow_id@);
    }
    clone_strings(&children[k].child_job_ids)
}

} // verus!
