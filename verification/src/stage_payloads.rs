//! Worker rows and request payloads of the student workflow stages.
use vstd::prelude::*;
use crate::json::{get, is_count, is_text, json_get, member_value, json_get_text, get_text, count_value, member, members_of, items_of, JsonMember, JsonValue};
use crate::models::{StudentWorkflowSubmission, WorkspaceWarning};
use crate::errors::HostError;
use crate::runtime::{CompletedWorkerJob, WorkerJobResult};
use crate::seqs::{
    count_where, first_index, keep, lemma_count_step, lemma_first_index_is, lemma_keep_idempotent, lemma_keep_step, retain_where,
};
use crate::text::{i64_text, int_decimal, owned, text_eq};
use crate::runtime::swap_member_value;
use crate::host_workflow::{is_text_array, text_array};
use crate::sorted::{entry_keys, sorted_keys, strictly_sorted, texts};

verus! {

/// Whether a worker row belongs to `student_ref`.
pub open spec fn row_of_student(student_ref: Seq<char>) -> spec_fn(JsonValue) -> bool {
    |row: JsonValue| json_get_text(row, "student_ref"@) == Some(student_ref)
}

/// The rows of `student_ref`, in order.
pub fn rows_for_student(rows: Vec<JsonValue>, student_ref: &str) -> (r: Vec<JsonValue>)
    ensures
        r@ == keep(rows@, row_of_student(student_ref@)),
{
    let mut out = rows;
    retain_where(
        &mut out,
        (|row: &JsonValue| -> (b: bool)
            ensures
                b == row_of_student(student_ref@)(*row),
            {
                match get_text(row, "student_ref") {
                    Some(s) => text_eq(s.as_str(), student_ref),
                    None => false,
                }
            }),
        Ghost(row_of_student(student_ref@)),
    );
    out
}

/// Whether a crop row came out clean (`status` is `ok`).
pub open spec fn clean_crop_row(row: JsonValue) -> bool {
    json_get_text(row, "status"@) == Some("ok"@)
}

fn clean_crop_row_exec(row: &JsonValue) -> (b: bool)
    ensures
        b == clean_crop_row(*row),
{
    match get_text(row, "status") {
        Some(s) => text_eq(s.as_str(), "ok"),
        None => false,
    }
}

/// The number of clean crop rows.
pub fn clean_crop_row_count(crop_rows: &Vec<JsonValue>) -> (n: usize)
    ensures
        n == count_where(crop_rows@, |row: JsonValue| clean_crop_row(row)),
{
    let ghost p = |row: JsonValue| clean_crop_row(row);
    let mut n: usize = 0;
    let mut i: usize = 0;
    proof {
        assert(crop_rows@.take(0) =~= Seq::<JsonValue>::empty());
    }
    while i < crop_rows.len()
        invariant
            i <= crop_rows@.len(),
            n <= i,
            p == (|row: JsonValue| clean_crop_row(row)),
            n == count_where(crop_rows@.take(i as int), p),
        decreases crop_rows@.len() - i,
    {
        proof {
            lemma_count_step(crop_rows@, p, i as int);
        }
        if clean_crop_row_exec(&crop_rows[i]) {
            n += 1;
        }
        i += 1;
    }
    proof {
        assert(crop_rows@.take(i as int) =~= crop_rows@);
    }
    n
}

/// A submission goes straight to manual grading, without PII screening,
/// when no crop came out clean or there are no trigger words to screen for.
pub fn should_manual_block_pii_stage(crop_rows: &Vec<JsonValue>, pii_trigger_words: Option<&Vec<String>>) -> (b: bool)
    ensures
        b == (count_where(crop_rows@, |row: JsonValue| clean_crop_row(row)) == 0 || match pii_trigger_words {
            Some(words) => words@.len() == 0,
            None => true,
        }),
{
    clean_crop_row_count(crop_rows) == 0 || match pii_trigger_words {
        Some(words) => words.len() == 0,
        None => true,
    }
}

/// The question ids of the clean crop rows that carry a text question id.
pub open spec fn clean_question_ids(rows: Seq<JsonValue>) -> Seq<Seq<char>>
    decreases rows.len(),
{
    if rows.len() == 0 {
        Seq::empty()
    } else {
        let rest = clean_question_ids(rows.drop_last());
        let row = rows.last();
        if clean_crop_row(row) && json_get_text(row, "question_id"@) is Some {
            rest.push(json_get_text(row, "question_id"@)->0)
        } else {
            rest
        }
    }
}

/// The ids, as JSON strings.
pub open spec fn texts_of(items: Seq<JsonValue>, ids: Seq<Seq<char>>) -> bool {
    items.len() == ids.len() && forall|i: int| 0 <= i < ids.len() ==> is_text(#[trigger] items[i], ids[i])
}

fn clean_question_id_values(crop_rows: &Vec<JsonValue>) -> (r: Vec<JsonValue>)
    ensures
        texts_of(r@, clean_question_ids(crop_rows@)),
{
    let mut out: Vec<JsonValue> = Vec::new();
    let mut i: usize = 0;
    proof {
        assert(crop_rows@.take(0) =~= Seq::<JsonValue>::empty());
    }
    while i < crop_rows.len()
        invariant
            i <= crop_rows@.len(),
            texts_of(out@, clean_question_ids(crop_rows@.take(i as int))),
        decreases crop_rows@.len() - i,
    {
        proof {
            let t = crop_rows@.take(i + 1);
            assert(t.drop_last() =~= crop_rows@.take(i as int));
            assert(t.last() == crop_rows@[i as int]);
        }
        if clean_crop_row_exec(&crop_rows[i]) {
            if let Some(q) = get_text(&crop_rows[i], "question_id") {
                out.push(JsonValue::Text(q.clone()));
            }
        }
        i += 1;
    }
    proof {
        assert(crop_rows@.take(i as int) =~= crop_rows@);
    }
    out
}

/// The PII request of one student as it is persisted: its question ids and
/// target count, and no crop paths.
pub fn sanitized_pii_request_payload(student_ref: &str, crop_rows: &Vec<JsonValue>) -> (p: JsonValue)
    ensures
        members_of(p).len() == 4,
        p is Object,
        members_of(p)[0].key@ == "student_ref"@ && is_text(members_of(p)[0].value, student_ref@),
        members_of(p)[1].key@ == "question_ids"@ && members_of(p)[1].value is Array && texts_of(
            items_of(members_of(p)[1].value),
            clean_question_ids(crop_rows@),
        ),
        members_of(p)[2].key@ == "pii_target_count"@ && is_count(members_of(p)[2].value, clean_question_ids(crop_rows@).len()),
        members_of(p)[3].key@ == "pii_runtime"@ && is_text(members_of(p)[3].value, "local_paddle"@),
{
    let ids = clean_question_id_values(crop_rows);
    let count = ids.len();
    let mut m: Vec<JsonMember> = Vec::new();
    m.push(member("student_ref", JsonValue::Text(owned(student_ref))));
    m.push(member("question_ids", JsonValue::Array(ids)));
    m.push(member("pii_target_count", count_value(count)));
    m.push(member("pii_runtime", JsonValue::Text(owned("local_paddle"))));
    JsonValue::Object(m)
}

/// `v` describes the PII screening of `student_ref` without crop paths: the
/// student, the question ids of its clean crop rows, and their count.
pub open spec fn is_sanitized_pii_student(v: JsonValue, student_ref: Seq<char>, rows: Seq<JsonValue>) -> bool {
    &&& v is Object
    &&& members_of(v).len() == 3
    &&& members_of(v)[0].key@ == "student_ref"@ && is_text(members_of(v)[0].value, student_ref)
    &&& members_of(v)[1].key@ == "question_ids"@ && members_of(v)[1].value is Array && texts_of(
        items_of(members_of(v)[1].value),
        clean_question_ids(rows),
    )
    &&& members_of(v)[2].key@ == "pii_target_count"@ && is_count(members_of(v)[2].value, clean_question_ids(rows).len())
}

fn sanitized_pii_student(student_ref: &str, crop_rows: &Vec<JsonValue>) -> (v: JsonValue)
    ensures
        is_sanitized_pii_student(v, student_ref@, crop_rows@),
{
    let ids = clean_question_id_values(crop_rows);
    let count = ids.len();
    let mut m: Vec<JsonMember> = Vec::new();
    m.push(member("student_ref", JsonValue::Text(owned(student_ref))));
    m.push(member("question_ids", JsonValue::Array(ids)));
    m.push(member("pii_target_count", count_value(count)));
    JsonValue::Object(m)
}

/// Entries of student `key`.
pub open spec fn entry_has_key(key: Seq<char>) -> spec_fn((String, Vec<JsonValue>)) -> bool {
    |e: (String, Vec<JsonValue>)| e.0@ == key
}

/// The crop rows kept for `key` (those of its first entry; none without one).
pub open spec fn rows_of_key(entries: Seq<(String, Vec<JsonValue>)>, key: Seq<char>) -> Seq<JsonValue> {
    let i = first_index(entries, entry_has_key(key));
    if i < entries.len() {
        entries[i].1@
    } else {
        Seq::empty()
    }
}

/// The student an entry of a sanitized PII batch is about.
pub open spec fn sanitized_student_ref(v: JsonValue) -> Seq<char> {
    members_of(v)[0].value->Text_0@
}

fn position_of_key(entries: &Vec<(String, Vec<JsonValue>)>, key: &str) -> (i: usize)
    ensures
        i == first_index(entries@, entry_has_key(key@)),
{
    let mut i: usize = 0;
    while i < entries.len()
        invariant
            i <= entries@.len(),
            forall|k: int| 0 <= k < i ==> !entry_has_key(key@)(#[trigger] entries@[k]),
        decreases entries@.len() - i,
    {
        if text_eq(entries[i].0.as_str(), key) {
            proof {
                lemma_first_index_is(entries@, entry_has_key(key@), i as int);
            }
            return i;
        }
        i += 1;
    }
    proof {
        lemma_first_index_is(entries@, entry_has_key(key@), i as int);
    }
    i
}

/// The PII batch request as it is persisted: for each student, in ascending
/// order, its question ids and target count, and no crop paths.
pub fn sanitized_pii_batch_request_payload(crop_rows_by_ref: &Vec<(String, Vec<JsonValue>)>) -> (p: JsonValue)
    ensures
        p is Object,
        members_of(p).len() == 2,
        members_of(p)[0].key@ == "students"@ && members_of(p)[0].value is Array && ({
            let items = items_of(members_of(p)[0].value);
            let refs = Seq::new(items.len(), |i: int| sanitized_student_ref(items[i]));
            &&& strictly_sorted(refs)
            &&& forall|y: Seq<char>| #[trigger] refs.contains(y) <==> entry_keys(crop_rows_by_ref@).contains(y)
            &&& forall|i: int| 0 <= i < items.len() ==> is_sanitized_pii_student(
                #[trigger] items[i],
                refs[i],
                rows_of_key(crop_rows_by_ref@, refs[i]),
            )
        }),
        members_of(p)[1].key@ == "pii_runtime"@ && is_text(members_of(p)[1].value, "local_paddle"@),
{
    let keys = sorted_keys(crop_rows_by_ref);
    let mut students: Vec<JsonValue> = Vec::new();
    let mut i: usize = 0;
    while i < keys.len()
        invariant
            i <= keys@.len(),
            students@.len() == i,
            forall|k: int| 0 <= k < i ==> is_sanitized_pii_student(
                #[trigger] students@[k],
                keys@[k]@,
                rows_of_key(crop_rows_by_ref@, keys@[k]@),
            ),
        decreases keys@.len() - i,
    {
        let key = keys[i].as_str();
        let at = position_of_key(crop_rows_by_ref, key);
        let entry = if at < crop_rows_by_ref.len() {
            sanitized_pii_student(key, &crop_rows_by_ref[at].1)
        } else {
            sanitized_pii_student(key, &Vec::new())
        };
        students.push(entry);
        i += 1;
    }
    let ghost items = students@;
    proof {
        let refs = Seq::new(items.len(), |i: int| sanitized_student_ref(items[i]));
        assert(refs =~= texts(keys@));
    }
    let mut m: Vec<JsonMember> = Vec::new();
    m.push(member("students", JsonValue::Array(students)));
    m.push(member("pii_runtime", JsonValue::Text(owned("local_paddle"))));
    JsonValue::Object(m)
}

/// The number of grading workers a configured count asks for, kept
/// between 1 and 4.
pub open spec fn grading_worker_count(configured: i64) -> int {
    if configured < 1 {
        1
    } else if configured > 4 {
        4
    } else {
        configured as int
    }
}

/// The grading runtime configuration: `{max_workers}`, the configured
/// worker count kept between 1 and 4.
pub fn preliminary_grading_runtime_config(configured_max_workers: i64) -> (v: JsonValue)
    ensures
        v is Object,
        members_of(v).len() == 1,
        members_of(v)[0].key@ == "max_workers"@,
        members_of(v)[0].value is Number,
        members_of(v)[0].value->Number_0@ == int_decimal(grading_worker_count(configured_max_workers)),
{
    let workers: i64 = if configured_max_workers < 1 {
        1
    } else if configured_max_workers > 4 {
        4
    } else {
        configured_max_workers
    };
    let mut m: Vec<JsonMember> = Vec::new();
    m.push(member("max_workers", JsonValue::Number(i64_text(workers))));
    JsonValue::Object(m)
}

/// `v` is `{llm_provider}` of the provider `llm_provider`.
pub open spec fn is_provider_object(v: JsonValue, llm_provider: Seq<char>) -> bool {
    &&& v is Object
    &&& members_of(v).len() == 1
    &&& members_of(v)[0].key@ == "llm_provider"@
    &&& is_text(members_of(v)[0].value, llm_provider)
}

/// `p` is the request of a preliminary grading run: the answers to score,
/// the grading runtime configuration, the LLM provider and its
/// configuration.
pub open spec fn is_preliminary_grading_request(
    p: JsonValue,
    answer_score_requests: Seq<JsonValue>,
    configured_max_workers: i64,
    llm_provider: Seq<char>,
    llm_config: JsonValue,
) -> bool {
    &&& p is Object
    &&& members_of(p).len() == 4
    &&& members_of(p)[0].key@ == "answer_score_requests"@ && members_of(p)[0].value is Array
    &&& items_of(members_of(p)[0].value) == answer_score_requests
    &&& members_of(p)[1].key@ == "grading_runtime_config"@ && members_of(members_of(p)[1].value).len() == 1
    &&& members_of(members_of(p)[1].value)[0].key@ == "max_workers"@
    &&& members_of(members_of(p)[1].value)[0].value is Number
    &&& members_of(members_of(p)[1].value)[0].value->Number_0@ == int_decimal(grading_worker_count(configured_max_workers))
    &&& members_of(p)[2].key@ == "providers"@ && is_provider_object(members_of(p)[2].value, llm_provider)
    &&& members_of(p)[3].key@ == "llm_config"@ && members_of(p)[3].value == llm_config
}

/// The request of a preliminary grading run: the answers to score, the
/// grading runtime configuration, the LLM provider and its configuration.
pub fn preliminary_grading_request_payload(
    answer_score_requests: Vec<JsonValue>,
    configured_max_workers: i64,
    llm_provider: &str,
    llm_config: JsonValue,
) -> (p: JsonValue)
    ensures
        is_preliminary_grading_request(p, answer_score_requests@, configured_max_workers, llm_provider@, llm_config),
{
    let mut providers: Vec<JsonMember> = Vec::new();
    providers.push(member("llm_provider", JsonValue::Text(owned(llm_provider))));
    let mut m: Vec<JsonMember> = Vec::new();
    m.push(member("answer_score_requests", JsonValue::Array(answer_score_requests)));
    m.push(member("grading_runtime_config", preliminary_grading_runtime_config(configured_max_workers)));
    m.push(member("providers", JsonValue::Object(providers)));
    m.push(member("llm_config", llm_config));
    JsonValue::Object(m)
}

/// `p` is the request of a feedback or markup stage: the requests under
/// `key`, the LLM provider and its configuration.
pub open spec fn is_grading_stage_request(
    p: JsonValue,
    key: Seq<char>,
    requests: Seq<JsonValue>,
    llm_provider: Seq<char>,
    llm_config: JsonValue,
) -> bool {
    &&& p is Object
    &&& members_of(p).len() == 3
    &&& members_of(p)[0].key@ == key && members_of(p)[0].value is Array && items_of(members_of(p)[0].value) == requests
    &&& members_of(p)[1].key@ == "providers"@ && is_provider_object(members_of(p)[1].value, llm_provider)
    &&& members_of(p)[2].key@ == "llm_config"@ && members_of(p)[2].value == llm_config
}

/// The request of a feedback (`feedback_requests`) or markup
/// (`markup_requests`) stage.
pub fn grading_stage_request(key: &str, requests: Vec<JsonValue>, llm_provider: &str, llm_config: JsonValue) -> (p:
    JsonValue)
    ensures
        is_grading_stage_request(p, key@, requests@, llm_provider@, llm_config),
{
    let mut providers: Vec<JsonMember> = Vec::new();
    providers.push(member("llm_provider", JsonValue::Text(owned(llm_provider))));
    let mut m: Vec<JsonMember> = Vec::new();
    m.push(member(key, JsonValue::Array(requests)));
    m.push(member("providers", JsonValue::Object(providers)));
    m.push(member("llm_config", llm_config));
    JsonValue::Object(m)
}

/// A member value once the rows of `student_ref` are kept alone in it when
/// it is `selected` and holds an array; otherwise it is unchanged.
pub open spec fn scoped_member(
    before: Option<JsonValue>,
    after: Option<JsonValue>,
    selected: bool,
    student_ref: Seq<char>,
) -> bool {
    match before {
        Some(JsonValue::Array(rows)) => if selected {
            after matches Some(JsonValue::Array(kept)) && kept@ == keep(rows@, row_of_student(student_ref))
        } else {
            after == before
        },
        _ => after == before,
    }
}

/// `after` is the `data` object `before` once the rows of `student_ref` are
/// kept alone under each of `row_keys` that holds an array.
pub open spec fn rows_scoped_to_student(
    before: Seq<JsonMember>,
    after: Seq<JsonMember>,
    row_keys: Seq<Seq<char>>,
    student_ref: Seq<char>,
) -> bool {
    forall|k: Seq<char>|
        #![trigger member_value(after, k)]
        scoped_member(member_value(before, k), member_value(after, k), row_keys.contains(k), student_ref)
}

/// The texts of `keys`.
pub open spec fn key_texts(keys: Seq<&str>) -> Seq<Seq<char>> {
    keys.map_values(|k: &str| k@)
}

/// A worker job's reply narrowed to one student of a batch: under each of
/// `row_keys` in the reply's `data`, only the rows of `student_ref` stay;
/// everything else is kept. A reply whose `data` is not an object is
/// refused.
pub fn filtered_completed_by_student(
    completed: CompletedWorkerJob,
    row_keys: &Vec<&str>,
    student_ref: &str,
) -> (r: Result<CompletedWorkerJob, HostError>)
    ensures
        r is Ok <==> (json_get(completed.result.envelope, "data"@) matches Some(d) && d is Object),
        r matches Err(e) ==> e is Protocol && e.msg() == "Worker success envelope was missing data."@,
        r matches Ok(c) ==> {
            &&& c.job_id == completed.job_id
            &&& c.result.terminal_type == completed.result.terminal_type
            &&& c.result.terminal_payload == completed.result.terminal_payload
            &&& c.result.events == completed.result.events
            &&& c.result.envelope is Object
            &&& forall|k: Seq<char>| k != "data"@ ==> #[trigger] json_get(c.result.envelope, k) == json_get(
                completed.result.envelope,
                k,
            )
            &&& json_get(c.result.envelope, "data"@) matches Some(JsonValue::Object(after))
            &&& rows_scoped_to_student(
                members_of(json_get(completed.result.envelope, "data"@)->0),
                members_of(json_get(c.result.envelope, "data"@)->0),
                key_texts(row_keys@),
                student_ref@,
            )
        },
{
    proof {
        reveal_strlit("data");
    }
    let is_object = match get(&completed.result.envelope, "data") {
        Some(JsonValue::Object(_)) => true,
        _ => false,
    };
    if !is_object {
        return Err(HostError::Protocol(owned("Worker success envelope was missing data.")));
    }
    let CompletedWorkerJob { job_id, result } = completed;
    let WorkerJobResult { terminal_type, terminal_payload, envelope, events } = result;
    let ghost old_envelope = envelope;
    let mut members = match envelope {
        JsonValue::Object(m) => m,
        _ => Vec::new(),
    };
    let ghost old_members = members@;
    let mut data = match swap_member_value(&mut members, "data", JsonValue::Null) {
        Some(JsonValue::Object(d)) => d,
        _ => Vec::new(),
    };
    let ghost old_data = data@;
    let mut i: usize = 0;
    while i < row_keys.len()
        invariant
            i <= row_keys@.len(),
            rows_scoped_to_student(old_data, data@, key_texts(row_keys@.take(i as int)), student_ref@),
        decreases row_keys@.len() - i,
    {
        let key = row_keys[i];
        let ghost before = data@;
        let ghost p = row_of_student(student_ref@);
        let ghost prev = key_texts(row_keys@.take(i as int));
        let ghost next = key_texts(row_keys@.take(i + 1));
        proof {
            assert(next =~= prev.push(key@));
            assert(scoped_member(member_value(old_data, key@), member_value(before, key@), prev.contains(key@), student_ref@));
        }
        let taken = swap_member_value(&mut data, key, JsonValue::Null);
        match taken {
            Some(JsonValue::Array(rows)) => {
                let ghost rows_v = rows@;
                let kept = rows_for_student(rows, student_ref);
                let ghost kept_v = kept@;
                swap_member_value(&mut data, key, JsonValue::Array(kept));
                proof {
                    match member_value(old_data, key@) {
                        Some(JsonValue::Array(orig)) => {
                            lemma_keep_idempotent(orig@, p);
                        },
                        _ => {},
                    }
                    assert(scoped_member(member_value(old_data, key@), member_value(data@, key@), true, student_ref@));
                }
            },
            Some(other) => {
                swap_member_value(&mut data, key, other);
                proof {
                    assert(member_value(data@, key@) == member_value(before, key@));
                    assert(scoped_member(member_value(old_data, key@), member_value(data@, key@), true, student_ref@));
                }
            },
            None => {
                proof {
                    assert(scoped_member(member_value(old_data, key@), member_value(data@, key@), true, student_ref@));
                }
            },
        }
        proof {
            assert forall|k: Seq<char>| #![trigger member_value(data@, k)]
                scoped_member(member_value(old_data, k), member_value(data@, k), next.contains(k), student_ref@) by {
                if k == key@ {
                    assert(next.contains(k)) by {
                        assert(next[next.len() - 1] == k);
                    }
                } else {
                    assert(member_value(data@, k) == member_value(before, k));
                    assert(scoped_member(member_value(old_data, k), member_value(before, k), prev.contains(k), student_ref@));
                    if next.contains(k) {
                        let w = choose|w: int| 0 <= w < next.len() && next[w] == k;
                        assert(prev[w] == k);
                    }
                    if prev.contains(k) {
                        let w = choose|w: int| 0 <= w < prev.len() && prev[w] == k;
                        assert(next[w] == k);
                    }
                }
            }
        }
        i += 1;
    }
    proof {
        assert(row_keys@.take(row_keys@.len() as int) =~= row_keys@);
    }
    let ghost new_data = data@;
    swap_member_value(&mut members, "data", JsonValue::Object(data));
    Ok(CompletedWorkerJob {
        job_id,
        result: WorkerJobResult { terminal_type, terminal_payload, envelope: JsonValue::Object(members), events },
    })
}

/// A value, or JSON `null` when there is none.
pub open spec fn value_or_null(v: Option<JsonValue>) -> JsonValue {
    match v {
        Some(x) => x,
        None => JsonValue::Null,
    }
}

/// `t` is the PII target asked for by the crop row `row`: its question and
/// its crop path (`null` where the row has none).
pub open spec fn is_pii_target(t: JsonValue, row: JsonValue) -> bool {
    &&& t is Object
    &&& members_of(t).len() == 2
    &&& members_of(t)[0].key@ == "question_id"@
    &&& members_of(t)[0].value == value_or_null(json_get(row, "question_id"@))
    &&& members_of(t)[1].key@ == "question_crop_path"@
    &&& members_of(t)[1].value == value_or_null(json_get(row, "question_crop_path"@))
}

fn pii_target_of(row: JsonValue) -> (t: JsonValue)
    ensures
        is_pii_target(t, row),
{
    proof {
        reveal_strlit("question_id");
        reveal_strlit("question_crop_path");
    }
    let ghost original = row;
    let (question_id, crop_path) = match row {
        JsonValue::Object(members) => {
            let mut members = members;
            let ghost before = members@;
            let q = swap_member_value(&mut members, "question_id", JsonValue::Null);
            assert("question_crop_path"@ != "question_id"@) by {
                assert("question_crop_path"@.len() != "question_id"@.len());
            }
            assert(member_value(members@, "question_crop_path"@) == member_value(before, "question_crop_path"@));
            let c = swap_member_value(&mut members, "question_crop_path", JsonValue::Null);
            assert(json_get(original, "question_id"@) == member_value(before, "question_id"@));
            (q, c)
        },
        _ => (None, None),
    };
    let q = match question_id {
        Some(v) => v,
        None => JsonValue::Null,
    };
    let c = match crop_path {
        Some(v) => v,
        None => JsonValue::Null,
    };
    let mut m: Vec<JsonMember> = Vec::new();
    m.push(member("question_id", q));
    m.push(member("question_crop_path", c));
    JsonValue::Object(m)
}

/// The PII targets of the clean crop rows, in order.
pub fn pii_targets_from_crop_rows(crop_rows: Vec<JsonValue>) -> (r: Vec<JsonValue>)
    ensures
        r@.len() == keep(crop_rows@, |row: JsonValue| clean_crop_row(row)).len(),
        forall|i: int|
            0 <= i < r@.len() ==> is_pii_target(
                #[trigger] r@[i],
                keep(crop_rows@, |row: JsonValue| clean_crop_row(row))[i],
            ),
{
    let ghost p = |row: JsonValue| clean_crop_row(row);
    let mut rows = crop_rows;
    retain_where(
        &mut rows,
        (|row: &JsonValue| -> (b: bool)
            ensures
                b == clean_crop_row(*row),
            { clean_crop_row_exec(row) }),
        Ghost(p),
    );
    let ghost kept = rows@;
    let mut out: Vec<JsonValue> = Vec::new();
    while rows.len() > 0
        invariant
            out@.len() + rows@.len() == kept.len(),
            rows@ == kept.subrange(out@.len() as int, kept.len() as int),
            forall|i: int| 0 <= i < out@.len() ==> is_pii_target(#[trigger] out@[i], kept[i]),
        decreases rows@.len(),
    {
        let row = rows.remove(0);
        out.push(pii_target_of(row));
        proof {
            assert(rows@ =~= kept.subrange(out@.len() as int, kept.len() as int));
        }
    }
    out
}

/// One student's entry of a PII batch request: the student, the words that
/// identify them, and the PII targets of their clean crop rows.
pub fn pii_student_request(student_ref: &str, trigger_words: &Vec<String>, crop_rows: Vec<JsonValue>) -> (v: JsonValue)
    ensures
        v is Object,
        members_of(v).len() == 3,
        members_of(v)[0].key@ == "student_ref"@ && is_text(members_of(v)[0].value, student_ref@),
        members_of(v)[1].key@ == "pii_trigger_words"@ && is_text_array(members_of(v)[1].value, texts(trigger_words@)),
        members_of(v)[2].key@ == "pii_targets"@ && members_of(v)[2].value is Array && ({
            let targets = items_of(members_of(v)[2].value);
            let kept = keep(crop_rows@, |row: JsonValue| clean_crop_row(row));
            &&& targets.len() == kept.len()
            &&& forall|i: int| 0 <= i < targets.len() ==> is_pii_target(#[trigger] targets[i], kept[i])
        }),
{
    let targets = pii_targets_from_crop_rows(crop_rows);
    let mut m: Vec<JsonMember> = Vec::new();
    m.push(member("student_ref", JsonValue::Text(owned(student_ref))));
    m.push(member("pii_trigger_words", text_array(trigger_words)));
    m.push(member("pii_targets", JsonValue::Array(targets)));
    JsonValue::Object(m)
}

/// Whether the worker ended the job by cancelling it.
pub fn completed_was_cancelled(completed: &CompletedWorkerJob) -> (b: bool)
    ensures
        b == (completed.result.terminal_type@ == "job_cancelled"@),
{
    text_eq(completed.result.terminal_type.as_str(), "job_cancelled")
}

/// The warning on answers sent to manual grading because the student's
/// identity was unavailable for PII screening.
pub fn pii_identity_unavailable_warning() -> (w: WorkspaceWarning)
    ensures
        crate::text::opt_text(w.code) == Some("pii_identity_unavailable"@),
        w.message@ == "Student identity context was unavailable for PII screening, so this answer requires manual grading."@,
        crate::text::opt_text(w.scope) == Some("answer"@),
{
    WorkspaceWarning {
        code: Some(owned("pii_identity_unavailable")),
        message: owned(
            "Student identity context was unavailable for PII screening, so this answer requires manual grading.",
        ),
        scope: Some(owned("answer")),
    }
}

/// The answers that have a crop image, in order.
pub open spec fn cropped_answers(s: StudentWorkflowSubmission) -> Seq<crate::models::StudentWorkflowAnswer> {
    keep(s.answers@, |a: crate::models::StudentWorkflowAnswer| a.crop_image_path is Some)
}

/// `row` is the clean crop row of `student_ref`'s answer to question `q`
/// with its crop at `path`.
pub open spec fn crop_row_of(row: JsonValue, student_ref: Seq<char>, q: Seq<char>, path: Seq<char>) -> bool {
    &&& row is Object
    &&& members_of(row).len() == 4
    &&& members_of(row)[0].key@ == "student_ref"@ && is_text(members_of(row)[0].value, student_ref)
    &&& members_of(row)[1].key@ == "question_id"@ && is_text(members_of(row)[1].value, q)
    &&& members_of(row)[2].key@ == "status"@ && is_text(members_of(row)[2].value, "ok"@)
    &&& members_of(row)[3].key@ == "question_crop_path"@ && is_text(members_of(row)[3].value, path)
}

/// Crop rows rebuilt from the answers that already have crop images, to
/// parse them again.
pub fn crop_rows_from_answers(submission: &StudentWorkflowSubmission) -> (r: Vec<JsonValue>)
    ensures
        r@.len() == cropped_answers(*submission).len(),
        forall|i: int| 0 <= i < r@.len() ==> crop_row_of(
            #[trigger] r@[i],
            submission.student_ref@,
            cropped_answers(*submission)[i].question_id@,
            cropped_answers(*submission)[i].crop_image_path->0@,
        ),
{
    let answers = &submission.answers;
    let ghost p = |a: crate::models::StudentWorkflowAnswer| a.crop_image_path is Some;
    let mut out: Vec<JsonValue> = Vec::new();
    let mut i: usize = 0;
    proof {
        assert(answers@.take(0) =~= Seq::<crate::models::StudentWorkflowAnswer>::empty());
    }
    while i < answers.len()
        invariant
            i <= answers@.len(),
            answers@ == submission.answers@,
            p == (|a: crate::models::StudentWorkflowAnswer| a.crop_image_path is Some),
            out@.len() == keep(answers@.take(i as int), p).len(),
            forall|k: int| 0 <= k < out@.len() ==> crop_row_of(
                #[trigger] out@[k],
                submission.student_ref@,
                keep(answers@.take(i as int), p)[k].question_id@,
                keep(answers@.take(i as int), p)[k].crop_image_path->0@,
            ),
        decreases answers@.len() - i,
    {
        proof {
            lemma_keep_step(answers@, p, i as int);
        }
        if let Some(path) = &answers[i].crop_image_path {
            let mut m: Vec<JsonMember> = Vec::new();
            m.push(member("student_ref", JsonValue::Text(submission.student_ref.clone())));
            m.push(member("question_id", JsonValue::Text(answers[i].question_id.clone())));
            m.push(member("status", JsonValue::Text(owned("ok"))));
            m.push(member("question_crop_path", JsonValue::Text(path.clone())));
            out.push(JsonValue::Object(m));
        }
        i += 1;
    }
    proof {
        assert(answers@.take(i as int) =~= answers@);
    }
    out
}

/// `after` is `before` without the members under `key` when `before` is an
/// object; any other value is kept as it is.
pub open spec fn key_removed(before: JsonValue, after: JsonValue, key: Seq<char>) -> bool {
    if before is Object {
        after is Object && members_of(after) == keep(members_of(before), |m: JsonMember| m.key@ != key)
    } else {
        after == before
    }
}

/// Removes the members under `key` from an object.
pub fn without_key(value: JsonValue, key: &str) -> (r: JsonValue)
    ensures
        key_removed(value, r, key@),
{
    match value {
        JsonValue::Object(members) => {
            let mut kept = members;
            retain_where(
                &mut kept,
                (|m: &JsonMember| -> (b: bool)
                    ensures
                        b == (m.key@ != key@),
                    { !text_eq(m.key.as_str(), key) }),
                Ghost(|m: JsonMember| m.key@ != key@),
            );
            JsonValue::Object(kept)
        },
        other => other,
    }
}

/// Crop targets as the crop command takes them: without the student scope.
pub fn crop_targets_for_cli(targets: Vec<JsonValue>) -> (r: Vec<JsonValue>)
    ensures
        r@.len() == targets@.len(),
        forall|i: int| 0 <= i < r@.len() ==> key_removed(targets@[i], #[trigger] r@[i], "student_ref"@),
{
    let ghost orig = targets@;
    let mut rest = targets;
    let mut out: Vec<JsonValue> = Vec::new();
    let ghost mut i: int = 0;
    proof {
        assert(rest@ =~= orig.skip(0));
    }
    while rest.len() > 0
        invariant
            0 <= i <= orig.len(),
            rest@ == orig.skip(i),
            out@.len() == i,
            forall|k: int| 0 <= k < i ==> key_removed(orig[k], #[trigger] out@[k], "student_ref"@),
        decreases rest@.len(),
    {
        let ghost prev = rest@;
        let target = rest.remove(0);
        proof {
            assert(prev[0] == orig[i]);
            assert(rest@ =~= orig.skip(i + 1));
        }
        out.push(without_key(target, "student_ref"));
        proof {
            i = i + 1;
        }
    }
    out
}

} // verus!
