//! Exporting ready results: the selection of rows, the CSV text (with
//! spreadsheet formulas neutralized), the checks before an HTML/ZIP export,
//! file names, and the export job's events.
use vstd::prelude::*;
use crate::errors::{HostError, RuntimeJobEvent, WorkerStatus};
use crate::json::{count_value, is_count, is_text, member, members_of, JsonMember, JsonValue};
use crate::messages::{concat3, validation, validation_text};
use crate::models::{
    ExamWorkspaceState, QuestionRecord, ResultQuestionRow, ResultStudentRow, StudentIntakeSummary,
    StudentWorkflowAnswer, StudentWorkflowSubmission,
};
use crate::seqs::{first_index, lemma_first_index_is};
use crate::text::{
    ascii_alnum, blank, chars_of, contains_chars, has_substring, int_decimal, is_ascii_alnum,
    is_blank, leading_ws, opt_text, owned, push_char, push_i64, push_text, replace_all, replace_text,
    text_eq, trim, trim_start, trimmed,
};

verus! {

/// How results are exported.
#[derive(Debug, PartialEq, Eq, Structural, Clone, Copy)]
pub enum ResultsExportFormat {
    Csv,
    HtmlZip,
}

/// An export request: the format, the destination and the students.
#[derive(Debug)]
pub struct RunResultsExportInput {
    pub format: ResultsExportFormat,
    pub destination_path: String,
    pub student_refs: Vec<String>,
}

/// What an export produced.
#[derive(Debug, PartialEq, Eq)]
pub struct ResultsExportResponse {
    pub format: ResultsExportFormat,
    pub destination_path: String,
    pub exported_count: i64,
}

// ---------------------------------------------------------------------------
// Selection
// ---------------------------------------------------------------------------

/// The destination path, trimmed; a blank one is an error.
pub fn validate_destination_path(raw_path: &str) -> (r: Result<String, HostError>)
    ensures
        is_blank(raw_path@) ==> (r matches Err(e) && e is Validation && e.msg()
            == "Choose a destination path before exporting Results."@),
        !is_blank(raw_path@) ==> (r matches Ok(p) && p@ == trim(raw_path@)),
{
    let t = trimmed(raw_path);
    if t.unicode_len() == 0 {
        return Err(validation_text("Choose a destination path before exporting Results."));
    }
    Ok(t)
}

/// The distinct non-blank requested references, trimmed, in first-request order.
pub open spec fn distinct_requests(requested: Seq<String>) -> Seq<Seq<char>>
    decreases requested.len(),
{
    if requested.len() == 0 {
        Seq::empty()
    } else {
        let earlier = distinct_requests(requested.drop_last());
        let t = trim(requested.last()@);
        if t.len() == 0 || earlier.contains(t) {
            earlier
        } else {
            earlier.push(t)
        }
    }
}

/// The index of the last row of `student_ref` (what a map keyed by student
/// keeps), or -1.
pub open spec fn last_row_index(rows: Seq<ResultStudentRow>, student_ref: Seq<char>) -> int
    decreases rows.len(),
{
    if rows.len() == 0 {
        -1
    } else if rows.last().student_ref@ == student_ref {
        rows.len() - 1
    } else {
        last_row_index(rows.drop_last(), student_ref)
    }
}

/// Whether a row can be exported.
pub open spec fn export_ready(row: ResultStudentRow) -> bool {
    row.ready_to_finalize && row.aggregate_complete
}

/// Requested references that cannot be exported: unknown or not ready.
pub open spec fn unexportable(rows: Seq<ResultStudentRow>) -> spec_fn(String) -> bool {
    |s: String| trim(s@).len() > 0 && (last_row_index(rows, trim(s@)) < 0 || !export_ready(
        rows[last_row_index(rows, trim(s@))],
    ))
}

proof fn lemma_last_row_index_bounds(rows: Seq<ResultStudentRow>, k: Seq<char>)
    ensures
        -1 <= last_row_index(rows, k) < rows.len(),
        last_row_index(rows, k) >= 0 ==> rows[last_row_index(rows, k)].student_ref@ == k,
        last_row_index(rows, k) < 0 ==> forall|i: int| 0 <= i < rows.len() ==> (#[trigger] rows[i]).student_ref@ != k,
    decreases rows.len(),
{
    if rows.len() > 0 {
        lemma_last_row_index_bounds(rows.drop_last(), k);
        if rows.last().student_ref@ != k {
            assert forall|i: int| 0 <= i < rows.len() - 1 implies rows.drop_last()[i] == rows[i] by {}
        }
    }
}

fn find_last_row(rows: &Vec<ResultStudentRow>, student_ref: &str) -> (r: Option<usize>)
    ensures
        match r {
            Some(i) => i as int == last_row_index(rows@, student_ref@) && i < rows@.len(),
            None => last_row_index(rows@, student_ref@) == -1,
        },
{
    let mut i: usize = rows.len();
    proof {
        assert(rows@.take(i as int) =~= rows@);
    }
    while i > 0
        invariant
            i <= rows@.len(),
            last_row_index(rows@, student_ref@) == last_row_index(rows@.take(i as int), student_ref@),
        decreases i,
    {
        proof {
            assert(rows@.take(i as int).drop_last() =~= rows@.take(i - 1));
            assert(rows@.take(i as int).last() == rows@[i - 1]);
        }
        if text_eq(rows[i - 1].student_ref.as_str(), student_ref) {
            return Some(i - 1);
        }
        i -= 1;
    }
    proof {
        assert(rows@.take(0) =~= Seq::<ResultStudentRow>::empty());
    }
    None
}

/// Whether `v` holds the text `x`.
fn holds(v: &Vec<String>, x: &str) -> (r: bool)
    ensures
        r == crate::sorted::texts(v@).contains(x@),
{
    let mut i: usize = 0;
    while i < v.len()
        invariant
            i <= v@.len(),
            forall|k: int| 0 <= k < i ==> v@[k]@ != x@,
        decreases v@.len() - i,
    {
        if text_eq(v[i].as_str(), x) {
            proof {
                assert(crate::sorted::texts(v@)[i as int] == x@);
            }
            return true;
        }
        i += 1;
    }
    proof {
        if crate::sorted::texts(v@).contains(x@) {
            let w = choose|w: int| 0 <= w < v@.len() && crate::sorted::texts(v@)[w] == x@;
            assert(v@[w]@ == x@);
        }
    }
    false
}

/// The rows to export (as indices into `rows`), one per distinct requested
/// student in request order, each the last row of that student. An empty
/// request, an unknown or unready student, or a request naming nobody is an
/// error (the first offending student is named).
pub fn selected_ready_rows(rows: &Vec<ResultStudentRow>, requested: &Vec<String>) -> (r: Result<
    Vec<usize>,
    HostError,
>)
    ensures
        ({
            let u = first_index(requested@, unexportable(rows@));
            let d = distinct_requests(requested@);
            &&& requested@.len() == 0 ==> (r matches Err(e) && e is Validation && e.msg()
                == "Select at least one ready result before exporting."@)
            &&& requested@.len() > 0 && u < requested@.len() && last_row_index(rows@, trim(requested@[u]@)) < 0
                ==> (r matches Err(e) && e is Validation && e.msg() == "Result row '"@ + trim(
                requested@[u]@,
            ) + "' was not found."@)
            &&& requested@.len() > 0 && u < requested@.len() && last_row_index(rows@, trim(requested@[u]@)) >= 0
                ==> (r matches Err(e) && e is Validation && e.msg() == "Result row '"@ + trim(
                requested@[u]@,
            ) + "' is not ready to export."@)
            &&& requested@.len() > 0 && u >= requested@.len() && d.len() == 0 ==> (r matches Err(e)
                && e is Validation && e.msg() == "Select at least one ready result before exporting."@)
            &&& r is Ok <==> requested@.len() > 0 && u >= requested@.len() && d.len() > 0
            &&& r matches Ok(idx) ==> idx@.len() == d.len() && (forall|i: int|
                0 <= i < idx@.len() ==> #[trigger] idx@[i] as int == last_row_index(rows@, d[i])
                    && export_ready(rows@[idx@[i] as int]))
        }),
{
    if requested.len() == 0 {
        return Err(validation_text("Select at least one ready result before exporting."));
    }
    let mut seen: Vec<String> = Vec::new();
    let mut out: Vec<usize> = Vec::new();
    let mut i: usize = 0;
    proof {
        assert(requested@.take(0) =~= Seq::<String>::empty());
    }
    while i < requested.len()
        invariant
            i <= requested@.len(),
            forall|k: int| 0 <= k < i ==> !unexportable(rows@)(#[trigger] requested@[k]),
            crate::sorted::texts(seen@) == distinct_requests(requested@.take(i as int)),
            out@.len() == seen@.len(),
            forall|w: int|
                0 <= w < out@.len() ==> #[trigger] out@[w] as int == last_row_index(rows@, seen@[w]@)
                    && export_ready(rows@[out@[w] as int]) && out@[w] < rows@.len(),
        decreases requested@.len() - i,
    {
        proof {
            assert(requested@.take(i + 1).drop_last() =~= requested@.take(i as int));
            assert(requested@.take(i + 1).last() == requested@[i as int]);
        }
        let t = trimmed(requested[i].as_str());
        if t.unicode_len() == 0 || holds(&seen, t.as_str()) {
            proof {
                if t@.len() > 0 {
                    let w = choose|w: int| 0 <= w < seen@.len() && crate::sorted::texts(seen@)[w] == t@;
                    assert(seen@[w]@ == t@);
                    assert(out@[w] as int == last_row_index(rows@, t@));
                }
                assert(!unexportable(rows@)(requested@[i as int]));
            }
            i += 1;
            continue;
        }
        let idx = match find_last_row(rows, t.as_str()) {
            Some(idx) => idx,
            None => {
                proof {
                    lemma_first_index_is(requested@, unexportable(rows@), i as int);
                }
                return Err(validation(concat3("Result row '", t.as_str(), "' was not found.")));
            },
        };
        if !rows[idx].ready_to_finalize || !rows[idx].aggregate_complete {
            proof {
                lemma_first_index_is(requested@, unexportable(rows@), i as int);
            }
            return Err(validation(concat3("Result row '", t.as_str(), "' is not ready to export.")));
        }
        let ghost before_seen = seen@;
        seen.push(t);
        out.push(idx);
        proof {
            assert(crate::sorted::texts(seen@) =~= crate::sorted::texts(before_seen).push(
                trim(requested@[i as int]@),
            ));
        }
        i += 1;
    }
    proof {
        lemma_first_index_is(requested@, unexportable(rows@), i as int);
        assert(requested@.take(i as int) =~= requested@);
    }
    if out.len() == 0 {
        return Err(validation_text("Select at least one ready result before exporting."));
    }
    proof {
        assert forall|w: int| 0 <= w < out@.len() implies #[trigger] out@[w] as int == last_row_index(
            rows@,
            distinct_requests(requested@)[w],
        ) && export_ready(rows@[out@[w] as int]) by {
            assert(crate::sorted::texts(seen@)[w] == seen@[w]@);
        }
    }
    Ok(out)
}

// ---------------------------------------------------------------------------
// CSV
// ---------------------------------------------------------------------------

/// A value a spreadsheet would run as a formula (its first character after
/// leading white space is `=`, `+`, `-` or `@`) is prefixed with `'`.
pub open spec fn neutralized(value: Seq<char>) -> Seq<char> {
    let t = trim_start(value);
    if t.len() > 0 && (t[0] == '=' || t[0] == '+' || t[0] == '-' || t[0] == '@') {
        seq!['\''] + value
    } else {
        value
    }
}

/// Prefixes formula-like values with `'` (see `neutralized`).
pub fn neutralize_csv_formula(value: &str) -> (out: String)
    ensures
        out@ == neutralized(value@),
{
    let v = chars_of(value);
    let mut i: usize = 0;
    while i < v.len() && crate::text::is_whitespace(v[i])
        invariant
            i <= v@.len(),
            v@ == value@,
            forall|k: int| 0 <= k < i ==> crate::text::is_white_space(#[trigger] v@[k]),
        decreases v@.len() - i,
    {
        i += 1;
    }
    proof {
        crate::text::lemma_leading_ws_is(v@, i as int);
    }
    if i < v.len() && (v[i] == '=' || v[i] == '+' || v[i] == '-' || v[i] == '@') {
        let mut out = String::new();
        push_char(&mut out, '\'');
        push_text(&mut out, value);
        proof {
            assert(trim_start(v@)[0] == v@[i as int]);
            assert(out@ =~= seq!['\''] + value@);
        }
        return out;
    }
    proof {
        if trim_start(v@).len() > 0 {
            assert(trim_start(v@)[0] == v@[i as int]);
        }
    }
    owned(value)
}

/// Whether a CSV field must be quoted: it holds a comma, quote or line break.
pub open spec fn needs_quotes(value: Seq<char>) -> bool {
    value.contains(',') || value.contains('"') || value.contains('\n') || value.contains('\r')
}

/// One CSV field: neutralized, then quoted (with quotes doubled) when needed.
pub open spec fn csv_field(value: Seq<char>) -> Seq<char> {
    let safe = neutralized(value);
    if needs_quotes(safe) {
        seq!['"'] + replace_all(safe, seq!['"'], seq!['"', '"']) + seq!['"']
    } else {
        safe
    }
}

fn holds_char(v: &Vec<char>, c: char) -> (r: bool)
    ensures
        r == v@.contains(c),
{
    let mut i: usize = 0;
    while i < v.len()
        invariant
            i <= v@.len(),
            forall|k: int| 0 <= k < i ==> v@[k] != c,
        decreases v@.len() - i,
    {
        if v[i] == c {
            return true;
        }
        i += 1;
    }
    false
}

/// One CSV field (see `csv_field`).
pub fn escape_csv_field(value: &str) -> (out: String)
    ensures
        out@ == csv_field(value@),
{
    let safe = neutralize_csv_formula(value);
    let chars = chars_of(safe.as_str());
    if holds_char(&chars, ',') || holds_char(&chars, '"') || holds_char(&chars, '\n') || holds_char(
        &chars,
        '\r',
    ) {
        let mut quote = String::new();
        push_char(&mut quote, '"');
        let mut doubled = String::new();
        push_char(&mut doubled, '"');
        push_char(&mut doubled, '"');
        let inner = replace_text(safe.as_str(), quote.as_str(), doubled.as_str());
        let mut out = String::new();
        push_char(&mut out, '"');
        push_text(&mut out, inner.as_str());
        push_char(&mut out, '"');
        proof {
            assert(quote@ =~= seq!['"']);
            assert(doubled@ =~= seq!['"', '"']);
            assert(out@ =~= csv_field(value@));
        }
        return out;
    }
    safe
}

/// A CSV record: the fields separated by commas, ended by a line break.
pub open spec fn csv_line(values: Seq<Seq<char>>) -> Seq<char> {
    csv_fields(values) + seq!['\n']
}

/// The fields of a CSV record separated by commas.
pub open spec fn csv_fields(values: Seq<Seq<char>>) -> Seq<char>
    decreases values.len(),
{
    if values.len() == 0 {
        Seq::empty()
    } else if values.len() == 1 {
        csv_field(values[0])
    } else {
        csv_fields(values.drop_last()) + seq![','] + csv_field(values.last())
    }
}

/// Appends one CSV record to `output`.
pub fn push_csv_record(output: &mut String, values: &Vec<String>)
    ensures
        final(output)@ == old(output)@ + csv_line(crate::sorted::texts(values@)),
{
    let ghost vt = crate::sorted::texts(values@);
    let mut i: usize = 0;
    proof {
        assert(vt.take(0) =~= Seq::<Seq<char>>::empty());
        assert(output@ =~= old(output)@ + csv_fields(vt.take(0)));
    }
    while i < values.len()
        invariant
            i <= values@.len(),
            vt == crate::sorted::texts(values@),
            output@ == old(output)@ + csv_fields(vt.take(i as int)),
        decreases values@.len() - i,
    {
        if i > 0 {
            push_char(output, ',');
        }
        let field = escape_csv_field(values[i].as_str());
        push_text(output, field.as_str());
        proof {
            assert(vt.take(i + 1).drop_last() =~= vt.take(i as int));
            assert(vt.take(i + 1).last() == values@[i as int]@);
            if i == 0 {
                assert(vt.take(1)[0] == values@[0]@);
            }
            assert(output@ =~= old(output)@ + csv_fields(vt.take(i + 1)));
        }
        i += 1;
    }
    push_char(output, '\n');
    proof {
        assert(vt.take(i as int) =~= vt);
        assert(output@ =~= old(output)@ + csv_line(vt));
    }
}

/// The CSV header: student, name, score and percent, then a score and a
/// feedback column per question.
pub open spec fn csv_header_texts(questions: Seq<QuestionRecord>) -> Seq<Seq<char>>
    decreases questions.len(),
{
    if questions.len() == 0 {
        seq!["student_ref"@, "display_name"@, "aggregate_score"@, "aggregate_percent"@]
    } else {
        let n = int_decimal(questions.last().question_number as int);
        csv_header_texts(questions.drop_last()).push("q"@ + n + "_score"@).push("q"@ + n + "_feedback"@)
    }
}

/// The CSV header for the questions of the exam.
pub fn csv_header(questions: &Vec<QuestionRecord>) -> (r: Vec<String>)
    ensures
        crate::sorted::texts(r@) == csv_header_texts(questions@),
        r@.len() == 4 + 2 * questions@.len(),
{
    let mut r: Vec<String> = Vec::new();
    r.push(owned("student_ref"));
    r.push(owned("display_name"));
    r.push(owned("aggregate_score"));
    r.push(owned("aggregate_percent"));
    let mut i: usize = 0;
    proof {
        assert(questions@.take(0) =~= Seq::<QuestionRecord>::empty());
        assert(crate::sorted::texts(r@) =~= csv_header_texts(questions@.take(0)));
    }
    while i < questions.len()
        invariant
            i <= questions@.len(),
            crate::sorted::texts(r@) == csv_header_texts(questions@.take(i as int)),
        decreases questions@.len() - i,
    {
        let mut score = owned("q");
        push_i64(&mut score, questions[i].question_number);
        push_text(&mut score, "_score");
        let mut feedback = owned("q");
        push_i64(&mut feedback, questions[i].question_number);
        push_text(&mut feedback, "_feedback");
        let ghost before = r@;
        r.push(score);
        r.push(feedback);
        proof {
            assert(questions@.take(i + 1).drop_last() =~= questions@.take(i as int));
            assert(questions@.take(i + 1).last() == questions@[i as int]);
            assert(crate::sorted::texts(r@) =~= crate::sorted::texts(before).push(
                "q"@ + int_decimal(questions@[i as int].question_number as int) + "_score"@,
            ).push("q"@ + int_decimal(questions@[i as int].question_number as int) + "_feedback"@));
        }
        i += 1;
    }
    proof {
        assert(questions@.take(i as int) =~= questions@);
        lemma_csv_header_len(questions@);
    }
    r
}

/// The local name of `student_ref`: from the last intake item of the student
/// with a non-blank name, trimmed.
pub open spec fn local_name(items: Seq<StudentIntakeSummary>, student_ref: Seq<char>) -> Option<Seq<char>>
    decreases items.len(),
{
    if items.len() == 0 {
        None
    } else {
        let last = items.last();
        if last.student_ref@ == student_ref && last.local_display_name is Some && trim(
            last.local_display_name->Some_0@,
        ).len() > 0 {
            Some(trim(last.local_display_name->Some_0@))
        } else {
            local_name(items.drop_last(), student_ref)
        }
    }
}

fn find_local_name(items: &Vec<StudentIntakeSummary>, student_ref: &str) -> (r: String)
    ensures
        r@ == match local_name(items@, student_ref@) {
            Some(n) => n,
            None => Seq::empty(),
        },
{
    let mut i: usize = items.len();
    proof {
        assert(items@.take(i as int) =~= items@);
    }
    while i > 0
        invariant
            i <= items@.len(),
            local_name(items@, student_ref@) == local_name(items@.take(i as int), student_ref@),
        decreases i,
    {
        proof {
            assert(items@.take(i as int).drop_last() =~= items@.take(i - 1));
            assert(items@.take(i as int).last() == items@[i - 1]);
        }
        let item = &items[i - 1];
        if text_eq(item.student_ref.as_str(), student_ref) {
            match &item.local_display_name {
                Some(name) => {
                    let t = trimmed(name.as_str());
                    if t.unicode_len() > 0 {
                        return t;
                    }
                },
                None => {},
            }
        }
        i -= 1;
    }
    proof {
        assert(items@.take(0) =~= Seq::<StudentIntakeSummary>::empty());
    }
    String::new()
}

/// The first row of question `id` among a student's question rows.
pub open spec fn question_row_of(id: Seq<char>) -> spec_fn(ResultQuestionRow) -> bool {
    |q: ResultQuestionRow| q.question_id@ == id
}

/// The score and feedback columns of one question for one student (empty when
/// the student has no row for the question).
pub open spec fn question_fields(row: ResultStudentRow, id: Seq<char>) -> Seq<Seq<char>> {
    let i = first_index(row.question_rows@, question_row_of(id));
    if i < row.question_rows@.len() {
        let q = row.question_rows@[i];
        seq![
            match q.effective_total_points {
                Some(p) => int_decimal(p as int),
                None => Seq::empty(),
            },
            q.effective_feedback_text@,
        ]
    } else {
        seq![Seq::empty(), Seq::empty()]
    }
}

fn position_of_question_row(qrows: &Vec<ResultQuestionRow>, question_id: &str) -> (r: usize)
    ensures
        r == first_index(qrows@, question_row_of(question_id@)),
        r <= qrows@.len(),
{
    let mut i: usize = 0;
    while i < qrows.len()
        invariant
            i <= qrows@.len(),
            forall|k: int| 0 <= k < i ==> !question_row_of(question_id@)(#[trigger] qrows@[k]),
        decreases qrows@.len() - i,
    {
        if text_eq(qrows[i].question_id.as_str(), question_id) {
            proof {
                lemma_first_index_is(qrows@, question_row_of(question_id@), i as int);
            }
            return i;
        }
        i += 1;
    }
    proof {
        lemma_first_index_is(qrows@, question_row_of(question_id@), i as int);
    }
    i
}

/// Appends the score and feedback columns of question `question_id`.
pub fn push_question_csv_fields(row: &ResultStudentRow, question_id: &str, record: &mut Vec<String>)
    ensures
        crate::sorted::texts(final(record)@) == crate::sorted::texts(old(record)@) + question_fields(
            *row,
            question_id@,
        ),
{
    let qrows = &row.question_rows;
    let i = position_of_question_row(qrows, question_id);
    let ghost before = record@;
    if i == qrows.len() {
        record.push(String::new());
        record.push(String::new());
    } else {
        let score = match qrows[i].effective_total_points {
            Some(p) => {
                let mut s = String::new();
                push_i64(&mut s, p);
                s
            },
            None => String::new(),
        };
        record.push(score);
        record.push(qrows[i].effective_feedback_text.clone());
    }
    proof {
        assert(crate::sorted::texts(record@) =~= crate::sorted::texts(before) + question_fields(
            *row,
            question_id@,
        ));
    }
}

/// The maximum a percentage is computed against: the sum of the question
/// maxima when all are known and the sum is positive.
pub open spec fn percent_basis(row: ResultStudentRow) -> Option<int> {
    if crate::report::all_max_points_known(row.question_rows@) && crate::seqs::sum_of(
        row.question_rows@,
        crate::report::row_max_points(),
    ) > 0 {
        Some(crate::seqs::sum_of(row.question_rows@, crate::report::row_max_points()))
    } else {
        None
    }
}

/// The maximum the aggregate percentage of `row` is computed against, if any
/// (see `percent_basis`); the percentage itself is formatted by the caller.
pub fn aggregate_percent_basis(row: &ResultStudentRow) -> (r: Option<i64>)
    requires
        crate::report::max_points_total_fits(row.question_rows@),
    ensures
        match r {
            Some(m) => percent_basis(*row) == Some(m as int),
            None => percent_basis(*row) is None,
        },
{
    let rows = &row.question_rows;
    let mut i: usize = 0;
    while i < rows.len()
        invariant
            rows == row.question_rows,
            i <= rows@.len(),
            forall|k: int| 0 <= k < i ==> (#[trigger] rows@[k]).max_points is Some,
        decreases rows@.len() - i,
    {
        if rows[i].max_points.is_none() {
            proof {
                assert(!(rows@[i as int].max_points is Some));
                assert(!crate::report::all_max_points_known(rows@));
            }
            return None;
        }
        i += 1;
    }
    let mut total: i64 = 0;
    let mut j: usize = 0;
    proof {
        assert(rows@.take(0) =~= Seq::<ResultQuestionRow>::empty());
    }
    while j < rows.len()
        invariant
            j <= rows@.len(),
            crate::report::all_max_points_known(rows@),
            crate::report::max_points_total_fits(rows@),
            total == crate::seqs::sum_of(rows@.take(j as int), crate::report::row_max_points()),
        decreases rows@.len() - j,
    {
        proof {
            crate::seqs::lemma_sum_of_take_step(rows@, crate::report::row_max_points(), j as int);
            assert(rows@[j as int].max_points is Some);
        }
        let m = match rows[j].max_points {
            Some(m) => m,
            None => 0,
        };
        total = total + m;
        j += 1;
    }
    proof {
        assert(rows@.take(j as int) =~= rows@);
    }
    if total > 0 {
        Some(total)
    } else {
        None
    }
}

/// The CSV record of one student: student, local name, aggregate total, the
/// percentage text given (empty when absent), then each question's score
/// and feedback.
pub open spec fn csv_record_texts(
    row: ResultStudentRow,
    items: Seq<StudentIntakeSummary>,
    questions: Seq<QuestionRecord>,
    percent: Option<Seq<char>>,
) -> Seq<Seq<char>>
    decreases questions.len(),
{
    if questions.len() == 0 {
        seq![
            row.student_ref@,
            match local_name(items, row.student_ref@) {
                Some(n) => n,
                None => Seq::empty(),
            },
            int_decimal(row.aggregate_total as int),
            match percent {
                Some(p) => p,
                None => Seq::empty(),
            },
        ]
    } else {
        csv_record_texts(row, items, questions.drop_last(), percent) + question_fields(
            row,
            questions.last().question_id@,
        )
    }
}

/// The CSV record of one student (see `csv_record_texts`).
pub fn csv_record_for_row(
    row: &ResultStudentRow,
    items: &Vec<StudentIntakeSummary>,
    questions: &Vec<QuestionRecord>,
    percent: Option<String>,
) -> (r: Vec<String>)
    ensures
        crate::sorted::texts(r@) == csv_record_texts(*row, items@, questions@, opt_text(percent)),
        r@.len() == 4 + 2 * questions@.len(),
{
    let mut total = String::new();
    push_i64(&mut total, row.aggregate_total);
    let percent_text = match percent {
        Some(p) => p,
        None => String::new(),
    };
    let mut r: Vec<String> = Vec::new();
    r.push(row.student_ref.clone());
    r.push(find_local_name(items, row.student_ref.as_str()));
    r.push(total);
    r.push(percent_text);
    let mut i: usize = 0;
    proof {
        assert(questions@.take(0) =~= Seq::<QuestionRecord>::empty());
        assert(crate::sorted::texts(r@) =~= csv_record_texts(*row, items@, questions@.take(0), opt_text(percent)));
    }
    while i < questions.len()
        invariant
            i <= questions@.len(),
            crate::sorted::texts(r@) == csv_record_texts(*row, items@, questions@.take(i as int), opt_text(percent)),
        decreases questions@.len() - i,
    {
        push_question_csv_fields(row, questions[i].question_id.as_str(), &mut r);
        proof {
            assert(questions@.take(i + 1).drop_last() =~= questions@.take(i as int));
            assert(questions@.take(i + 1).last() == questions@[i as int]);
        }
        i += 1;
    }
    proof {
        assert(questions@.take(i as int) =~= questions@);
        law_csv_record_matches_header(*row, items@, questions@, opt_text(percent));
    }
    r
}

proof fn lemma_csv_header_len(questions: Seq<QuestionRecord>)
    ensures
        csv_header_texts(questions).len() == 4 + 2 * questions.len(),
    decreases questions.len(),
{
    if questions.len() > 0 {
        lemma_csv_header_len(questions.drop_last());
    }
}

/// Every CSV record has as many fields as the header: four, then two per
/// question.
pub proof fn law_csv_record_matches_header(
    row: ResultStudentRow,
    items: Seq<StudentIntakeSummary>,
    questions: Seq<QuestionRecord>,
    percent: Option<Seq<char>>,
)
    ensures
        csv_record_texts(row, items, questions, percent).len() == 4 + 2 * questions.len(),
        csv_header_texts(questions).len() == 4 + 2 * questions.len(),
    decreases questions.len(),
{
    lemma_csv_header_len(questions);
    if questions.len() > 0 {
        law_csv_record_matches_header(row, items, questions.drop_last(), percent);
    }
}

/// Each field of a CSV record stands in its column: student, local name
/// (empty when none), aggregate total, percentage text (empty when none),
/// then for each question its score and feedback fields under the header's
/// `q<n>_score` and `q<n>_feedback` columns.
pub proof fn law_csv_record_fields(
    row: ResultStudentRow,
    items: Seq<StudentIntakeSummary>,
    questions: Seq<QuestionRecord>,
    percent: Option<Seq<char>>,
)
    ensures
        ({
            let r = csv_record_texts(row, items, questions, percent);
            let h = csv_header_texts(questions);
            &&& r.len() == h.len()
            &&& r[0] == row.student_ref@
            &&& r[1] == match local_name(items, row.student_ref@) {
                Some(n) => n,
                None => Seq::empty(),
            }
            &&& r[2] == int_decimal(row.aggregate_total as int)
            &&& r[3] == match percent {
                Some(p) => p,
                None => Seq::empty(),
            }
            &&& h[0] == "student_ref"@ && h[1] == "display_name"@ && h[2] == "aggregate_score"@ && h[3]
                == "aggregate_percent"@
            &&& forall|i: int|
                0 <= i < questions.len() ==> {
                    let f = question_fields(row, (#[trigger] questions[i]).question_id@);
                    let n = int_decimal(questions[i].question_number as int);
                    &&& r[4 + 2 * i] == f[0] && r[5 + 2 * i] == f[1]
                    &&& h[4 + 2 * i] == "q"@ + n + "_score"@ && h[5 + 2 * i] == "q"@ + n + "_feedback"@
                }
        }),
    decreases questions.len(),
{
    law_csv_record_matches_header(row, items, questions, percent);
    if questions.len() > 0 {
        let q0 = questions.drop_last();
        law_csv_record_fields(row, items, q0, percent);
        law_csv_record_matches_header(row, items, q0, percent);
        let r0 = csv_record_texts(row, items, q0, percent);
        let h0 = csv_header_texts(q0);
        let r = csv_record_texts(row, items, questions, percent);
        let h = csv_header_texts(questions);
        let last = questions.len() - 1;
        let f = question_fields(row, questions[last].question_id@);
        assert(f.len() == 2);
        assert(r == r0 + f);
        assert forall|i: int| 0 <= i < questions.len() implies {
            let f = question_fields(row, (#[trigger] questions[i]).question_id@);
            let n = int_decimal(questions[i].question_number as int);
            &&& r[4 + 2 * i] == f[0] && r[5 + 2 * i] == f[1]
            &&& h[4 + 2 * i] == "q"@ + n + "_score"@ && h[5 + 2 * i] == "q"@ + n + "_feedback"@
        } by {
            if i < last {
                assert(questions[i] == q0[i]);
                assert(r[4 + 2 * i] == r0[4 + 2 * i]);
                assert(r[5 + 2 * i] == r0[5 + 2 * i]);
                assert(h[4 + 2 * i] == h0[4 + 2 * i]);
                assert(h[5 + 2 * i] == h0[5 + 2 * i]);
            }
        }
    }
}

/// The score column of a question in a CSV record holds the points the
/// student's first row for that question was awarded in effect (its
/// `effective_total_points` as decimal text, empty when none), and the
/// feedback column holds that row's effective feedback; both are empty when
/// the student has no row for the question. The question's maximum plays no
/// part.
pub proof fn law_csv_question_columns(
    row: ResultStudentRow,
    items: Seq<StudentIntakeSummary>,
    questions: Seq<QuestionRecord>,
    percent: Option<Seq<char>>,
    i: int,
)
    requires
        0 <= i < questions.len(),
    ensures
        ({
            let r = csv_record_texts(row, items, questions, percent);
            let qrows = row.question_rows@;
            let id = questions[i].question_id@;
            &&& (forall|k: int| 0 <= k < qrows.len() ==> (#[trigger] qrows[k]).question_id@ != id) ==> r[4 + 2 * i]
                == Seq::<char>::empty() && r[5 + 2 * i] == Seq::<char>::empty()
            &&& forall|k: int|
                0 <= k < qrows.len() && (#[trigger] qrows[k]).question_id@ == id && (forall|j: int|
                    0 <= j < k ==> qrows[j].question_id@ != id) ==> r[4 + 2 * i] == match qrows[k].effective_total_points {
                    Some(p) => int_decimal(p as int),
                    None => Seq::<char>::empty(),
                } && r[5 + 2 * i] == qrows[k].effective_feedback_text@
        }),
{
    law_csv_record_fields(row, items, questions, percent);
    let qrows = row.question_rows@;
    let id = questions[i].question_id@;
    assert(questions[i] == questions[i]);
    if forall|k: int| 0 <= k < qrows.len() ==> (#[trigger] qrows[k]).question_id@ != id {
        assert forall|k: int| 0 <= k < qrows.len() implies !question_row_of(id)(#[trigger] qrows[k]) by {}
        lemma_first_index_is(qrows, question_row_of(id), qrows.len() as int);
    }
    assert forall|k: int|
        0 <= k < qrows.len() && (#[trigger] qrows[k]).question_id@ == id && (forall|j: int|
            0 <= j < k ==> qrows[j].question_id@ != id) implies csv_record_texts(row, items, questions, percent)[4 + 2 * i]
        == match qrows[k].effective_total_points {
        Some(p) => int_decimal(p as int),
        None => Seq::<char>::empty(),
    } && csv_record_texts(row, items, questions, percent)[5 + 2 * i] == qrows[k].effective_feedback_text@ by {
        assert forall|j: int| 0 <= j < k implies !question_row_of(id)(#[trigger] qrows[j]) by {}
        lemma_first_index_is(qrows, question_row_of(id), k);
    }
}

/// The CSV records of the selected rows (indices into `rows`), each with its
/// percentage text.
pub open spec fn csv_records(
    rows: Seq<ResultStudentRow>,
    items: Seq<StudentIntakeSummary>,
    questions: Seq<QuestionRecord>,
    indices: Seq<usize>,
    percents: Seq<Option<String>>,
) -> Seq<char>
    decreases indices.len(),
{
    if indices.len() == 0 {
        Seq::empty()
    } else {
        csv_records(rows, items, questions, indices.drop_last(), percents) + csv_line(
            csv_record_texts(
                rows[indices.last() as int],
                items,
                questions,
                opt_text(percents[indices.len() - 1]),
            ),
        )
    }
}

/// The CSV export of the selected rows (indices into the workspace's result
/// rows): the header, then one record per row with its percentage text.
pub fn build_csv_export(
    workspace: &ExamWorkspaceState,
    row_indices: &Vec<usize>,
    percents: &Vec<Option<String>>,
) -> (csv: String)
    requires
        row_indices@.len() == percents@.len(),
        forall|i: int| 0 <= i < row_indices@.len() ==> #[trigger] row_indices@[i] < workspace.results_lms_rows@.len(),
    ensures
        csv@ == csv_line(csv_header_texts(workspace.questions@)) + csv_records(
            workspace.results_lms_rows@,
            workspace.student_intake_items@,
            workspace.questions@,
            row_indices@,
            percents@,
        ),
{
    let header = csv_header(&workspace.questions);
    let mut csv = String::new();
    push_csv_record(&mut csv, &header);
    let mut i: usize = 0;
    proof {
        assert(row_indices@.take(0) =~= Seq::<usize>::empty());
        assert(csv@ =~= csv_line(csv_header_texts(workspace.questions@)) + csv_records(
            workspace.results_lms_rows@,
            workspace.student_intake_items@,
            workspace.questions@,
            row_indices@.take(0),
            percents@,
        ));
    }
    while i < row_indices.len()
        invariant
            i <= row_indices@.len(),
            row_indices@.len() == percents@.len(),
            forall|k: int| 0 <= k < row_indices@.len() ==> #[trigger] row_indices@[k] < workspace.results_lms_rows@.len(),
            csv@ == csv_line(csv_header_texts(workspace.questions@)) + csv_records(
                workspace.results_lms_rows@,
                workspace.student_intake_items@,
                workspace.questions@,
                row_indices@.take(i as int),
                percents@,
            ),
        decreases row_indices@.len() - i,
    {
        let percent = match &percents[i] {
            Some(p) => Some(p.clone()),
            None => None,
        };
        let record = csv_record_for_row(
            &workspace.results_lms_rows[row_indices[i]],
            &workspace.student_intake_items,
            &workspace.questions,
            percent,
        );
        push_csv_record(&mut csv, &record);
        proof {
            assert(row_indices@.take(i + 1).drop_last() =~= row_indices@.take(i as int));
            assert(row_indices@.take(i + 1).last() == row_indices@[i as int]);
            assert(csv@ =~= csv_line(csv_header_texts(workspace.questions@)) + csv_records(
                workspace.results_lms_rows@,
                workspace.student_intake_items@,
                workspace.questions@,
                row_indices@.take(i + 1),
                percents@,
            ));
        }
        i += 1;
    }
    proof {
        assert(row_indices@.take(i as int) =~= row_indices@);
    }
    csv
}

// ---------------------------------------------------------------------------
// HTML/ZIP export
// ---------------------------------------------------------------------------

/// A character kept in an exported file name: ASCII letters, digits, `.`, `_`, `-`.
pub open spec fn file_name_char(c: char) -> char {
    if is_ascii_alnum(c) || c == '.' || c == '_' || c == '-' {
        c
    } else {
        '_'
    }
}

/// `name` with every other character than ASCII letters, digits, `.`, `_`
/// and `-` replaced by `_`.
pub open spec fn sanitized_file_name(name: Seq<char>) -> Seq<char> {
    name.map_values(|c: char| file_name_char(c))
}

/// Makes `file_name` safe as a file name or ZIP entry (see `sanitized_file_name`).
pub fn sanitize_file_component(file_name: &str) -> (out: String)
    ensures
        out@ == sanitized_file_name(file_name@),
{
    let v = chars_of(file_name);
    let mut out = String::new();
    let mut i: usize = 0;
    while i < v.len()
        invariant
            i <= v@.len(),
            v@ == file_name@,
            out@ == sanitized_file_name(v@.take(i as int)),
        decreases v@.len() - i,
    {
        let c = v[i];
        let kept = if ascii_alnum(c) || c == '.' || c == '_' || c == '-' {
            c
        } else {
            '_'
        };
        push_char(&mut out, kept);
        proof {
            assert(sanitized_file_name(v@.take(i + 1)) =~= sanitized_file_name(v@.take(i as int)).push(kept));
        }
        i += 1;
    }
    proof {
        assert(v@.take(i as int) =~= v@);
    }
    out
}

/// The name of a ZIP entry (see `sanitized_file_name`).
pub fn sanitize_zip_entry_name(file_name: &str) -> (out: String)
    ensures
        out@ == sanitized_file_name(file_name@),
{
    sanitize_file_component(file_name)
}

/// The HTML file name of one student's exported report.
pub fn html_export_file_name(student_ref: &str) -> (out: String)
    ensures
        out@ == sanitized_file_name(student_ref@) + "_result.html"@,
{
    let mut out = sanitize_file_component(student_ref);
    push_text(&mut out, "_result.html");
    out
}

/// The progress of an HTML export after `completed` of `total` reports: 90
/// percent spread over the reports (at least one counted).
pub fn html_export_progress_percent(completed: usize, total: usize) -> (r: u64)
    requires
        1 <= completed <= total,
        completed * 90 <= usize::MAX,
    ensures
        r == (completed * 90) / (total as int),
        r <= 90,
{
    let scaled: usize = completed * 90;
    let q: usize = scaled / total;
    proof {
        assert(q <= 90) by (nonlinear_arith)
            requires
                q == (completed * 90) / (total as int),
                completed <= total,
                total >= 1,
        ;
    }
    q as u64
}

/// The first answer of a submission to question `id` among those a map keyed
/// by question keeps (the last one).
pub open spec fn export_answer(answers: Seq<StudentWorkflowAnswer>, id: Seq<char>) -> Option<StudentWorkflowAnswer> {
    crate::report::last_answer(answers, id)
}

/// Why the report of `row` cannot be exported from `submission`: the first
/// question row, in order, whose answer is missing, has no crop image, or
/// whose crop image is not among the files that exist.
pub open spec fn html_export_problem(
    row: ResultStudentRow,
    submission: StudentWorkflowSubmission,
    existing_files: Seq<String>,
) -> spec_fn(ResultQuestionRow) -> bool {
    |q: ResultQuestionRow| match export_answer(submission.answers@, q.question_id@) {
        None => true,
        Some(a) => match a.crop_image_path {
            None => true,
            Some(p) => is_blank(p@) || !crate::sorted::texts(existing_files).contains(p@),
        },
    }
}

/// What checking the crop images of `row` against `submission` comes to:
/// the first question row with a problem, in order, is refused with its
/// message (a missing answer, an answer without a crop image, or a crop
/// image not found at its path); with no problem the check passes.
pub open spec fn question_sources_checked(
    row: ResultStudentRow,
    submission: StudentWorkflowSubmission,
    existing_files: Seq<String>,
    r: Result<(), HostError>,
) -> bool {
    let qrows = row.question_rows@;
    let i = first_index(qrows, html_export_problem(row, submission, existing_files));
    let n = int_decimal(qrows[i].question_number as int);
    let answer = export_answer(submission.answers@, qrows[i].question_id@);
    &&& i >= qrows.len() ==> r is Ok
    &&& i < qrows.len() && answer is None ==> (r matches Err(e) && e is Validation && e.msg()
        == "Question "@ + n + " is missing from submission '"@ + row.student_ref@ + "'."@)
    &&& i < qrows.len() && answer is Some && (answer->0.crop_image_path is None || is_blank(
        answer->0.crop_image_path->0@,
    )) ==> (r matches Err(e) && e is Validation && e.msg() == "Question "@ + n + " for '"@
        + row.student_ref@ + "' has no crop image for export."@)
    &&& i < qrows.len() && answer is Some && answer->0.crop_image_path is Some && !is_blank(
        answer->0.crop_image_path->0@,
    ) ==> (r matches Err(e) && e is Validation && e.msg() == "Question "@ + n
        + " crop image for '"@ + row.student_ref@ + "' was not found at '"@
        + answer->0.crop_image_path->0@ + "'."@)
}

/// Checks that every question row of `row` has an answer in `submission`
/// with a crop image that exists (`existing_files` lists the crop images
/// found on disk). The first problem, in question order, is reported.
pub fn validate_html_export_question_sources(
    row: &ResultStudentRow,
    submission: &StudentWorkflowSubmission,
    existing_files: &Vec<String>,
) -> (r: Result<(), HostError>)
    ensures
        question_sources_checked(*row, *submission, existing_files@, r),
{
    let qrows = &row.question_rows;
    let mut i: usize = 0;
    while i < qrows.len()
        invariant
            i <= qrows@.len(),
            qrows == row.question_rows,
            forall|k: int|
                0 <= k < i ==> !html_export_problem(*row, *submission, existing_files@)(#[trigger] qrows@[k]),
        decreases qrows@.len() - i,
    {
        let q = &qrows[i];
        let answer = match crate::report::find_last_answer(&submission.answers, q.question_id.as_str()) {
            Some(a) => a,
            None => {
                proof {
                    lemma_first_index_is(qrows@, html_export_problem(*row, *submission, existing_files@), i as int);
                }
                let mut m = owned("Question ");
                push_i64(&mut m, q.question_number);
                push_text(&mut m, " is missing from submission '");
                push_text(&mut m, row.student_ref.as_str());
                push_text(&mut m, "'.");
                return Err(validation(m));
            },
        };
        let crop = match &answer.crop_image_path {
            Some(p) => if blank(p.as_str()) {
                None
            } else {
                Some(p)
            },
            None => None,
        };
        let crop_path = match crop {
            Some(p) => p,
            None => {
                proof {
                    lemma_first_index_is(qrows@, html_export_problem(*row, *submission, existing_files@), i as int);
                }
                let mut m = owned("Question ");
                push_i64(&mut m, q.question_number);
                push_text(&mut m, " for '");
                push_text(&mut m, row.student_ref.as_str());
                push_text(&mut m, "' has no crop image for export.");
                return Err(validation(m));
            },
        };
        if !holds(existing_files, crop_path.as_str()) {
            proof {
                lemma_first_index_is(qrows@, html_export_problem(*row, *submission, existing_files@), i as int);
            }
            let mut m = owned("Question ");
            push_i64(&mut m, q.question_number);
            push_text(&mut m, " crop image for '");
            push_text(&mut m, row.student_ref.as_str());
            push_text(&mut m, "' was not found at '");
            push_text(&mut m, crop_path.as_str());
            push_text(&mut m, "'.");
            return Err(validation(m));
        }
        i += 1;
    }
    proof {
        lemma_first_index_is(qrows@, html_export_problem(*row, *submission, existing_files@), i as int);
    }
    Ok(())
}

/// Submissions of student `student_ref`.
pub open spec fn submission_for(student_ref: Seq<char>) -> spec_fn(StudentWorkflowSubmission) -> bool {
    |s: StudentWorkflowSubmission| s.student_ref@ == student_ref
}

/// Checks that a row's report can be exported: its student has a submission
/// (the first one is checked, see `validate_html_export_question_sources`).
pub fn validate_html_export_sources(
    workspace: &ExamWorkspaceState,
    row: &ResultStudentRow,
    existing_files: &Vec<String>,
) -> (r: Result<(), HostError>)
    ensures
        ({
            let subs = workspace.student_workflow.submissions@;
            let i = first_index(subs, submission_for(row.student_ref@));
            &&& i >= subs.len() ==> (r matches Err(e) && e is Validation && e.msg() == "Submission '"@
                + row.student_ref@ + "' was not found for Results export."@)
            &&& i < subs.len() ==> (r is Ok <==> first_index(
                row.question_rows@,
                html_export_problem(*row, subs[i], existing_files@),
            ) >= row.question_rows@.len())
            &&& i < subs.len() ==> question_sources_checked(*row, subs[i], existing_files@, r)
        }),
{
    let subs = &workspace.student_workflow.submissions;
    let mut i: usize = 0;
    while i < subs.len()
        invariant
            i <= subs@.len(),
            subs == workspace.student_workflow.submissions,
            forall|k: int| 0 <= k < i ==> !submission_for(row.student_ref@)(#[trigger] subs@[k]),
        decreases subs@.len() - i,
    {
        if text_eq(subs[i].student_ref.as_str(), row.student_ref.as_str()) {
            proof {
                lemma_first_index_is(subs@, submission_for(row.student_ref@), i as int);
            }
            let r = validate_html_export_question_sources(row, &subs[i], existing_files);
            proof {
                crate::seqs::lemma_first_index_props(
                    row.question_rows@,
                    html_export_problem(*row, subs@[i as int], existing_files@),
                );
            }
            return r;
        }
        i += 1;
    }
    proof {
        lemma_first_index_is(subs@, submission_for(row.student_ref@), i as int);
    }
    Err(validation(concat3("Submission '", row.student_ref.as_str(), "' was not found for Results export.")))
}

// ---------------------------------------------------------------------------
// Export job events
// ---------------------------------------------------------------------------

/// The JSON text of an export format.
pub open spec fn format_text(format: ResultsExportFormat) -> Seq<char> {
    match format {
        ResultsExportFormat::Csv => "csv"@,
        ResultsExportFormat::HtmlZip => "html_zip"@,
    }
}

/// An event of the export job `job_id` (request `request_id`).
pub fn results_export_job_event(
    event_type: &str,
    worker_status: WorkerStatus,
    request_id: &str,
    job_id: &str,
    payload: JsonValue,
) -> (e: RuntimeJobEvent)
    ensures
        e.event_type@ == event_type@,
        e.command_name@ == "results.export"@,
        e.worker_status == worker_status,
        opt_text(e.request_id) == Some(request_id@),
        opt_text(e.job_id) == Some(job_id@),
        e.payload == payload,
{
    RuntimeJobEvent {
        event_type: owned(event_type),
        command_name: owned("results.export"),
        worker_status,
        request_id: Some(owned(request_id)),
        job_id: Some(owned(job_id)),
        payload,
    }
}

fn format_value(format: ResultsExportFormat) -> (v: JsonValue)
    ensures
        is_text(v, format_text(format)),
{
    match format {
        ResultsExportFormat::Csv => JsonValue::Text(owned("csv")),
        ResultsExportFormat::HtmlZip => JsonValue::Text(owned("html_zip")),
    }
}

fn progress_value(percent: usize) -> (v: JsonValue)
    ensures
        members_of(v).len() == 1,
        v is Object,
        members_of(v)[0].key@ == "percent"@ && is_count(members_of(v)[0].value, percent as nat),
{
    let mut m: Vec<JsonMember> = Vec::new();
    m.push(member("percent", count_value(percent)));
    JsonValue::Object(m)
}

/// The payload `{format, progress: {percent}}` of a started or progressing export.
pub fn export_progress_payload(format: ResultsExportFormat, percent: usize) -> (p: JsonValue)
    ensures
        p is Object,
        members_of(p).len() == 2,
        members_of(p)[0].key@ == "format"@ && is_text(members_of(p)[0].value, format_text(format)),
        members_of(p)[1].key@ == "progress"@ && members_of(members_of(p)[1].value).len() == 1
            && members_of(members_of(p)[1].value)[0].key@ == "percent"@ && is_count(
            members_of(members_of(p)[1].value)[0].value,
            percent as nat,
        ),
{
    let mut m: Vec<JsonMember> = Vec::new();
    m.push(member("format", format_value(format)));
    m.push(member("progress", progress_value(percent)));
    JsonValue::Object(m)
}

/// The payload `{format, exportedCount, destinationPath, progress: {percent: 100}}`
/// of a finished export.
pub fn export_finished_payload(format: ResultsExportFormat, exported_count: usize, destination_path: &str) -> (p:
    JsonValue)
    ensures
        p is Object,
        members_of(p).len() == 4,
        members_of(p)[0].key@ == "format"@ && is_text(members_of(p)[0].value, format_text(format)),
        members_of(p)[1].key@ == "exportedCount"@ && is_count(members_of(p)[1].value, exported_count as nat),
        members_of(p)[2].key@ == "destinationPath"@ && is_text(members_of(p)[2].value, destination_path@),
        members_of(p)[3].key@ == "progress"@ && members_of(members_of(p)[3].value).len() == 1
            && members_of(members_of(p)[3].value)[0].key@ == "percent"@ && is_count(
            members_of(members_of(p)[3].value)[0].value,
            100,
        ),
{
    let mut m: Vec<JsonMember> = Vec::new();
    m.push(member("format", format_value(format)));
    m.push(member("exportedCount", count_value(exported_count)));
    m.push(member("destinationPath", JsonValue::Text(owned(destination_path))));
    m.push(member("progress", progress_value(100)));
    JsonValue::Object(m)
}

/// The payload `{format, message}` of a failed export.
pub fn export_failed_payload(format: ResultsExportFormat, message: &str) -> (p: JsonValue)
    ensures
        p is Object,
        members_of(p).len() == 2,
        members_of(p)[0].key@ == "format"@ && is_text(members_of(p)[0].value, format_text(format)),
        members_of(p)[1].key@ == "message"@ && is_text(members_of(p)[1].value, message@),
{
    let mut m: Vec<JsonMember> = Vec::new();
    m.push(member("format", format_value(format)));
    m.push(member("message", JsonValue::Text(owned(message))));
    JsonValue::Object(m)
}

/// The payload of an HTML export's progress after `completed` of `total`
/// reports: `{format: "html_zip", progress: {percent, completed, total}}`.
pub fn html_export_step_payload(completed: usize, total: usize) -> (p: JsonValue)
    requires
        1 <= completed <= total,
        completed * 90 <= usize::MAX,
    ensures
        p is Object,
        members_of(p).len() == 2,
        members_of(p)[0].key@ == "format"@ && is_text(members_of(p)[0].value, "html_zip"@),
        members_of(p)[1].key@ == "progress"@ && members_of(members_of(p)[1].value).len() == 3
            && members_of(members_of(p)[1].value)[0].key@ == "percent"@ && is_count(
            members_of(members_of(p)[1].value)[0].value,
            ((completed * 90) / (total as int)) as nat,
        ) && members_of(members_of(p)[1].value)[1].key@ == "completed"@ && is_count(
            members_of(members_of(p)[1].value)[1].value,
            completed as nat,
        ) && members_of(members_of(p)[1].value)[2].key@ == "total"@ && is_count(
            members_of(members_of(p)[1].value)[2].value,
            total as nat,
        ),
{
    let percent = html_export_progress_percent(completed, total);
    let mut progress: Vec<JsonMember> = Vec::new();
    progress.push(member("percent", count_value(percent as usize)));
    progress.push(member("completed", count_value(completed)));
    progress.push(member("total", count_value(total)));
    let mut m: Vec<JsonMember> = Vec::new();
    m.push(member("format", JsonValue::Text(owned("html_zip"))));
    m.push(member("progress", JsonValue::Object(progress)));
    JsonValue::Object(m)
}

} // verus!
