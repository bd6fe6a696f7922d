//! The HTML result report posted to the LMS with each student's grade: its
//! sections, the hidden marker that recognizes it, the report images and the
//! choice of their JPEG encoding.
use vstd::prelude::*;
use base64::Engine;
use sha2::Digest;
use crate::errors::HostError;
use crate::messages::{concat3, validation};
use crate::models::{
    LmsUploadReportAsset, QuestionRecord, ResultQuestionRow, ResultStudentRow, StudentWorkflowAnswer,
    StudentWorkflowState, StudentWorkflowSubmission,
};
use crate::seqs::{lemma_sum_of_take_step, sum_of};
use crate::text::{
    ascii_alnum, blank, chars_of, contains_text, has_substring, int_decimal, is_ascii_alnum,
    is_blank, owned, push_char, push_i64, push_text, replace_all, replace_text, text_eq, trim,
    trimmed,
};

verus! {

/// The marker that identifies a generated report in an LMS comment.
pub open spec fn report_marker() -> Seq<char> {
    "results-report:v1"@
}

/// The invisible marker a generated report starts with.
pub open spec fn report_zero_width_marker() -> Seq<char> {
    "\u{2063}\u{2063}\u{200B}\u{200D}\u{2060}\u{200C}\u{2063}\u{200B}"@
}

/// Most report-image prewarm workers that run at once.
pub const MAX_REPORT_ASSET_PREWARM_WORKERS: usize = 4;

/// Largest width of an embedded report image, in pixels.
pub const MAX_EMBEDDED_IMAGE_WIDTH_PX: u32 = 640;

/// Largest height of an embedded report image, in pixels.
pub const MAX_EMBEDDED_IMAGE_HEIGHT_PX: u32 = 420;

/// Largest size of an embedded report image, in bytes.
pub const MAX_EMBEDDED_IMAGE_BYTES: usize = 51200;

// ---------------------------------------------------------------------------
// Escaping
// ---------------------------------------------------------------------------

/// The HTML text of one character.
pub open spec fn escape_char(c: char) -> Seq<char> {
    if c == '&' {
        seq!['&', 'a', 'm', 'p', ';']
    } else if c == '<' {
        seq!['&', 'l', 't', ';']
    } else if c == '>' {
        seq!['&', 'g', 't', ';']
    } else if c == '"' {
        seq!['&', 'q', 'u', 'o', 't', ';']
    } else if c == '\'' {
        seq!['&', '#', '3', '9', ';']
    } else {
        seq![c]
    }
}

/// `s` as HTML text: `&`, `<`, `>`, `"` and `'` become character references.
pub open spec fn escaped(s: Seq<char>) -> Seq<char>
    decreases s.len(),
{
    if s.len() == 0 {
        Seq::empty()
    } else {
        escaped(s.drop_last()) + escape_char(s.last())
    }
}

fn push_escaped_char(out: &mut String, c: char)
    ensures
        final(out)@ == old(out)@ + escape_char(c),
{
    if c == '&' {
        push_char(out, '&');
        push_char(out, 'a');
        push_char(out, 'm');
        push_char(out, 'p');
        push_char(out, ';');
    } else if c == '<' {
        push_char(out, '&');
        push_char(out, 'l');
        push_char(out, 't');
        push_char(out, ';');
    } else if c == '>' {
        push_char(out, '&');
        push_char(out, 'g');
        push_char(out, 't');
        push_char(out, ';');
    } else if c == '"' {
        push_char(out, '&');
        push_char(out, 'q');
        push_char(out, 'u');
        push_char(out, 'o');
        push_char(out, 't');
        push_char(out, ';');
    } else if c == '\'' {
        push_char(out, '&');
        push_char(out, '#');
        push_char(out, '3');
        push_char(out, '9');
        push_char(out, ';');
    } else {
        push_char(out, c);
    }
    proof {
        assert(out@ =~= old(out)@ + escape_char(c));
    }
}

/// `value` as HTML text.
pub fn escape_html(value: &str) -> (out: String)
    ensures
        out@ == escaped(value@),
{
    let v = chars_of(value);
    let mut out = String::new();
    let mut i: usize = 0;
    proof {
        assert(v@.take(0) =~= Seq::<char>::empty());
    }
    while i < v.len()
        invariant
            i <= v@.len(),
            v@ == value@,
            out@ == escaped(v@.take(i as int)),
        decreases v@.len() - i,
    {
        push_escaped_char(&mut out, v[i]);
        proof {
            assert(v@.take(i + 1).drop_last() =~= v@.take(i as int));
            assert(v@.take(i + 1).last() == v@[i as int]);
        }
        i += 1;
    }
    proof {
        assert(v@.take(i as int) =~= v@);
    }
    out
}

/// `value` as HTML text with each line break as `<br />`.
pub fn escape_preserving_line_breaks(value: &str) -> (out: String)
    ensures
        out@ == replace_all(escaped(value@), "\n"@, "<br />"@),
{
    let escaped_value = escape_html(value);
    proof {
        reveal_strlit("\n");
    }
    replace_text(escaped_value.as_str(), "\n", "<br />")
}

/// Escaped text holds no markup character: no `<`, `>`, `"` or `'`.
pub proof fn law_escaped_text_has_no_markup(s: Seq<char>)
    ensures
        forall|i: int|
            0 <= i < escaped(s).len() ==> #[trigger] escaped(s)[i] != '<' && escaped(s)[i] != '>'
                && escaped(s)[i] != '"' && escaped(s)[i] != '\'',
    decreases s.len(),
{
    if s.len() > 0 {
        law_escaped_text_has_no_markup(s.drop_last());
        let a = escaped(s.drop_last());
        let b = escape_char(s.last());
        assert forall|i: int| 0 <= i < escaped(s).len() implies #[trigger] escaped(s)[i] != '<'
            && escaped(s)[i] != '>' && escaped(s)[i] != '"' && escaped(s)[i] != '\'' by {
            if i < a.len() {
                assert(escaped(s)[i] == a[i]);
            } else {
                assert(escaped(s)[i] == b[i - a.len()]);
            }
        }
    }
}

// ---------------------------------------------------------------------------
// Markers and placeholders
// ---------------------------------------------------------------------------

/// The placeholder a report template holds for the image `asset_name`.
pub open spec fn asset_placeholder(asset_name: Seq<char>) -> Seq<char> {
    "__RESULTS_LMS_ASSET_"@ + asset_name + "__"@
}

/// The placeholder a report template holds for the image `asset_name`.
pub fn report_asset_placeholder(asset_name: &str) -> (out: String)
    ensures
        out@ == asset_placeholder(asset_name@),
        out@.len() > 0,
{
    proof {
        reveal_strlit("__");
    }
    concat3("__RESULTS_LMS_ASSET_", asset_name, "__")
}

/// The template with each image placeholder replaced, in order.
pub open spec fn substituted(template: Seq<char>, sources: Seq<(String, String)>) -> Seq<char>
    decreases sources.len(),
{
    if sources.len() == 0 {
        template
    } else {
        replace_all(
            substituted(template, sources.drop_last()),
            asset_placeholder(sources.last().0@),
            sources.last().1@,
        )
    }
}

/// Fills a report template: the placeholder of each image (first of each
/// pair) becomes its source (second).
pub fn substitute_report_asset_sources(template: &str, asset_sources: &Vec<(String, String)>) -> (out:
    String)
    ensures
        out@ == substituted(template@, asset_sources@),
{
    let mut rendered = owned(template);
    let mut i: usize = 0;
    proof {
        assert(asset_sources@.take(0) =~= Seq::<(String, String)>::empty());
    }
    while i < asset_sources.len()
        invariant
            i <= asset_sources@.len(),
            rendered@ == substituted(template@, asset_sources@.take(i as int)),
        decreases asset_sources@.len() - i,
    {
        let placeholder = report_asset_placeholder(asset_sources[i].0.as_str());
        rendered = replace_text(rendered.as_str(), placeholder.as_str(), asset_sources[i].1.as_str());
        proof {
            assert(asset_sources@.take(i + 1).drop_last() =~= asset_sources@.take(i as int));
            assert(asset_sources@.take(i + 1).last() == asset_sources@[i as int]);
        }
        i += 1;
    }
    proof {
        assert(asset_sources@.take(i as int) =~= asset_sources@);
    }
    rendered
}

/// Whether an LMS comment holds a generated report (either marker).
pub fn canvas_comment_contains_generated_report(comment: &str) -> (r: bool)
    ensures
        r == (has_substring(comment@, report_marker()) || has_substring(
            comment@,
            report_zero_width_marker(),
        )),
{
    contains_text(comment, "results-report:v1") || contains_text(
        comment,
        "\u{2063}\u{2063}\u{200B}\u{200D}\u{2060}\u{200C}\u{2063}\u{200B}",
    )
}

/// The fingerprint a report carries: the result's, or `pending` when blank or absent.
pub open spec fn report_fingerprint(result_fingerprint: Option<Seq<char>>) -> Seq<char> {
    match result_fingerprint {
        Some(f) => if is_blank(f) {
            "pending"@
        } else {
            f
        },
        None => "pending"@,
    }
}

/// A report wrapped for an LMS comment: the invisible marker, an HTML comment
/// and a hidden block carrying the marker and fingerprint, then the report.
pub open spec fn wrapped_report(report_html: Seq<char>, result_fingerprint: Option<Seq<char>>) -> Seq<
    char,
> {
    let fingerprint = report_fingerprint(result_fingerprint);
    report_zero_width_marker() + "<!-- "@ + report_marker() + "; fingerprint="@ + fingerprint
        + " -->\n"@
        + "<div aria-hidden=\"true\" style=\"display:none;font-size:0;line-height:0;color:transparent;\">"@
        + report_marker() + "; fingerprint="@ + fingerprint + "</div>"@ + "\n"@ + report_html
}

/// Wraps a report for an LMS comment (see `wrapped_report`).
pub fn wrap_generated_report_comment(report_html: &str, result_fingerprint: Option<&str>) -> (out: String)
    ensures
        out@ == wrapped_report(
            report_html@,
            match result_fingerprint {
                Some(f) => Some(f@),
                None => None,
            },
        ),
{
    let fingerprint: &str = match result_fingerprint {
        Some(f) => if blank(f) {
            "pending"
        } else {
            f
        },
        None => "pending",
    };
    let mut out = owned("\u{2063}\u{2063}\u{200B}\u{200D}\u{2060}\u{200C}\u{2063}\u{200B}");
    push_text(&mut out, "<!-- ");
    push_text(&mut out, "results-report:v1");
    push_text(&mut out, "; fingerprint=");
    push_text(&mut out, fingerprint);
    push_text(&mut out, " -->\n");
    push_text(
        &mut out,
        "<div aria-hidden=\"true\" style=\"display:none;font-size:0;line-height:0;color:transparent;\">",
    );
    push_text(&mut out, "results-report:v1");
    push_text(&mut out, "; fingerprint=");
    push_text(&mut out, fingerprint);
    push_text(&mut out, "</div>");
    push_text(&mut out, "\n");
    push_text(&mut out, report_html);
    proof {
        assert(out@ =~= wrapped_report(
            report_html@,
            match result_fingerprint {
                Some(f) => Some(f@),
                None => None,
            },
        ));
    }
    out
}

// ---------------------------------------------------------------------------
// Report images
// ---------------------------------------------------------------------------

/// A character kept in a file name component: ASCII letters, digits, `_`, `-`.
pub open spec fn file_component_char(c: char) -> char {
    if is_ascii_alnum(c) || c == '_' || c == '-' {
        c
    } else {
        '_'
    }
}

/// `value` with every other character than ASCII letters, digits, `_` and
/// `-` replaced by `_`.
pub open spec fn sanitized_component(value: Seq<char>) -> Seq<char> {
    value.map_values(|c: char| file_component_char(c))
}

/// `value` made safe as a file name component (see `sanitized_component`).
pub fn sanitize_asset_component(value: &str) -> (out: String)
    ensures
        out@ == sanitized_component(value@),
{
    let v = chars_of(value);
    let mut out = String::new();
    let mut i: usize = 0;
    while i < v.len()
        invariant
            i <= v@.len(),
            v@ == value@,
            out@ == sanitized_component(v@.take(i as int)),
        decreases v@.len() - i,
    {
        let c = v[i];
        let kept = if ascii_alnum(c) || c == '_' || c == '-' {
            c
        } else {
            '_'
        };
        push_char(&mut out, kept);
        proof {
            assert(sanitized_component(v@.take(i + 1)) =~= sanitized_component(v@.take(i as int)).push(
                kept,
            ));
        }
        i += 1;
    }
    proof {
        assert(v@.take(i as int) =~= v@);
    }
    out
}

/// The file name of the report image of question `question_id`.
pub fn report_asset_name(question_id: &str) -> (out: String)
    ensures
        out@ == sanitized_component(question_id@) + ".jpg"@,
{
    let mut out = sanitize_asset_component(question_id);
    push_text(&mut out, ".jpg");
    out
}

/// The path of a student's report image below the project's artifact directory.
pub fn report_asset_path(
    project_path: &str,
    artifacts_dir_name: &str,
    student_ref: &str,
    local_asset_name: &str,
) -> (out: String)
    ensures
        out@ == project_path@ + "/"@ + artifacts_dir_name@ + "/"@ + "results_lms/report_images"@
            + "/"@ + sanitized_component(student_ref@) + "/"@ + local_asset_name@,
{
    let mut out = owned(project_path);
    push_text(&mut out, "/");
    push_text(&mut out, artifacts_dir_name);
    push_text(&mut out, "/");
    push_text(&mut out, "results_lms/report_images");
    push_text(&mut out, "/");
    let student = sanitize_asset_component(student_ref);
    push_text(&mut out, student.as_str());
    push_text(&mut out, "/");
    push_text(&mut out, local_asset_name);
    out
}

/// Whether an answer has a crop image to turn into a report image.
pub open spec fn has_report_asset_work(answer: StudentWorkflowAnswer) -> bool {
    match answer.crop_image_path {
        Some(p) => !is_blank(p@),
        None => false,
    }
}

/// Whether `answer` has a crop image to turn into a report image.
pub fn answer_has_report_asset_work(answer: &StudentWorkflowAnswer) -> (r: bool)
    ensures
        r == has_report_asset_work(*answer),
{
    match &answer.crop_image_path {
        Some(p) => !blank(p.as_str()),
        None => false,
    }
}

/// Submissions with at least one answer that has report-image work.
pub open spec fn prewarmable(s: StudentWorkflowSubmission) -> bool {
    exists|i: int| 0 <= i < s.answers@.len() && has_report_asset_work(#[trigger] s.answers@[i])
}

/// The indices of the submissions whose report images are worth preparing
/// ahead of time, in order.
pub fn prewarmable_submissions(workflow_state: &StudentWorkflowState) -> (r: Vec<usize>)
    ensures
        forall|i: int| 0 <= i < r@.len() ==> #[trigger] r@[i] < workflow_state.submissions@.len()
            && prewarmable(workflow_state.submissions@[r@[i] as int]),
        forall|i: int, j: int| 0 <= i < j < r@.len() ==> r@[i] < r@[j],
        forall|k: int|
            0 <= k < workflow_state.submissions@.len() && prewarmable(
                #[trigger] workflow_state.submissions@[k],
            ) ==> r@.contains(k as usize),
{
    let subs = &workflow_state.submissions;
    let mut out: Vec<usize> = Vec::new();
    let mut i: usize = 0;
    while i < subs.len()
        invariant
            subs == workflow_state.submissions,
            i <= subs@.len(),
            forall|w: int| 0 <= w < out@.len() ==> #[trigger] out@[w] < i && prewarmable(subs@[out@[w] as int]),
            forall|a: int, b: int| 0 <= a < b < out@.len() ==> out@[a] < out@[b],
            forall|k: int| 0 <= k < i && prewarmable(#[trigger] subs@[k]) ==> out@.contains(k as usize),
        decreases subs@.len() - i,
    {
        let answers = &subs[i].answers;
        let mut a: usize = 0;
        let mut found = false;
        while a < answers.len()
            invariant
                i < subs@.len(),
                answers == subs@[i as int].answers,
                a <= answers@.len(),
                found ==> prewarmable(subs@[i as int]),
                !found ==> forall|b: int| 0 <= b < a ==> !has_report_asset_work(#[trigger] answers@[b]),
            decreases answers@.len() - a,
        {
            if !found && answer_has_report_asset_work(&answers[a]) {
                found = true;
            }
            a += 1;
        }
        let ghost before = out@;
        if found {
            out.push(i);
            proof {
                assert(out@[out@.len() - 1] == i);
                assert forall|k: int| 0 <= k < i + 1 && prewarmable(#[trigger] subs@[k]) implies out@.contains(k as usize) by {
                    if k < i {
                        let w = choose|w: int| 0 <= w < before.len() && before[w] == k as usize;
                        assert(out@[w] == before[w]);
                    } else {
                        assert(out@[before.len() as int] == k as usize);
                    }
                }
            }
        } else {
            proof {
                assert(!prewarmable(subs@[i as int]));
            }
        }
        i += 1;
    }
    out
}

/// How many workers prepare report images: one per submission, at least one,
/// and at most the machine's parallelism (two when unknown) capped at
/// `MAX_REPORT_ASSET_PREWARM_WORKERS`.
pub fn report_asset_prewarm_worker_count(submission_count: usize, available_parallelism: Option<usize>) -> (r:
    usize)
    ensures
        ({
            let avail = match available_parallelism {
                Some(p) => p as int,
                None => 2,
            };
            let bounded = if avail < 1 {
                1
            } else if avail > MAX_REPORT_ASSET_PREWARM_WORKERS {
                MAX_REPORT_ASSET_PREWARM_WORKERS as int
            } else {
                avail
            };
            r == if submission_count < 1 {
                1
            } else if submission_count > bounded {
                bounded
            } else {
                submission_count as int
            }
        }),
{
    let avail = match available_parallelism {
        Some(p) => p,
        None => 2,
    };
    let bounded = if avail < 1 {
        1
    } else if avail > MAX_REPORT_ASSET_PREWARM_WORKERS {
        MAX_REPORT_ASSET_PREWARM_WORKERS
    } else {
        avail
    };
    if submission_count < 1 {
        1
    } else if submission_count > bounded {
        bounded
    } else {
        submission_count
    }
}

/// The encodings tried for an embedded image, in order: the box to fit the
/// image into and the JPEG quality.
pub fn embed_encode_attempts() -> (r: Vec<(u32, u32, u8)>)
    ensures
        r@ == seq![(640u32, 420u32, 58u8), (560u32, 360u32, 48u8), (480u32, 320u32, 40u8), (360u32, 240u32, 34u8), (300u32, 200u32, 30u8)],
{
    let mut r: Vec<(u32, u32, u8)> = Vec::new();
    r.push((640, 420, 58));
    r.push((560, 360, 48));
    r.push((480, 320, 40));
    r.push((360, 240, 34));
    r.push((300, 200, 30));
    proof {
        assert(r@ =~= seq![(640u32, 420u32, 58u8), (560u32, 360u32, 48u8), (480u32, 320u32, 40u8), (360u32, 240u32, 34u8), (300u32, 200u32, 30u8)]);
    }
    r
}

/// Whether an image of `width` x `height` already fits in `max_width` x `max_height`.
pub fn fits_within(width: u32, height: u32, max_width: u32, max_height: u32) -> (r: bool)
    ensures
        r == (width <= max_width && height <= max_height),
{
    width <= max_width && height <= max_height
}

/// What to do with one more encoding of an embedded image.
#[derive(Debug, PartialEq, Eq)]
pub enum EmbedStep {
    /// The encoding is small enough: use it.
    Accept(Vec<u8>),
    /// Try the next encoding; the smallest so far is kept.
    Continue(Option<Vec<u8>>),
}

/// Takes one encoding: small enough encodings are accepted; otherwise the
/// smallest encoding so far is kept (the earlier one on a tie).
pub fn next_embed_choice(smallest: Option<Vec<u8>>, encoded: Vec<u8>) -> (r: EmbedStep)
    ensures
        encoded@.len() <= MAX_EMBEDDED_IMAGE_BYTES ==> r == EmbedStep::Accept(encoded),
        encoded@.len() > MAX_EMBEDDED_IMAGE_BYTES ==> r == EmbedStep::Continue(
            match smallest {
                Some(s) => if encoded@.len() < s@.len() {
                    Some(encoded)
                } else {
                    Some(s)
                },
                None => Some(encoded),
            },
        ),
{
    if encoded.len() <= MAX_EMBEDDED_IMAGE_BYTES {
        return EmbedStep::Accept(encoded);
    }
    match smallest {
        Some(s) => {
            if encoded.len() < s.len() {
                EmbedStep::Continue(Some(encoded))
            } else {
                EmbedStep::Continue(Some(s))
            }
        },
        None => EmbedStep::Continue(Some(encoded)),
    }
}

/// The encoding used when none was small enough: the smallest (empty when
/// there was none).
pub fn finish_embed_choice(smallest: Option<Vec<u8>>) -> (r: Vec<u8>)
    ensures
        match smallest {
            Some(s) => r == s,
            None => r@.len() == 0,
        },
{
    match smallest {
        Some(s) => s,
        None => Vec::new(),
    }
}

// ---------------------------------------------------------------------------
// Outside encoders
// ---------------------------------------------------------------------------

/// The character of a 6-bit value in the standard base64 alphabet:
/// `A`-`Z`, `a`-`z`, `0`-`9`, `+`, `/`.
pub open spec fn base64_char(v: int) -> char {
    if v < 26 {
        (65 + v) as char
    } else if v < 52 {
        (71 + v) as char
    } else if v < 62 {
        (v - 4) as char
    } else if v == 62 {
        '+'
    } else {
        '/'
    }
}

/// The standard base64 text (with padding) of some bytes: each group of
/// three bytes gives four characters, six bits each, high bits first; a last
/// group of one or two bytes gives two or three characters and `=` padding.
pub open spec fn base64_standard(b: Seq<u8>) -> Seq<char>
    decreases b.len(),
{
    if b.len() == 0 {
        Seq::empty()
    } else if b.len() == 1 {
        seq![base64_char(b[0] as int / 4), base64_char((b[0] as int % 4) * 16), '=', '=']
    } else if b.len() == 2 {
        seq![
            base64_char(b[0] as int / 4),
            base64_char((b[0] as int % 4) * 16 + b[1] as int / 16),
            base64_char((b[1] as int % 16) * 4),
            '=',
        ]
    } else {
        seq![
            base64_char(b[0] as int / 4),
            base64_char((b[0] as int % 4) * 16 + b[1] as int / 16),
            base64_char((b[1] as int % 16) * 4 + b[2] as int / 64),
            base64_char(b[2] as int % 64),
        ] + base64_standard(b.skip(3))
    }
}

/// `base64::engine::general_purpose::STANDARD.encode`: the standard base64
/// text of `bytes` (RFC 4648 alphabet, padded), as `base64_standard` spells
/// it out.
#[verifier::external_body]
fn base64_encode(bytes: &Vec<u8>) -> (r: String)
    ensures
        r@ == base64_standard(bytes@),
{
    base64::engine::general_purpose::STANDARD.encode(bytes)
}

/// The `data:` URI of a JPEG image, as report previews embed it.
pub fn jpeg_data_uri(bytes: &Vec<u8>) -> (r: String)
    ensures
        r@ == "data:image/jpeg;base64,"@ + base64_standard(bytes@),
{
    let encoded = base64_encode(bytes);
    let mut r = owned("data:image/jpeg;base64,");
    push_text(&mut r, encoded.as_str());
    r
}

/// The SHA-256 digest of some bytes.
pub uninterp spec fn sha256_of(bytes: Seq<u8>) -> Seq<u8>;

/// `sha2::Sha256` over `bytes`: the 32-byte SHA-256 digest, named
/// `sha256_of`.
#[verifier::external_body]
fn sha256_digest(bytes: &Vec<u8>) -> (r: Vec<u8>)
    ensures
        r@ == sha256_of(bytes@),
        r@.len() == 32,
{
    let mut hasher = sha2::Sha256::new();
    hasher.update(bytes);
    hasher.finalize().to_vec()
}

/// The lower-case hexadecimal digit of a value below sixteen.
pub open spec fn hex_digit(v: int) -> char {
    if v < 10 {
        (48 + v) as char
    } else {
        (87 + v) as char
    }
}

/// The lower-case hexadecimal text of some bytes: two digits per byte, the
/// high half first.
pub open spec fn lower_hex(b: Seq<u8>) -> Seq<char>
    decreases b.len(),
{
    if b.len() == 0 {
        Seq::empty()
    } else {
        lower_hex(b.drop_last()) + seq![hex_digit(b.last() as int / 16), hex_digit(b.last() as int % 16)]
    }
}

proof fn lemma_lower_hex_len(b: Seq<u8>)
    ensures
        lower_hex(b).len() == 2 * b.len(),
    decreases b.len(),
{
    if b.len() > 0 {
        lemma_lower_hex_len(b.drop_last());
    }
}

/// `hex::encode`: the lower-case hexadecimal text of `bytes`, as
/// `lower_hex` spells it out.
#[verifier::external_body]
fn hex_encode(bytes: &Vec<u8>) -> (r: String)
    ensures
        r@ == lower_hex(bytes@),
{
    hex::encode(bytes)
}

/// The lower-case hexadecimal SHA-256 digest of some bytes.
pub open spec fn sha256_hex_of(bytes: Seq<u8>) -> Seq<char> {
    lower_hex(sha256_of(bytes))
}

/// The lower-case hexadecimal SHA-256 digest of `bytes` (64 characters).
pub fn sha256_hex(bytes: &Vec<u8>) -> (r: String)
    ensures
        r@ == sha256_hex_of(bytes@),
        r@.len() == 64,
{
    let digest = sha256_digest(bytes);
    let r = hex_encode(&digest);
    proof {
        lemma_lower_hex_len(digest@);
    }
    r
}


// ---------------------------------------------------------------------------
// The report
// ---------------------------------------------------------------------------

/// The last answer to question `id` (the one a map keyed by question keeps).
pub open spec fn last_answer(answers: Seq<StudentWorkflowAnswer>, id: Seq<char>) -> Option<
    StudentWorkflowAnswer,
>
    decreases answers.len(),
{
    if answers.len() == 0 {
        None
    } else if answers.last().question_id@ == id {
        Some(answers.last())
    } else {
        last_answer(answers.drop_last(), id)
    }
}

/// The last question with id `id`.
pub open spec fn last_question(questions: Seq<QuestionRecord>, id: Seq<char>) -> Option<QuestionRecord>
    decreases questions.len(),
{
    if questions.len() == 0 {
        None
    } else if questions.last().question_id@ == id {
        Some(questions.last())
    } else {
        last_question(questions.drop_last(), id)
    }
}

/// The image source of question `id`: the placeholder of its last report image.
pub open spec fn last_image_src(assets: Seq<LmsUploadReportAsset>, id: Seq<char>) -> Option<Seq<char>>
    decreases assets.len(),
{
    if assets.len() == 0 {
        None
    } else if assets.last().question_id@ == id {
        Some(asset_placeholder(assets.last().local_asset_name@))
    } else {
        last_image_src(assets.drop_last(), id)
    }
}

pub fn find_last_answer<'a>(answers: &'a Vec<StudentWorkflowAnswer>, id: &str) -> (r: Option<
    &'a StudentWorkflowAnswer,
>)
    ensures
        match r {
            Some(a) => last_answer(answers@, id@) == Some(*a),
            None => last_answer(answers@, id@) is None,
        },
{
    let mut i: usize = answers.len();
    proof {
        assert(answers@.take(i as int) =~= answers@);
    }
    while i > 0
        invariant
            i <= answers@.len(),
            last_answer(answers@, id@) == last_answer(answers@.take(i as int), id@),
        decreases i,
    {
        proof {
            assert(answers@.take(i as int).drop_last() =~= answers@.take(i - 1));
            assert(answers@.take(i as int).last() == answers@[i - 1]);
        }
        if text_eq(answers[i - 1].question_id.as_str(), id) {
            return Some(&answers[i - 1]);
        }
        i -= 1;
    }
    proof {
        assert(answers@.take(0) =~= Seq::<StudentWorkflowAnswer>::empty());
    }
    None
}

fn find_last_question<'a>(questions: &'a Vec<QuestionRecord>, id: &str) -> (r: Option<&'a QuestionRecord>)
    ensures
        match r {
            Some(q) => last_question(questions@, id@) == Some(*q),
            None => last_question(questions@, id@) is None,
        },
{
    let mut i: usize = questions.len();
    proof {
        assert(questions@.take(i as int) =~= questions@);
    }
    while i > 0
        invariant
            i <= questions@.len(),
            last_question(questions@, id@) == last_question(questions@.take(i as int), id@),
        decreases i,
    {
        proof {
            assert(questions@.take(i as int).drop_last() =~= questions@.take(i - 1));
            assert(questions@.take(i as int).last() == questions@[i - 1]);
        }
        if text_eq(questions[i - 1].question_id.as_str(), id) {
            return Some(&questions[i - 1]);
        }
        i -= 1;
    }
    proof {
        assert(questions@.take(0) =~= Seq::<QuestionRecord>::empty());
    }
    None
}

fn find_last_image_src(assets: &Vec<LmsUploadReportAsset>, id: &str) -> (r: Option<String>)
    ensures
        match r {
            Some(s) => last_image_src(assets@, id@) == Some(s@),
            None => last_image_src(assets@, id@) is None,
        },
{
    let mut i: usize = assets.len();
    proof {
        assert(assets@.take(i as int) =~= assets@);
    }
    while i > 0
        invariant
            i <= assets@.len(),
            last_image_src(assets@, id@) == last_image_src(assets@.take(i as int), id@),
        decreases i,
    {
        proof {
            assert(assets@.take(i as int).drop_last() =~= assets@.take(i - 1));
            assert(assets@.take(i as int).last() == assets@[i - 1]);
        }
        if text_eq(assets[i - 1].question_id.as_str(), id) {
            return Some(report_asset_placeholder(assets[i - 1].local_asset_name.as_str()));
        }
        i -= 1;
    }
    proof {
        assert(assets@.take(0) =~= Seq::<LmsUploadReportAsset>::empty());
    }
    None
}

/// The heading of a question: its text, trimmed, or `Question n` when blank or unknown.
pub open spec fn question_prompt(question_row: ResultQuestionRow, question: Option<QuestionRecord>) -> Seq<char> {
    match question {
        Some(q) => if trim(q.text@).len() > 0 {
            trim(q.text@)
        } else {
            "Question "@ + int_decimal(question_row.question_number as int)
        },
        None => "Question "@ + int_decimal(question_row.question_number as int),
    }
}

/// The score of a question: `points / max`, `points`, or `Pending`.
pub open spec fn question_score_label(question_row: ResultQuestionRow, question: Option<QuestionRecord>) -> Seq<char> {
    let max = match question_row.max_points {
        Some(m) => Some(m),
        None => match question {
            Some(q) => q.max_points,
            None => None,
        },
    };
    match question_row.effective_total_points {
        Some(points) => match max {
            Some(m) => int_decimal(points as int) + " / "@ + int_decimal(m as int),
            None => int_decimal(points as int),
        },
        None => "Pending"@,
    }
}

/// A question's score reads the points awarded in effect first, then ` / `
/// and the maximum (the row's own, else the question's) when one is known;
/// just the points when no maximum is known; `Pending` when no points were
/// awarded yet.
pub proof fn law_score_label_reads_points_over_maximum(question_row: ResultQuestionRow, question: Option<QuestionRecord>)
    ensures
        question_row.effective_total_points is None ==> question_score_label(question_row, question) == "Pending"@,
        question_row.effective_total_points is Some && question_row.max_points is Some ==> question_score_label(
            question_row,
            question,
        ) == int_decimal(question_row.effective_total_points->0 as int) + " / "@ + int_decimal(
            question_row.max_points->0 as int,
        ),
        question_row.effective_total_points is Some && question_row.max_points is None && question is Some
            && question->0.max_points is Some ==> question_score_label(question_row, question) == int_decimal(
            question_row.effective_total_points->0 as int,
        ) + " / "@ + int_decimal(question->0.max_points->0 as int),
        question_row.effective_total_points is Some && question_row.max_points is None && (question is None
            || question->0.max_points is None) ==> question_score_label(question_row, question) == int_decimal(
            question_row.effective_total_points->0 as int,
        ),
{
}

/// The blocked note of a question section (empty when not blocked).
pub open spec fn blocked_html(question_row: ResultQuestionRow) -> Seq<char> {
    match question_row.blocked_reason {
        Some(reason) => "<p style=\"margin:16px 0 0;font-size:14px;color:#92400e;\"><strong>Blocked:</strong> "@
            + escaped(reason@) + "</p>"@,
        None => Seq::empty(),
    }
}

/// The feedback paragraph of a question section.
pub open spec fn feedback_html(question_row: ResultQuestionRow) -> Seq<char> {
    if is_blank(question_row.effective_feedback_text@) {
        "<p style=\"margin:16px 0 0;font-size:16px;\"><strong>Feedback:</strong> No feedback available.</p>"@
    } else {
        "<p style=\"margin:16px 0 0;font-size:16px;\"><strong>Feedback:</strong> "@
            + replace_all(escaped(question_row.effective_feedback_text@), "\n"@, "<br />"@) + "</p>"@
    }
}

/// The answer image of a question section: shown when the student answered
/// and an image source is known.
pub open spec fn image_html(
    question_row: ResultQuestionRow,
    answered: bool,
    image_src: Option<Seq<char>>,
) -> Seq<char> {
    if answered {
        match image_src {
            Some(src) => "<img src=\""@ + src + "\" alt=\"Question "@ + int_decimal(
                question_row.question_number as int,
            )
                + " answer image\" style=\"display:block;max-width:100%;height:auto;margin:18px 0 0;border:1px solid #d1d5db;border-radius:8px;\" />"@,
            None => Seq::empty(),
        }
    } else {
        Seq::empty()
    }
}

/// The report section of one question.
pub open spec fn question_section(
    question_row: ResultQuestionRow,
    answered: bool,
    question: Option<QuestionRecord>,
    image_src: Option<Seq<char>>,
) -> Seq<char> {
    "<section style=\"padding:0 0 28px;\">"@
        + "<hr style=\"border:none;border-top:1px solid #d1d5db;margin:0 0 22px;\" />"@
        + "<h2 style=\"margin:0 0 12px;font-size:18px;line-height:1.35;\">Question "@ + int_decimal(
        question_row.question_number as int,
    ) + ": "@ + escaped(question_prompt(question_row, question))
        + "</h2>"@ + "<p style=\"margin:0;font-size:16px;font-weight:700;\">Score: "@ + escaped(
        question_score_label(question_row, question),
    ) + "</p>"@ + blocked_html(question_row) + image_html(question_row, answered, image_src)
        + feedback_html(question_row) + "</section>"@
}

fn build_prompt(question_row: &ResultQuestionRow, question: Option<&QuestionRecord>) -> (out: String)
    ensures
        out@ == question_prompt(
            *question_row,
            match question {
                Some(q) => Some(*q),
                None => None,
            },
        ),
{
    match question {
        Some(q) => {
            let t = trimmed(q.text.as_str());
            if t.unicode_len() > 0 {
                return t;
            }
        },
        None => {},
    }
    let mut p = owned("Question ");
    push_i64(&mut p, question_row.question_number);
    p
}

fn build_score_label(question_row: &ResultQuestionRow, question: Option<&QuestionRecord>) -> (out: String)
    ensures
        out@ == question_score_label(
            *question_row,
            match question {
                Some(q) => Some(*q),
                None => None,
            },
        ),
{
    let max = match question_row.max_points {
        Some(m) => Some(m),
        None => match question {
            Some(q) => q.max_points,
            None => None,
        },
    };
    match question_row.effective_total_points {
        Some(points) => {
            let mut l = String::new();
            push_i64(&mut l, points);
            match max {
                Some(m) => {
                    push_text(&mut l, " / ");
                    push_i64(&mut l, m);
                },
                None => {},
            }
            proof {
                assert(l@ =~= question_score_label(
                    *question_row,
                    match question {
                        Some(q) => Some(*q),
                        None => None,
                    },
                ));
            }
            l
        },
        None => owned("Pending"),
    }
}

fn push_blocked_html(out: &mut String, question_row: &ResultQuestionRow)
    ensures
        final(out)@ == old(out)@ + blocked_html(*question_row),
{
    match &question_row.blocked_reason {
        Some(reason) => {
            push_text(
                out,
                "<p style=\"margin:16px 0 0;font-size:14px;color:#92400e;\"><strong>Blocked:</strong> ",
            );
            let escaped_reason = escape_html(reason.as_str());
            push_text(out, escaped_reason.as_str());
            push_text(out, "</p>");
        },
        None => {},
    }
    proof {
        assert(out@ =~= old(out)@ + blocked_html(*question_row));
    }
}

fn push_image_html(out: &mut String, question_row: &ResultQuestionRow, answered: bool, image_src: Option<&str>)
    ensures
        final(out)@ == old(out)@ + image_html(
            *question_row,
            answered,
            match image_src {
                Some(s) => Some(s@),
                None => None,
            },
        ),
{
    if answered {
        match image_src {
            Some(src) => {
                push_text(out, "<img src=\"");
                push_text(out, src);
                push_text(out, "\" alt=\"Question ");
                push_i64(out, question_row.question_number);
                push_text(
                    out,
                    " answer image\" style=\"display:block;max-width:100%;height:auto;margin:18px 0 0;border:1px solid #d1d5db;border-radius:8px;\" />",
                );
            },
            None => {},
        }
    }
    proof {
        assert(out@ =~= old(out)@ + image_html(
            *question_row,
            answered,
            match image_src {
                Some(s) => Some(s@),
                None => None,
            },
        ));
    }
}

fn push_feedback_html(out: &mut String, question_row: &ResultQuestionRow)
    ensures
        final(out)@ == old(out)@ + feedback_html(*question_row),
{
    if blank(question_row.effective_feedback_text.as_str()) {
        push_text(
            out,
            "<p style=\"margin:16px 0 0;font-size:16px;\"><strong>Feedback:</strong> No feedback available.</p>",
        );
    } else {
        push_text(out, "<p style=\"margin:16px 0 0;font-size:16px;\"><strong>Feedback:</strong> ");
        let feedback = escape_preserving_line_breaks(question_row.effective_feedback_text.as_str());
        push_text(out, feedback.as_str());
        push_text(out, "</p>");
    }
    proof {
        assert(out@ =~= old(out)@ + feedback_html(*question_row));
    }
}

/// Builds the report section of one question.
pub fn build_question_section(
    question_row: &ResultQuestionRow,
    answer: Option<&StudentWorkflowAnswer>,
    question: Option<&QuestionRecord>,
    image_src: Option<&str>,
) -> (out: String)
    ensures
        out@ == question_section(
            *question_row,
            answer is Some,
            match question {
                Some(q) => Some(*q),
                None => None,
            },
            match image_src {
                Some(s) => Some(s@),
                None => None,
            },
        ),
{
    let prompt = build_prompt(question_row, question);
    let score_label = build_score_label(question_row, question);
    let mut out = owned("<section style=\"padding:0 0 28px;\">");
    push_text(&mut out, "<hr style=\"border:none;border-top:1px solid #d1d5db;margin:0 0 22px;\" />");
    push_text(&mut out, "<h2 style=\"margin:0 0 12px;font-size:18px;line-height:1.35;\">Question ");
    push_i64(&mut out, question_row.question_number);
    push_text(&mut out, ": ");
    let escaped_prompt = escape_html(prompt.as_str());
    push_text(&mut out, escaped_prompt.as_str());
    push_text(&mut out, "</h2>");
    push_text(&mut out, "<p style=\"margin:0;font-size:16px;font-weight:700;\">Score: ");
    let escaped_score = escape_html(score_label.as_str());
    push_text(&mut out, escaped_score.as_str());
    push_text(&mut out, "</p>");
    push_blocked_html(&mut out, question_row);
    push_image_html(&mut out, question_row, answer.is_some(), image_src);
    push_feedback_html(&mut out, question_row);
    push_text(&mut out, "</section>");
    proof {
        assert(out@ =~= question_section(
            *question_row,
            answer is Some,
            match question {
                Some(q) => Some(*q),
                None => None,
            },
            match image_src {
                Some(s) => Some(s@),
                None => None,
            },
        ));
    }
    out
}

/// The sections of the first question rows, in order.
pub open spec fn report_sections(
    question_rows: Seq<ResultQuestionRow>,
    answers: Seq<StudentWorkflowAnswer>,
    questions: Seq<QuestionRecord>,
    assets: Seq<LmsUploadReportAsset>,
) -> Seq<char>
    decreases question_rows.len(),
{
    if question_rows.len() == 0 {
        Seq::empty()
    } else {
        let q = question_rows.last();
        report_sections(question_rows.drop_last(), answers, questions, assets) + question_section(
            q,
            last_answer(answers, q.question_id@) is Some,
            last_question(questions, q.question_id@),
            last_image_src(assets, q.question_id@),
        )
    }
}

/// The maximum of a question row, zero when unknown.
pub open spec fn row_max_points() -> spec_fn(ResultQuestionRow) -> int {
    |q: ResultQuestionRow| match q.max_points {
        Some(m) => m as int,
        None => 0,
    }
}

/// Whether every question row has a maximum.
pub open spec fn all_max_points_known(question_rows: Seq<ResultQuestionRow>) -> bool {
    forall|i: int| 0 <= i < question_rows.len() ==> (#[trigger] question_rows[i]).max_points is Some
}

/// Whether adding up the maxima of the question rows stays within `i64`.
pub open spec fn max_points_total_fits(question_rows: Seq<ResultQuestionRow>) -> bool {
    all_max_points_known(question_rows) ==> forall|k: int|
        0 <= k <= question_rows.len() ==> i64::MIN <= #[trigger] sum_of(question_rows.take(k), row_max_points())
            <= i64::MAX
}

/// The total line of a report: `total / max` when every maximum is known and
/// positive in sum, the total alone otherwise, `Pending` while incomplete.
pub open spec fn total_label(row: ResultStudentRow) -> Seq<char> {
    if row.aggregate_complete {
        if all_max_points_known(row.question_rows@) && sum_of(row.question_rows@, row_max_points()) > 0 {
            int_decimal(row.aggregate_total as int) + " / "@ + int_decimal(
                sum_of(row.question_rows@, row_max_points()),
            )
        } else {
            int_decimal(row.aggregate_total as int)
        }
    } else {
        "Pending"@
    }
}

/// The whole HTML report of one student.
pub open spec fn report_html(
    exam_title: Seq<char>,
    row: ResultStudentRow,
    answers: Seq<StudentWorkflowAnswer>,
    questions: Seq<QuestionRecord>,
    assets: Seq<LmsUploadReportAsset>,
) -> Seq<char> {
    "<!doctype html>"@ + "<html><head><meta charset=\"utf-8\"><title>"@ + escaped(exam_title)
        + "</title></head>"@
        + "<body style=\"margin:0;background:#ffffff;color:#111827;font-family:Inter,Arial,sans-serif;line-height:1.45;\">"@
        + "<main style=\"max-width:980px;margin:0 auto;padding:28px 28px 40px;\">"@
        + "<h1 style=\"margin:0 0 10px;font-size:26px;line-height:1.2;\">"@ + escaped(exam_title)
        + "</h1>"@ + "<p style=\"margin:0 0 28px;font-size:16px;font-weight:700;\">Total Score: "@
        + escaped(total_label(row)) + "</p>"@ + report_sections(
        row.question_rows@,
        answers,
        questions,
        assets,
    ) + "</main></body></html>"@
}

fn all_max_known(question_rows: &Vec<ResultQuestionRow>) -> (r: bool)
    ensures
        r == all_max_points_known(question_rows@),
{
    let mut i: usize = 0;
    while i < question_rows.len()
        invariant
            i <= question_rows@.len(),
            forall|k: int| 0 <= k < i ==> (#[trigger] question_rows@[k]).max_points is Some,
        decreases question_rows@.len() - i,
    {
        if question_rows[i].max_points.is_none() {
            return false;
        }
        i += 1;
    }
    true
}

fn build_total_label(row: &ResultStudentRow) -> (out: String)
    requires
        max_points_total_fits(row.question_rows@),
    ensures
        out@ == total_label(*row),
{
    if !row.aggregate_complete {
        return owned("Pending");
    }
    let rows = &row.question_rows;
    let mut total: i64 = 0;
    if all_max_known(rows) {
        let mut i: usize = 0;
        proof {
            assert(rows@.take(0) =~= Seq::<ResultQuestionRow>::empty());
        }
        while i < rows.len()
            invariant
                i <= rows@.len(),
                all_max_points_known(rows@),
                max_points_total_fits(rows@),
                total == sum_of(rows@.take(i as int), row_max_points()),
            decreases rows@.len() - i,
        {
            proof {
                lemma_sum_of_take_step(rows@, row_max_points(), i as int);
                assert(rows@[i as int].max_points is Some);
                assert(i64::MIN <= sum_of(rows@.take(i + 1), row_max_points()) <= i64::MAX);
            }
            let m = match rows[i].max_points {
                Some(m) => m,
                None => 0,
            };
            total = total + m;
            i += 1;
        }
        proof {
            assert(rows@.take(i as int) =~= rows@);
        }
        if total > 0 {
            let mut out = owned("");
            push_i64(&mut out, row.aggregate_total);
            push_text(&mut out, " / ");
            push_i64(&mut out, total);
            proof {
                reveal_strlit("");
                assert(out@ =~= total_label(*row));
            }
            return out;
        }
    }
    let mut out = owned("");
    push_i64(&mut out, row.aggregate_total);
    proof {
        reveal_strlit("");
        assert(out@ =~= total_label(*row));
    }
    out
}

/// Builds the HTML report of one student: the exam title, the total score,
/// and one section per question row (with the student's answer image when
/// known).
pub fn build_report_html(
    exam_title: &str,
    row: &ResultStudentRow,
    submission: &StudentWorkflowSubmission,
    questions: &Vec<QuestionRecord>,
    report_assets: &Vec<LmsUploadReportAsset>,
) -> (out: String)
    requires
        max_points_total_fits(row.question_rows@),
    ensures
        out@ == report_html(exam_title@, *row, submission.answers@, questions@, report_assets@),
{
    let qrows = &row.question_rows;
    let mut sections = String::new();
    let mut i: usize = 0;
    proof {
        assert(qrows@.take(0) =~= Seq::<ResultQuestionRow>::empty());
    }
    while i < qrows.len()
        invariant
            i <= qrows@.len(),
            sections@ == report_sections(
                qrows@.take(i as int),
                submission.answers@,
                questions@,
                report_assets@,
            ),
        decreases qrows@.len() - i,
    {
        let q = &qrows[i];
        let answer = find_last_answer(&submission.answers, q.question_id.as_str());
        let question = find_last_question(questions, q.question_id.as_str());
        let src = find_last_image_src(report_assets, q.question_id.as_str());
        let section = match &src {
            Some(s) => build_question_section(q, answer, question, Some(s.as_str())),
            None => build_question_section(q, answer, question, None),
        };
        push_text(&mut sections, section.as_str());
        proof {
            assert(qrows@.take(i + 1).drop_last() =~= qrows@.take(i as int));
            assert(qrows@.take(i + 1).last() == qrows@[i as int]);
            assert(sections@ =~= report_sections(
                qrows@.take(i + 1),
                submission.answers@,
                questions@,
                report_assets@,
            ));
        }
        i += 1;
    }
    proof {
        assert(qrows@.take(i as int) =~= qrows@);
    }
    let title = escape_html(exam_title);
    let total = build_total_label(row);
    let escaped_total = escape_html(total.as_str());
    let mut out = owned("<!doctype html>");
    push_text(&mut out, "<html><head><meta charset=\"utf-8\"><title>");
    push_text(&mut out, title.as_str());
    push_text(&mut out, "</title></head>");
    push_text(
        &mut out,
        "<body style=\"margin:0;background:#ffffff;color:#111827;font-family:Inter,Arial,sans-serif;line-height:1.45;\">",
    );
    push_text(&mut out, "<main style=\"max-width:980px;margin:0 auto;padding:28px 28px 40px;\">");
    push_text(&mut out, "<h1 style=\"margin:0 0 10px;font-size:26px;line-height:1.2;\">");
    push_text(&mut out, title.as_str());
    push_text(&mut out, "</h1>");
    push_text(&mut out, "<p style=\"margin:0 0 28px;font-size:16px;font-weight:700;\">Total Score: ");
    push_text(&mut out, escaped_total.as_str());
    push_text(&mut out, "</p>");
    push_text(&mut out, sections.as_str());
    push_text(&mut out, "</main></body></html>");
    proof {
        assert(out@ =~= report_html(exam_title@, *row, submission.answers@, questions@, report_assets@));
    }
    out
}

/// The report comment template of one student: the wrapped report whose
/// answer images are placeholders for the prepared report images.
pub fn build_canvas_report_comment_template(
    exam_title: &str,
    row: &ResultStudentRow,
    submission: &StudentWorkflowSubmission,
    questions: &Vec<QuestionRecord>,
    report_assets: &Vec<LmsUploadReportAsset>,
) -> (out: String)
    requires
        max_points_total_fits(row.question_rows@),
    ensures
        out@ == wrapped_report(
            report_html(exam_title@, *row, submission.answers@, questions@, report_assets@),
            match row.result_fingerprint {
                Some(f) => Some(f@),
                None => None,
            },
        ),
{
    let html = build_report_html(exam_title, row, submission, questions, report_assets);
    match &row.result_fingerprint {
        Some(f) => wrap_generated_report_comment(html.as_str(), Some(f.as_str())),
        None => wrap_generated_report_comment(html.as_str(), None),
    }
}

/// What a report preview shows.
#[derive(Debug, PartialEq, Eq)]
pub struct ResultsLmsReportPreview {
    pub student_ref: String,
    pub result_fingerprint: Option<String>,
    pub html: String,
}

/// Rows of student `student_ref`.
pub open spec fn result_row_of(student_ref: Seq<char>) -> spec_fn(ResultStudentRow) -> bool {
    |r: ResultStudentRow| r.student_ref@ == student_ref
}

/// Submissions of student `student_ref`.
pub open spec fn submission_of(student_ref: Seq<char>) -> spec_fn(StudentWorkflowSubmission) -> bool {
    |s: StudentWorkflowSubmission| s.student_ref@ == student_ref
}

fn position_of_row(rows: &Vec<ResultStudentRow>, student_ref: &str) -> (r: usize)
    ensures
        r == crate::seqs::first_index(rows@, result_row_of(student_ref@)),
        r <= rows@.len(),
{
    let mut i: usize = 0;
    while i < rows.len()
        invariant
            i <= rows@.len(),
            forall|k: int| 0 <= k < i ==> !result_row_of(student_ref@)(#[trigger] rows@[k]),
        decreases rows@.len() - i,
    {
        if text_eq(rows[i].student_ref.as_str(), student_ref) {
            proof {
                crate::seqs::lemma_first_index_is(rows@, result_row_of(student_ref@), i as int);
            }
            return i;
        }
        i += 1;
    }
    proof {
        crate::seqs::lemma_first_index_is(rows@, result_row_of(student_ref@), i as int);
    }
    i
}

fn position_of_submission(submissions: &Vec<StudentWorkflowSubmission>, student_ref: &str) -> (r: usize)
    ensures
        r == crate::seqs::first_index(submissions@, submission_of(student_ref@)),
        r <= submissions@.len(),
{
    let mut i: usize = 0;
    while i < submissions.len()
        invariant
            i <= submissions@.len(),
            forall|k: int| 0 <= k < i ==> !submission_of(student_ref@)(#[trigger] submissions@[k]),
        decreases submissions@.len() - i,
    {
        if text_eq(submissions[i].student_ref.as_str(), student_ref) {
            proof {
                crate::seqs::lemma_first_index_is(submissions@, submission_of(student_ref@), i as int);
            }
            return i;
        }
        i += 1;
    }
    proof {
        crate::seqs::lemma_first_index_is(submissions@, submission_of(student_ref@), i as int);
    }
    i
}

/// The preview of a student's report, with each image placeholder replaced
/// by the image's `data:` URI (`asset_sources`, one pair per prepared image).
/// The student must have a result row and a submission.
pub fn build_report_preview(
    exam_title: &str,
    rows: &Vec<ResultStudentRow>,
    submissions: &Vec<StudentWorkflowSubmission>,
    questions: &Vec<QuestionRecord>,
    student_ref: &str,
    report_assets: &Vec<LmsUploadReportAsset>,
    asset_sources: &Vec<(String, String)>,
) -> (r: Result<ResultsLmsReportPreview, HostError>)
    requires
        forall|i: int| 0 <= i < rows@.len() ==> max_points_total_fits(#[trigger] rows@[i].question_rows@),
    ensures
        ({
            let ri = crate::seqs::first_index(rows@, result_row_of(student_ref@));
            let si = crate::seqs::first_index(submissions@, submission_of(student_ref@));
            &&& ri >= rows@.len() ==> (r matches Err(e) && e is Validation && e.msg() == "Result row '"@
                + student_ref@ + "' was not found."@)
            &&& ri < rows@.len() && si >= submissions@.len() ==> (r matches Err(e) && e is Validation
                && e.msg() == "Submission '"@ + student_ref@
                + "' was not found in student workflow state."@)
            &&& r is Ok <==> ri < rows@.len() && si < submissions@.len()
            &&& r matches Ok(p) ==> p.student_ref@ == student_ref@ && crate::text::opt_text(
                p.result_fingerprint,
            ) == crate::text::opt_text(rows@[ri].result_fingerprint) && p.html@ == substituted(
                wrapped_report(
                    report_html(
                        exam_title@,
                        rows@[ri],
                        submissions@[si].answers@,
                        questions@,
                        report_assets@,
                    ),
                    match rows@[ri].result_fingerprint {
                        Some(f) => Some(f@),
                        None => None,
                    },
                ),
                asset_sources@,
            )
        }),
{
    let ri = position_of_row(rows, student_ref);
    if ri == rows.len() {
        return Err(validation(concat3("Result row '", student_ref, "' was not found.")));
    }
    let si = position_of_submission(submissions, student_ref);
    if si == submissions.len() {
        return Err(
            validation(
                concat3("Submission '", student_ref, "' was not found in student workflow state."),
            ),
        );
    }
    let row = &rows[ri];
    let template = build_canvas_report_comment_template(
        exam_title,
        row,
        &submissions[si],
        questions,
        report_assets,
    );
    let html = substitute_report_asset_sources(template.as_str(), asset_sources);
    Ok(
        ResultsLmsReportPreview {
            student_ref: owned(student_ref),
            result_fingerprint: crate::text::clone_opt_text(&row.result_fingerprint),
            html,
        },
    )
}


/// `sources` pairs each report image name with the `data:` URI of its
/// encoded JPEG bytes, in the order of `images`.
pub open spec fn data_uri_sources(sources: Seq<(String, String)>, images: Seq<(String, Vec<u8>)>) -> bool {
    &&& sources.len() == images.len()
    &&& forall|i: int|
        0 <= i < images.len() ==> (#[trigger] sources[i]).0@ == images[i].0@ && sources[i].1@
            == "data:image/jpeg;base64,"@ + base64_standard(images[i].1@)
}

/// The image sources of a report preview: each image name with the `data:`
/// URI of its encoded JPEG bytes.
pub fn report_asset_sources(images: &Vec<(String, Vec<u8>)>) -> (r: Vec<(String, String)>)
    ensures
        data_uri_sources(r@, images@),
{
    let mut out: Vec<(String, String)> = Vec::new();
    let mut i: usize = 0;
    while i < images.len()
        invariant
            i <= images@.len(),
            out@.len() == i,
            forall|k: int|
                0 <= k < i ==> (#[trigger] out@[k]).0@ == images@[k].0@ && out@[k].1@ == "data:image/jpeg;base64,"@
                    + base64_standard(images@[k].1@),
        decreases images@.len() - i,
    {
        let name = owned(images[i].0.as_str());
        let uri = jpeg_data_uri(&images[i].1);
        out.push((name, uri));
        i += 1;
    }
    out
}

/// The preview of a student's report built from the encoded JPEG bytes of
/// its images (one pair of image name and bytes per prepared image): as
/// `build_report_preview` with each image's `data:` URI as its source.
pub fn build_report_preview_from_images(
    exam_title: &str,
    rows: &Vec<ResultStudentRow>,
    submissions: &Vec<StudentWorkflowSubmission>,
    questions: &Vec<QuestionRecord>,
    student_ref: &str,
    report_assets: &Vec<LmsUploadReportAsset>,
    images: &Vec<(String, Vec<u8>)>,
) -> (r: Result<ResultsLmsReportPreview, HostError>)
    requires
        forall|i: int| 0 <= i < rows@.len() ==> max_points_total_fits(#[trigger] rows@[i].question_rows@),
    ensures
        ({
            let ri = crate::seqs::first_index(rows@, result_row_of(student_ref@));
            let si = crate::seqs::first_index(submissions@, submission_of(student_ref@));
            &&& ri >= rows@.len() ==> (r matches Err(e) && e is Validation && e.msg() == "Result row '"@
                + student_ref@ + "' was not found."@)
            &&& ri < rows@.len() && si >= submissions@.len() ==> (r matches Err(e) && e is Validation
                && e.msg() == "Submission '"@ + student_ref@
                + "' was not found in student workflow state."@)
            &&& r is Ok <==> ri < rows@.len() && si < submissions@.len()
            &&& r matches Ok(p) ==> p.student_ref@ == student_ref@ && crate::text::opt_text(
                p.result_fingerprint,
            ) == crate::text::opt_text(rows@[ri].result_fingerprint) && exists|sources: Seq<(String, String)>|
                data_uri_sources(sources, images@) && p.html@ == substituted(
                    wrapped_report(
                        report_html(
                            exam_title@,
                            rows@[ri],
                            submissions@[si].answers@,
                            questions@,
                            report_assets@,
                        ),
                        match rows@[ri].result_fingerprint {
                            Some(f) => Some(f@),
                            None => None,
                        },
                    ),
                    sources,
                )
        }),
{
    let sources = report_asset_sources(images);
    let r = build_report_preview(exam_title, rows, submissions, questions, student_ref, report_assets, &sources);
    proof {
        assert(data_uri_sources(sources@, images@));
    }
    r
}


/// The record of a report image written for `question_id`: its name (from
/// the question), where it was written, and the fingerprint of the bytes
/// written (their SHA-256 digest in hexadecimal).
pub fn report_asset_record(question_id: &str, local_file_path: &str, written_bytes: &Vec<u8>) -> (a: LmsUploadReportAsset)
    ensures
        a.question_id@ == question_id@,
        a.local_asset_name@ == sanitized_component(question_id@) + ".jpg"@,
        a.asset_fingerprint@ == sha256_hex_of(written_bytes@),
        a.local_file_path@ == local_file_path@,
{
    LmsUploadReportAsset {
        question_id: owned(question_id),
        local_asset_name: report_asset_name(question_id),
        asset_fingerprint: sha256_hex(written_bytes),
        local_file_path: owned(local_file_path),
    }
}

} // verus!
