//! Trigger words for PII screening: a student's name, the parts of it, and
//! the e-mail and login of the matching roster row, without repeats that
//! differ only in letter case.
use vstd::prelude::*;
use crate::models::{ExamWorkspaceState, LmsRosterRow, StudentIntakeSummary};
use crate::sorted::texts;
use crate::text::{
    blank, chars_of, is_blank, is_alphanumeric, owned, string_of, text_eq, to_lowercase, trim, trimmed, unicode_alphanumeric,
    unicode_lowercase,
};

verus! {

// ---------------------------------------------------------------------------
// Adding trigger words without case-insensitive repeats
// ---------------------------------------------------------------------------

/// `out` after offering `raw`: its trimmed form is added unless it is empty
/// or equal, ignoring letter case, to a word already there.
pub open spec fn push_trigger_spec(out: Seq<Seq<char>>, raw: Seq<char>) -> Seq<Seq<char>> {
    let t = trim(raw);
    if t.len() == 0 || exists|i: int| 0 <= i < out.len() && unicode_lowercase(#[trigger] out[i]) == unicode_lowercase(t) {
        out
    } else {
        out.push(t)
    }
}

/// `out` after offering each of `raws` in order.
pub open spec fn push_triggers_spec(out: Seq<Seq<char>>, raws: Seq<Seq<char>>) -> Seq<Seq<char>>
    decreases raws.len(),
{
    if raws.len() == 0 {
        out
    } else {
        push_trigger_spec(push_triggers_spec(out, raws.drop_last()), raws.last())
    }
}

/// The case-folded keys of the words in `out`.
pub open spec fn keys_of(out: Seq<Seq<char>>) -> Seq<Seq<char>> {
    out.map_values(|w: Seq<char>| unicode_lowercase(w))
}

/// Offers `raw` as a trigger word; `seen` holds the case-folded form of each
/// word of `out`.
pub fn push_pii_trigger(out: &mut Vec<String>, seen: &mut Vec<String>, raw: &str)
    requires
        texts(old(seen)@) == keys_of(texts(old(out)@)),
    ensures
        texts(final(out)@) == push_trigger_spec(texts(old(out)@), raw@),
        texts(final(seen)@) == keys_of(texts(final(out)@)),
{
    let t = trimmed(raw);
    if t.unicode_len() == 0 {
        return;
    }
    let key = to_lowercase(t.as_str());
    let mut i: usize = 0;
    while i < seen.len()
        invariant
            i <= seen@.len(),
            texts(seen@) == keys_of(texts(out@)),
            key@ == unicode_lowercase(trim(raw@)),
            forall|k: int| 0 <= k < i ==> (#[trigger] seen@[k])@ != key@,
        decreases seen@.len() - i,
    {
        if text_eq(seen[i].as_str(), key.as_str()) {
            proof {
                assert(texts(seen@).len() == seen@.len());
                assert(keys_of(texts(out@)).len() == out@.len());
                assert(texts(seen@)[i as int] == seen@[i as int]@);
                assert(keys_of(texts(out@))[i as int] == unicode_lowercase(texts(out@)[i as int]));
                assert(unicode_lowercase(texts(out@)[i as int]) == unicode_lowercase(trim(raw@)));
            }
            return;
        }
        i += 1;
    }
    proof {
        assert(texts(seen@).len() == seen@.len());
        assert(keys_of(texts(out@)).len() == out@.len());
        assert forall|j: int| 0 <= j < texts(out@).len() implies unicode_lowercase(#[trigger] texts(out@)[j])
            != unicode_lowercase(trim(raw@)) by {
            assert(texts(seen@)[j] == seen@[j]@);
            assert(keys_of(texts(out@))[j] == unicode_lowercase(texts(out@)[j]));
        }
    }
    let ghost (o0, s0) = (out@, seen@);
    out.push(t);
    seen.push(key);
    proof {
        assert(texts(out@) =~= texts(o0).push(trim(raw@)));
        assert(texts(seen@) =~= texts(s0).push(key@));
        assert(keys_of(texts(o0).push(trim(raw@))) =~= keys_of(texts(o0)).push(unicode_lowercase(trim(raw@))));
        assert(texts(seen@) =~= keys_of(texts(out@)));
    }
}

/// No two trigger words are equal ignoring letter case.
pub open spec fn distinct_ignoring_case(words: Seq<Seq<char>>) -> bool {
    forall|i: int, j: int| 0 <= i < j < words.len() ==> unicode_lowercase(#[trigger] words[i]) != unicode_lowercase(#[trigger] words[j])
}

/// Offering words never makes two of them equal ignoring letter case, and
/// no word is empty once trimmed.
pub proof fn law_trigger_words_distinct_ignoring_case(out: Seq<Seq<char>>, raws: Seq<Seq<char>>)
    requires
        distinct_ignoring_case(out),
    ensures
        distinct_ignoring_case(push_triggers_spec(out, raws)),
    decreases raws.len(),
{
    if raws.len() > 0 {
        law_trigger_words_distinct_ignoring_case(out, raws.drop_last());
        let prev = push_triggers_spec(out, raws.drop_last());
        let t = trim(raws.last());
        let next = push_trigger_spec(prev, raws.last());
        if next != prev {
            assert(next == prev.push(t));
            assert forall|i: int, j: int| 0 <= i < j < next.len() implies unicode_lowercase(#[trigger] next[i])
                != unicode_lowercase(#[trigger] next[j]) by {
                if j == prev.len() {
                    assert(next[i] == prev[i]);
                    assert(next[j] == t);
                } else {
                    assert(next[i] == prev[i] && next[j] == prev[j]);
                }
            }
        }
    }
}

// ---------------------------------------------------------------------------
// Parts of a name
// ---------------------------------------------------------------------------

/// Characters at which a name is split: anything but a letter, a digit, an
/// apostrophe or a hyphen.
pub open spec fn name_separator(c: char) -> bool {
    !unicode_alphanumeric(c) && c != '\'' && c != '-'
}

/// The number of bytes of `c` in UTF-8.
pub open spec fn utf8_width(c: char) -> nat {
    if (c as u32) < 0x80 {
        1
    } else if (c as u32) < 0x800 {
        2
    } else if (c as u32) < 0x10000 {
        3
    } else {
        4
    }
}

/// The number of bytes of `s` in UTF-8.
pub open spec fn utf8_len(s: Seq<char>) -> nat
    decreases s.len(),
{
    if s.len() == 0 {
        0
    } else {
        utf8_len(s.drop_last()) + utf8_width(s.last())
    }
}

/// Whether a piece of a name is kept as a part: at least two bytes once
/// trimmed.
pub open spec fn kept_part(piece: Seq<char>) -> bool {
    utf8_len(trim(piece)) >= 2
}

/// Splitting `s` at separators: the trimmed pieces kept so far, and the
/// piece under way.
pub open spec fn name_split(s: Seq<char>) -> (Seq<Seq<char>>, Seq<char>)
    decreases s.len(),
{
    if s.len() == 0 {
        (Seq::empty(), Seq::empty())
    } else {
        let (done, cur) = name_split(s.drop_last());
        if name_separator(s.last()) {
            (if kept_part(cur) { done.push(trim(cur)) } else { done }, Seq::empty())
        } else {
            (done, cur.push(s.last()))
        }
    }
}

/// The parts of a name: its pieces between separators, trimmed, that are
/// at least two bytes long.
pub open spec fn name_parts(s: Seq<char>) -> Seq<Seq<char>> {
    let (done, cur) = name_split(s);
    if kept_part(cur) {
        done.push(trim(cur))
    } else {
        done
    }
}

fn at_least_two_bytes(v: &Vec<char>) -> (b: bool)
    ensures
        b == (utf8_len(v@) >= 2),
{
    let mut n: usize = 0;
    let mut i: usize = 0;
    proof {
        assert(v@.take(0) =~= Seq::<char>::empty());
    }
    while i < v.len() && n < 2
        invariant
            i <= v@.len(),
            n <= 5,
            n < 2 ==> n == utf8_len(v@.take(i as int)),
            n >= 2 ==> utf8_len(v@.take(i as int)) >= 2,
        decreases v@.len() - i,
    {
        let c = v[i];
        let code = c as u32;
        let w: usize = if code < 0x80 {
            1
        } else if code < 0x800 {
            2
        } else if code < 0x10000 {
            3
        } else {
            4
        };
        proof {
            let t = v@.take(i + 1);
            assert(t.drop_last() =~= v@.take(i as int));
            assert(t.last() == c);
        }
        n = n + w;
        i += 1;
    }
    proof {
        if n < 2 {
            assert(v@.take(i as int) =~= v@);
        } else {
            lemma_utf8_len_monotone(v@, i as int);
        }
    }
    n >= 2
}

proof fn lemma_utf8_len_monotone(s: Seq<char>, i: int)
    requires
        0 <= i <= s.len(),
    ensures
        utf8_len(s.take(i)) <= utf8_len(s),
    decreases s.len() - i,
{
    if i < s.len() {
        let t = s.take(i + 1);
        assert(t.drop_last() =~= s.take(i));
        lemma_utf8_len_monotone(s, i + 1);
    } else {
        assert(s.take(i) =~= s);
    }
}

fn finish_part(parts: &mut Vec<String>, cur: &Vec<char>)
    ensures
        texts(final(parts)@) == if kept_part(cur@) {
            texts(old(parts)@).push(trim(cur@))
        } else {
            texts(old(parts)@)
        },
{
    let piece = string_of(cur.as_slice());
    let t = trimmed(piece.as_str());
    let tv = chars_of(t.as_str());
    if at_least_two_bytes(&tv) {
        let ghost before = parts@;
        parts.push(t);
        proof {
            assert(texts(parts@) =~= texts(before).push(trim(cur@)));
        }
    }
}

/// The parts of a display name: split at anything but letters, digits,
/// apostrophes and hyphens, trimmed, and at least two bytes long.
pub fn pii_name_parts(display_name: &str) -> (r: Vec<String>)
    ensures
        texts(r@) == name_parts(display_name@),
{
    let chars = chars_of(display_name);
    let mut parts: Vec<String> = Vec::new();
    let mut cur: Vec<char> = Vec::new();
    let mut i: usize = 0;
    proof {
        assert(chars@.take(0) =~= Seq::<char>::empty());
        assert(texts(parts@) =~= Seq::<Seq<char>>::empty());
    }
    while i < chars.len()
        invariant
            i <= chars@.len(),
            chars@ == display_name@,
            (texts(parts@), cur@) == name_split(chars@.take(i as int)),
        decreases chars@.len() - i,
    {
        let c = chars[i];
        proof {
            let t = chars@.take(i + 1);
            assert(t.drop_last() =~= chars@.take(i as int));
            assert(t.last() == c);
        }
        if !is_alphanumeric(c) && c != '\'' && c != '-' {
            finish_part(&mut parts, &cur);
            cur = Vec::new();
            proof {
                assert(cur@ =~= Seq::<char>::empty());
            }
        } else {
            cur.push(c);
        }
        i += 1;
    }
    proof {
        assert(chars@.take(i as int) =~= chars@);
    }
    finish_part(&mut parts, &cur);
    parts
}

// ---------------------------------------------------------------------------
// Trigger words of a student
// ---------------------------------------------------------------------------

/// The words offered for a name: the name itself, then the parts of the
/// trimmed name.
pub open spec fn name_candidates(name: Seq<char>) -> Seq<Seq<char>> {
    seq![name] + name_parts(trim(name))
}

fn push_all(out: &mut Vec<String>, seen: &mut Vec<String>, raws: &Vec<String>)
    requires
        texts(old(seen)@) == keys_of(texts(old(out)@)),
    ensures
        texts(final(out)@) == push_triggers_spec(texts(old(out)@), texts(raws@)),
        texts(final(seen)@) == keys_of(texts(final(out)@)),
{
    let ghost o0 = texts(out@);
    let mut i: usize = 0;
    proof {
        assert(texts(raws@).take(0) =~= Seq::<Seq<char>>::empty());
    }
    while i < raws.len()
        invariant
            i <= raws@.len(),
            texts(seen@) == keys_of(texts(out@)),
            texts(out@) == push_triggers_spec(o0, texts(raws@).take(i as int)),
        decreases raws@.len() - i,
    {
        push_pii_trigger(out, seen, raws[i].as_str());
        proof {
            let t = texts(raws@).take(i + 1);
            assert(t.drop_last() =~= texts(raws@).take(i as int));
            assert(t.last() == raws@[i as int]@);
        }
        i += 1;
    }
    proof {
        assert(texts(raws@).take(i as int) =~= texts(raws@));
    }
}

proof fn lemma_push_triggers_append(out: Seq<Seq<char>>, a: Seq<Seq<char>>, b: Seq<Seq<char>>)
    ensures
        push_triggers_spec(out, a + b) == push_triggers_spec(push_triggers_spec(out, a), b),
    decreases b.len(),
{
    if b.len() == 0 {
        assert(a + b =~= a);
    } else {
        assert((a + b).drop_last() =~= a + b.drop_last());
        assert((a + b).last() == b.last());
        lemma_push_triggers_append(out, a, b.drop_last());
    }
}

/// The trigger words of a name: the trimmed name, then its parts, without
/// case-insensitive repeats.
pub fn name_trigger_words(name: &str) -> (r: Vec<String>)
    ensures
        texts(r@) == push_triggers_spec(Seq::empty(), name_candidates(name@)),
{
    let mut out: Vec<String> = Vec::new();
    let mut seen: Vec<String> = Vec::new();
    let t = trimmed(name);
    proof {
        assert(texts(seen@) =~= keys_of(texts(out@)));
        assert(texts(out@) =~= Seq::<Seq<char>>::empty());
    }
    push_pii_trigger(&mut out, &mut seen, name);
    let parts = pii_name_parts(t.as_str());
    push_all(&mut out, &mut seen, &parts);
    proof {
        let first = seq![name@];
        assert(first.drop_last() =~= Seq::<Seq<char>>::empty());
        assert(first.last() == name@);
        reveal_with_fuel(push_triggers_spec, 2);
        assert(push_triggers_spec(Seq::empty(), first) == push_trigger_spec(Seq::empty(), name@));
        lemma_push_triggers_append(Seq::empty(), first, name_parts(trim(name@)));
        assert(texts(parts@) == name_parts(trim(name@)));
        assert(first + name_parts(trim(name@)) =~= name_candidates(name@));
    }
    out
}

/// The words offered for a roster row: its display name, the parts of it,
/// then its e-mail and login when present (each is trimmed when offered).
pub open spec fn roster_candidates(row: LmsRosterRow) -> Seq<Seq<char>> {
    name_candidates(row.display_name@) + optional_word(row.email) + optional_word(row.login_id)
}

/// An optional word as a sequence of none or one word.
pub open spec fn optional_word(o: Option<String>) -> Seq<Seq<char>> {
    match o {
        Some(w) => seq![w@],
        None => Seq::empty(),
    }
}

/// The trigger words of a roster row: display name, its parts, e-mail and
/// login, without case-insensitive repeats.
pub fn pii_trigger_words_for_roster_row(row: &LmsRosterRow) -> (r: Vec<String>)
    ensures
        texts(r@) == push_triggers_spec(Seq::empty(), roster_candidates(*row)),
{
    let mut out: Vec<String> = Vec::new();
    let mut seen: Vec<String> = Vec::new();
    let name = trimmed(row.display_name.as_str());
    proof {
        assert(texts(seen@) =~= keys_of(texts(out@)));
        assert(texts(out@) =~= Seq::<Seq<char>>::empty());
    }
    push_pii_trigger(&mut out, &mut seen, row.display_name.as_str());
    let parts = pii_name_parts(name.as_str());
    push_all(&mut out, &mut seen, &parts);
    let ghost after_name = texts(out@);
    proof {
        let first = seq![row.display_name@];
        assert(first.drop_last() =~= Seq::<Seq<char>>::empty());
        assert(first.last() == row.display_name@);
        reveal_with_fuel(push_triggers_spec, 2);
        lemma_push_triggers_append(Seq::empty(), first, name_parts(trim(row.display_name@)));
        assert(after_name == push_triggers_spec(Seq::empty(), name_candidates(row.display_name@)));
    }
    let ghost email_part = optional_word(row.email);
    if let Some(email) = &row.email {
        push_pii_trigger(&mut out, &mut seen, email.as_str());
        proof {
            assert(email_part.drop_last() =~= Seq::<Seq<char>>::empty());
            assert(email_part.last() == email@);
            reveal_with_fuel(push_triggers_spec, 2);
        }
    }
    proof {
        assert(texts(out@) == push_triggers_spec(after_name, email_part));
        lemma_push_triggers_append(Seq::empty(), name_candidates(row.display_name@), email_part);
    }
    let ghost after_email = texts(out@);
    let ghost login_part = optional_word(row.login_id);
    if let Some(login) = &row.login_id {
        push_pii_trigger(&mut out, &mut seen, login.as_str());
        proof {
            assert(login_part.drop_last() =~= Seq::<Seq<char>>::empty());
            assert(login_part.last() == login@);
            reveal_with_fuel(push_triggers_spec, 2);
        }
    }
    proof {
        assert(texts(out@) == push_triggers_spec(after_email, login_part));
        lemma_push_triggers_append(Seq::empty(), name_candidates(row.display_name@) + email_part, login_part);
    }
    out
}

// ---------------------------------------------------------------------------
// Trigger words by student
// ---------------------------------------------------------------------------

/// The trigger words of one student.
#[derive(Debug)]
pub struct StudentTriggerWords {
    pub student_ref: String,
    pub words: Vec<String>,
}

/// A student's trigger words as plain values.
pub open spec fn entry_view(e: StudentTriggerWords) -> (Seq<char>, Seq<Seq<char>>) {
    (e.student_ref@, texts(e.words@))
}

/// The trigger words of a local display name.
pub open spec fn name_words(name: Seq<char>) -> Seq<Seq<char>> {
    push_triggers_spec(Seq::empty(), name_candidates(name))
}

/// The entries made from the intake items' local display names, in order:
/// one for each item whose display name is not blank.
pub open spec fn local_trigger_entries(items: Seq<StudentIntakeSummary>) -> Seq<(Seq<char>, Seq<Seq<char>>)>
    decreases items.len(),
{
    if items.len() == 0 {
        Seq::empty()
    } else {
        let rest = local_trigger_entries(items.drop_last());
        let item = items.last();
        if item.local_display_name is Some && !is_blank(item.local_display_name->0@) && name_words(
            item.local_display_name->0@,
        ).len() > 0 {
            rest.push((item.student_ref@, name_words(item.local_display_name->0@)))
        } else {
            rest
        }
    }
}

/// The trigger words from the students' local display names, in intake
/// order; a later entry of a student replaces an earlier one.
pub fn local_pii_trigger_words_by_student_ref(workspace: &ExamWorkspaceState) -> (r: Vec<StudentTriggerWords>)
    ensures
        r@.map_values(|e: StudentTriggerWords| entry_view(e)) == local_trigger_entries(workspace.student_intake_items@),
{
    let items = &workspace.student_intake_items;
    let mut out: Vec<StudentTriggerWords> = Vec::new();
    let mut i: usize = 0;
    proof {
        assert(items@.take(0) =~= Seq::<StudentIntakeSummary>::empty());
        assert(out@.map_values(|e: StudentTriggerWords| entry_view(e)) =~= Seq::<(Seq<char>, Seq<Seq<char>>)>::empty());
    }
    while i < items.len()
        invariant
            i <= items@.len(),
            items@ == workspace.student_intake_items@,
            out@.map_values(|e: StudentTriggerWords| entry_view(e)) == local_trigger_entries(items@.take(i as int)),
        decreases items@.len() - i,
    {
        proof {
            let t = items@.take(i + 1);
            assert(t.drop_last() =~= items@.take(i as int));
            assert(t.last() == items@[i as int]);
        }
        if let Some(name) = &items[i].local_display_name {
            if !blank(name.as_str()) {
                let words = name_trigger_words(name.as_str());
                if words.len() > 0 {
                    let ghost before = out@;
                    let e = StudentTriggerWords { student_ref: owned(items[i].student_ref.as_str()), words };
                    out.push(e);
                    proof {
                        assert(out@.map_values(|e: StudentTriggerWords| entry_view(e)) =~= before.map_values(
                            |e: StudentTriggerWords| entry_view(e),
                        ).push(entry_view(e)));
                    }
                }
            }
        }
        i += 1;
    }
    proof {
        assert(items@.take(i as int) =~= items@);
    }
    out
}

/// The student whose persisted binding token is `token`: the last roster
/// row with that token.
pub open spec fn student_for_token(roster: Seq<crate::models::StudentRosterRow>, token: Seq<char>) -> Option<Seq<char>>
    decreases roster.len(),
{
    if roster.len() == 0 {
        None
    } else if roster.last().binding_token_hex@ == token {
        Some(roster.last().student_ref@)
    } else {
        student_for_token(roster.drop_last(), token)
    }
}

fn find_student_for_token(roster: &Vec<crate::models::StudentRosterRow>, token: &str) -> (r: Option<usize>)
    ensures
        match r {
            Some(k) => k < roster@.len() && student_for_token(roster@, token@) == Some(roster@[k as int].student_ref@),
            None => student_for_token(roster@, token@) is None,
        },
{
    let mut k: usize = roster.len();
    proof {
        assert(roster@.take(k as int) =~= roster@);
    }
    while k > 0
        invariant
            k <= roster@.len(),
            student_for_token(roster@, token@) == student_for_token(roster@.take(k as int), token@),
        decreases k,
    {
        proof {
            let t = roster@.take(k as int);
            assert(t.drop_last() =~= roster@.take(k - 1));
            assert(t.last() == roster@[k - 1]);
        }
        if text_eq(roster[k - 1].binding_token_hex.as_str(), token) {
            return Some(k - 1);
        }
        k -= 1;
    }
    None
}

/// The entries made from the LMS roster, in order: one for each roster row
/// whose binding token (`tokens`, one per row, `None` where it could not be
/// computed) belongs to a student of the project, when it has trigger words.
pub open spec fn roster_trigger_entries(
    persisted: Seq<crate::models::StudentRosterRow>,
    roster: Seq<LmsRosterRow>,
    tokens: Seq<Option<String>>,
) -> Seq<(Seq<char>, Seq<Seq<char>>)>
    decreases roster.len(),
{
    if roster.len() == 0 || tokens.len() != roster.len() {
        Seq::empty()
    } else {
        let rest = roster_trigger_entries(persisted, roster.drop_last(), tokens.drop_last());
        let words = push_triggers_spec(Seq::empty(), roster_candidates(roster.last()));
        match tokens.last() {
            Some(t) => match student_for_token(persisted, t@) {
                Some(student_ref) => if words.len() > 0 {
                    rest.push((student_ref, words))
                } else {
                    rest
                },
                None => rest,
            },
            None => rest,
        }
    }
}

/// The trigger words from the LMS roster: each roster row whose binding
/// token matches a student of the project gives that student the row's
/// trigger words. `roster_tokens` holds the binding token computed for each
/// roster row.
pub fn pii_trigger_words_by_student_ref_from_roster(
    workspace: &ExamWorkspaceState,
    roster: &Vec<LmsRosterRow>,
    roster_tokens: &Vec<Option<String>>,
) -> (r: Vec<StudentTriggerWords>)
    requires
        roster_tokens@.len() == roster@.len(),
    ensures
        r@.map_values(|e: StudentTriggerWords| entry_view(e)) == roster_trigger_entries(
            workspace.student_roster@,
            roster@,
            roster_tokens@,
        ),
{
    let persisted = &workspace.student_roster;
    let mut out: Vec<StudentTriggerWords> = Vec::new();
    let mut i: usize = 0;
    proof {
        assert(roster@.take(0) =~= Seq::<LmsRosterRow>::empty());
        assert(out@.map_values(|e: StudentTriggerWords| entry_view(e)) =~= Seq::<(Seq<char>, Seq<Seq<char>>)>::empty());
    }
    while i < roster.len()
        invariant
            i <= roster@.len(),
            roster_tokens@.len() == roster@.len(),
            persisted@ == workspace.student_roster@,
            out@.map_values(|e: StudentTriggerWords| entry_view(e)) == roster_trigger_entries(
                persisted@,
                roster@.take(i as int),
                roster_tokens@.take(i as int),
            ),
        decreases roster@.len() - i,
    {
        proof {
            let t = roster@.take(i + 1);
            assert(t.drop_last() =~= roster@.take(i as int));
            assert(t.last() == roster@[i as int]);
            let u = roster_tokens@.take(i + 1);
            assert(u.drop_last() =~= roster_tokens@.take(i as int));
            assert(u.last() == roster_tokens@[i as int]);
        }
        if let Some(token) = &roster_tokens[i] {
            if let Some(k) = find_student_for_token(persisted, token.as_str()) {
                let words = pii_trigger_words_for_roster_row(&roster[i]);
                if words.len() > 0 {
                    let ghost before = out@;
                    let e = StudentTriggerWords { student_ref: owned(persisted[k].student_ref.as_str()), words };
                    out.push(e);
                    proof {
                        assert(out@.map_values(|e: StudentTriggerWords| entry_view(e)) =~= before.map_values(
                            |e: StudentTriggerWords| entry_view(e),
                        ).push(entry_view(e)));
                    }
                }
            }
        }
        i += 1;
    }
    proof {
        assert(roster@.take(i as int) =~= roster@);
        assert(roster_tokens@.take(i as int) =~= roster_tokens@);
    }
    out
}

/// The trigger words of `student_ref` among `entries`: those of its last
/// entry.
pub open spec fn trigger_words_of(entries: Seq<(Seq<char>, Seq<Seq<char>>)>, student_ref: Seq<char>) -> Option<Seq<Seq<char>>>
    decreases entries.len(),
{
    if entries.len() == 0 {
        None
    } else if entries.last().0 == student_ref {
        Some(entries.last().1)
    } else {
        trigger_words_of(entries.drop_last(), student_ref)
    }
}

/// The trigger words of `student_ref`: those of its last entry.
pub fn trigger_words_for<'a>(entries: &'a Vec<StudentTriggerWords>, student_ref: &str) -> (r: Option<&'a Vec<String>>)
    ensures
        match r {
            Some(w) => trigger_words_of(entries@.map_values(|e: StudentTriggerWords| entry_view(e)), student_ref@)
                == Some(texts(w@)),
            None => trigger_words_of(entries@.map_values(|e: StudentTriggerWords| entry_view(e)), student_ref@) is None,
        },
{
    let ghost all = entries@.map_values(|e: StudentTriggerWords| entry_view(e));
    let mut k: usize = entries.len();
    proof {
        assert(all.take(k as int) =~= all);
    }
    while k > 0
        invariant
            k <= entries@.len(),
            all == entries@.map_values(|e: StudentTriggerWords| entry_view(e)),
            trigger_words_of(all, student_ref@) == trigger_words_of(all.take(k as int), student_ref@),
        decreases k,
    {
        proof {
            let t = all.take(k as int);
            assert(t.drop_last() =~= all.take(k - 1));
            assert(t.last() == entry_view(entries@[k - 1]));
        }
        if text_eq(entries[k - 1].student_ref.as_str(), student_ref) {
            return Some(&entries[k - 1].words);
        }
        k -= 1;
    }
    None
}

/// The trigger words of all students: those from local display names,
/// then those from the roster, which take precedence.
pub fn merge_trigger_words(local: Vec<StudentTriggerWords>, roster: Vec<StudentTriggerWords>) -> (r: Vec<StudentTriggerWords>)
    ensures
        r@ == local@ + roster@,
{
    let mut out = local;
    let mut rest = roster;
    out.append(&mut rest);
    out
}

} // verus!
