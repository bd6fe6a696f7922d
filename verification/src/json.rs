//! A JSON document model for worker payloads and runtime event payloads.
//!
//! Numbers are kept as their JSON text, so that no value is rounded on the
//! way through the library.
use vstd::prelude::*;
use crate::text::{owned, text_eq, push_count, nat_decimal};

verus! {

/// A JSON value.
#[derive(Debug, PartialEq)]
pub enum JsonValue {
    Null,
    Bool(bool),
    /// A number, as its JSON text (for example `42` or `-1.5`).
    Number(String),
    Text(String),
    Array(Vec<JsonValue>),
    Object(Vec<JsonMember>),
}

/// One `key: value` member of a JSON object.
#[derive(Debug, PartialEq)]
pub struct JsonMember {
    pub key: String,
    pub value: JsonValue,
}

/// The value stored under `key` among `members` (the first member with that key).
pub open spec fn member_value(members: Seq<JsonMember>, key: Seq<char>) -> Option<JsonValue>
    decreases members.len(),
{
    if members.len() == 0 {
        None
    } else if members[0].key@ == key {
        Some(members[0].value)
    } else {
        member_value(members.drop_first(), key)
    }
}

/// `value[key]` when `value` is an object holding `key`.
pub open spec fn json_get(value: JsonValue, key: Seq<char>) -> Option<JsonValue> {
    match value {
        JsonValue::Object(members) => member_value(members@, key),
        _ => None,
    }
}

/// The text of a JSON string value.
pub open spec fn json_text(value: Option<JsonValue>) -> Option<Seq<char>> {
    match value {
        Some(JsonValue::Text(s)) => Some(s@),
        _ => None,
    }
}

/// The text stored under `key` when it is a JSON string.
pub open spec fn json_get_text(value: JsonValue, key: Seq<char>) -> Option<Seq<char>> {
    json_text(json_get(value, key))
}

/// The boolean stored under `key` when it is a JSON boolean.
pub open spec fn json_get_bool(value: JsonValue, key: Seq<char>) -> Option<bool> {
    match json_get(value, key) {
        Some(JsonValue::Bool(b)) => Some(b),
        _ => None,
    }
}

proof fn lemma_member_value_skip(members: Seq<JsonMember>, key: Seq<char>, i: int)
    requires
        0 <= i < members.len(),
        members[i].key@ != key,
    ensures
        member_value(members.skip(i), key) == member_value(members.skip(i + 1), key),
{
    let s = members.skip(i);
    assert(s[0] == members[i]);
    assert(s.drop_first() =~= members.skip(i + 1));
}

/// Finds the member under `key` in an object's members.
pub fn find_member<'a>(members: &'a Vec<JsonMember>, key: &str) -> (r: Option<&'a JsonValue>)
    ensures
        match r {
            Some(v) => member_value(members@, key@) == Some(*v),
            None => member_value(members@, key@) is None,
        },
{
    let mut i: usize = 0;
    proof {
        assert(members@.skip(0) =~= members@);
    }
    while i < members.len()
        invariant
            i <= members@.len(),
            member_value(members@, key@) == member_value(members@.skip(i as int), key@),
        decreases members@.len() - i,
    {
        if text_eq(members[i].key.as_str(), key) {
            proof {
                let s = members@.skip(i as int);
                assert(s[0] == members@[i as int]);
            }
            return Some(&members[i].value);
        }
        proof {
            lemma_member_value_skip(members@, key@, i as int);
        }
        i += 1;
    }
    proof {
        assert(members@.skip(i as int) =~= Seq::<JsonMember>::empty());
    }
    None
}

/// `value[key]`.
pub fn get<'a>(value: &'a JsonValue, key: &str) -> (r: Option<&'a JsonValue>)
    ensures
        match r {
            Some(v) => json_get(*value, key@) == Some(*v),
            None => json_get(*value, key@) is None,
        },
{
    match value {
        JsonValue::Object(members) => find_member(members, key),
        _ => None,
    }
}

/// `value[key]` as a string slice, when it is a JSON string.
pub fn get_text<'a>(value: &'a JsonValue, key: &str) -> (r: Option<&'a String>)
    ensures
        match r {
            Some(s) => json_get_text(*value, key@) == Some(s@),
            None => json_get_text(*value, key@) is None,
        },
{
    match get(value, key) {
        Some(JsonValue::Text(s)) => Some(s),
        _ => None,
    }
}

/// `value[key]` as a boolean, when it is a JSON boolean.
pub fn get_bool(value: &JsonValue, key: &str) -> (r: Option<bool>)
    ensures
        r == json_get_bool(*value, key@),
{
    match get(value, key) {
        Some(JsonValue::Bool(b)) => Some(*b),
        _ => None,
    }
}

/// A JSON string value.
pub fn text_value(s: &str) -> (v: JsonValue)
    ensures
        v is Text,
        v->Text_0@ == s@,
{
    JsonValue::Text(owned(s))
}

/// A JSON member `key: value`.
pub fn member(key: &str, value: JsonValue) -> (m: JsonMember)
    ensures
        m.key@ == key@,
        m.value == value,
{
    JsonMember { key: owned(key), value }
}


/// The keys of `members`, in order.
pub open spec fn member_keys(members: Seq<JsonMember>) -> Seq<Seq<char>> {
    members.map_values(|m: JsonMember| m.key@)
}

/// The keys of an object's members, in order (empty for other values).
pub open spec fn object_keys(value: JsonValue) -> Seq<Seq<char>> {
    match value {
        JsonValue::Object(members) => member_keys(members@),
        _ => Seq::empty(),
    }
}

/// Whether `value` is the JSON number `n`.
pub open spec fn is_count(value: JsonValue, n: nat) -> bool {
    value is Number && value->Number_0@ == nat_decimal(n)
}

/// Whether `value` is the JSON string `s`.
pub open spec fn is_text(value: JsonValue, s: Seq<char>) -> bool {
    value is Text && value->Text_0@ == s
}

/// Whether `value` is the JSON string `s`, or `null` when `s` is `None`.
pub open spec fn is_optional_text(value: JsonValue, s: Option<Seq<char>>) -> bool {
    match s {
        Some(t) => is_text(value, t),
        None => value is Null,
    }
}

pub proof fn lemma_member_value_update(members: Seq<JsonMember>, j: int, m: JsonMember, key: Seq<char>)
    requires
        0 <= j < members.len(),
        members[j].key@ == m.key@,
        forall|i: int| 0 <= i < j ==> (#[trigger] members[i]).key@ != m.key@,
    ensures
        key == m.key@ ==> member_value(members.update(j, m), key) == Some(m.value),
        key != m.key@ ==> member_value(members.update(j, m), key) == member_value(members, key),
    decreases j,
{
    let u = members.update(j, m);
    assert(u[0] == if j == 0 { m } else { members[0] });
    if j == 0 {
        assert(u.drop_first() =~= members.drop_first());
    } else {
        assert(u.drop_first() =~= members.drop_first().update(j - 1, m));
        assert forall|i: int| 0 <= i < j - 1 implies (#[trigger] members.drop_first()[i]).key@
            != m.key@ by {
            assert(members.drop_first()[i] == members[i + 1]);
        }
        lemma_member_value_update(members.drop_first(), j - 1, m, key);
        assert(u[0] == members[0]);
    }
}

proof fn lemma_member_value_push(members: Seq<JsonMember>, m: JsonMember, key: Seq<char>)
    requires
        forall|i: int| 0 <= i < members.len() ==> (#[trigger] members[i]).key@ != m.key@,
    ensures
        key == m.key@ ==> member_value(members.push(m), key) == Some(m.value),
        key != m.key@ ==> member_value(members.push(m), key) == member_value(members, key),
    decreases members.len(),
{
    let u = members.push(m);
    if members.len() > 0 {
        assert(u.drop_first() =~= members.drop_first().push(m));
        assert forall|i: int| 0 <= i < members.len() - 1 implies (#[trigger] members.drop_first()[i]).key@
            != m.key@ by {
            assert(members.drop_first()[i] == members[i + 1]);
        }
        lemma_member_value_push(members.drop_first(), m, key);
        assert(u[0] == members[0]);
    } else {
        assert(u[0] == m);
        assert(u.drop_first() =~= Seq::<JsonMember>::empty());
        assert(member_value(u.drop_first(), key) is None);
    }
}

/// Sets `key` to `v` among an object's members: the first member with that
/// key takes the new value, or a member is appended when there is none.
pub fn insert_member(members: &mut Vec<JsonMember>, key: &str, v: JsonValue)
    ensures
        member_value(final(members)@, key@) == Some(v),
        forall|k: Seq<char>|
            k != key@ ==> #[trigger] member_value(final(members)@, k) == member_value(old(members)@, k),
        member_keys(old(members)@).contains(key@) ==> member_keys(final(members)@) == member_keys(old(members)@),
        !member_keys(old(members)@).contains(key@) ==> member_keys(final(members)@) == member_keys(old(members)@).push(key@),
{
    let ghost olds = members@;
    let mut i: usize = 0;
    while i < members.len()
        invariant
            members@ == olds,
            olds == old(members)@,
            i <= olds.len(),
            forall|k: int| 0 <= k < i ==> (#[trigger] olds[k]).key@ != key@,
        decreases olds.len() - i,
    {
        if text_eq(members[i].key.as_str(), key) {
            let m = member(key, v);
            let ghost mg = m;
            let _old_member = members.remove(i);
            members.insert(i, m);
            proof {
                assert(members@ =~= olds.update(i as int, mg));
                assert forall|k: Seq<char>| k != key@ implies #[trigger] member_value(members@, k)
                    == member_value(olds, k) by {
                    lemma_member_value_update(olds, i as int, mg, k);
                }
                lemma_member_value_update(olds, i as int, mg, key@);
                assert(member_keys(olds)[i as int] == key@);
                assert(member_keys(members@) =~= member_keys(olds));
            }
            return ;
        }
        i += 1;
    }
    let m = member(key, v);
    let ghost mg = m;
    members.push(m);
    proof {
        assert forall|k: Seq<char>| k != key@ implies #[trigger] member_value(members@, k)
            == member_value(olds, k) by {
            lemma_member_value_push(olds, mg, k);
        }
        lemma_member_value_push(olds, mg, key@);
        assert(member_keys(members@) =~= member_keys(olds).push(key@));
        assert(!member_keys(olds).contains(key@)) by {
            if member_keys(olds).contains(key@) {
                let w = choose|w: int|
                    0 <= w < olds.len() && #[trigger] member_keys(olds)[w]
                        == key@;
                assert(olds[w].key@ != key@);
            }
        }
    }
}

/// `value[key] = v` when `value` is an object; any other value is left as it is.
pub fn object_insert(value: &mut JsonValue, key: &str, v: JsonValue)
    ensures
        *old(value) is Object ==> *final(value) is Object && json_get(*final(value), key@) == Some(v)
            && (forall|k: Seq<char>|
            k != key@ ==> #[trigger] json_get(*final(value), k) == json_get(*old(value), k)),
        *old(value) is Object && object_keys(*old(value)).contains(key@) ==> object_keys(*final(value))
            == object_keys(*old(value)),
        *old(value) is Object && !object_keys(*old(value)).contains(key@) ==> object_keys(
            *final(value),
        ) == object_keys(*old(value)).push(key@),
        !(*old(value) is Object) ==> *final(value) == *old(value),
{
    let mut taken = JsonValue::Null;
    std::mem::swap(&mut taken, value);
    match taken {
        JsonValue::Object(mut members) => {
            insert_member(&mut members, key, v);
            *value = JsonValue::Object(members);
        },
        other => {
            *value = other;
        },
    }
}

/// The JSON number `n`.
pub fn count_value(n: usize) -> (v: JsonValue)
    ensures
        is_count(v, n as nat),
{
    let mut s = String::new();
    push_count(&mut s, n);
    proof {
        assert(s@ =~= nat_decimal(n as nat));
    }
    JsonValue::Number(s)
}

/// The members of a JSON object (empty for other values).
pub open spec fn members_of(v: JsonValue) -> Seq<JsonMember> {
    match v {
        JsonValue::Object(m) => m@,
        _ => Seq::empty(),
    }
}

/// The items of a JSON array (empty for other values).
pub open spec fn items_of(v: JsonValue) -> Seq<JsonValue> {
    match v {
        JsonValue::Array(items) => items@,
        _ => Seq::empty(),
    }
}


/// The value under `key` is the one of the first member with that key.
pub proof fn lemma_member_value_first(members: Seq<JsonMember>, i: int, key: Seq<char>)
    requires
        0 <= i < members.len(),
        members[i].key@ == key,
        forall|w: int| 0 <= w < i ==> (#[trigger] members[w]).key@ != key,
    ensures
        member_value(members, key) == Some(members[i].value),
    decreases i,
{
    if i > 0 {
        assert forall|w: int| 0 <= w < i - 1 implies (#[trigger] members.drop_first()[w]).key@ != key by {
            assert(members.drop_first()[w] == members[w + 1]);
        }
        lemma_member_value_first(members.drop_first(), i - 1, key);
    }
}

/// No member with `key` means no value under `key`.
pub proof fn lemma_member_value_absent(members: Seq<JsonMember>, key: Seq<char>)
    requires
        forall|w: int| 0 <= w < members.len() ==> (#[trigger] members[w]).key@ != key,
    ensures
        member_value(members, key) is None,
    decreases members.len(),
{
    if members.len() > 0 {
        assert forall|w: int| 0 <= w < members.len() - 1 implies (#[trigger] members.drop_first()[w]).key@ != key by {
            assert(members.drop_first()[w] == members[w + 1]);
        }
        lemma_member_value_absent(members.drop_first(), key);
    }
}

// ---------------------------------------------------------------------------
// Integers written as JSON numbers
// ---------------------------------------------------------------------------

/// Whether `c` is a decimal digit.
pub open spec fn is_digit(c: char) -> bool {
    '0' as int <= c as int <= '9' as int
}

/// The value of the decimal digits `s`, most significant first.
pub open spec fn digits_value(s: Seq<char>) -> nat
    decreases s.len(),
{
    if s.len() == 0 {
        0
    } else {
        digits_value(s.drop_last()) * 10 + (s.last() as int - '0' as int) as nat
    }
}

/// Whether `s` is a non-empty run of digits without a leading zero.
pub open spec fn canonical_digits(s: Seq<char>) -> bool {
    &&& s.len() > 0
    &&& forall|i: int| 0 <= i < s.len() ==> is_digit(#[trigger] s[i])
    &&& (s.len() == 1 || s[0] != '0')
}

/// The integer the text of a JSON number denotes, when it is written as an
/// integer (no fraction or exponent, and not `-0`).
pub open spec fn integer_of_number_text(s: Seq<char>) -> Option<int> {
    if s.len() > 0 && s[0] == '-' {
        let rest = s.subrange(1, s.len() as int);
        if canonical_digits(rest) && digits_value(rest) > 0 {
            Some(-(digits_value(rest) as int))
        } else {
            None
        }
    } else if canonical_digits(s) {
        Some(digits_value(s) as int)
    } else {
        None
    }
}

/// The value of a JSON number as an `i64`, when it is an integer in range.
pub open spec fn number_as_i64(v: JsonValue) -> Option<i64> {
    match v {
        JsonValue::Number(t) => match integer_of_number_text(t@) {
            Some(n) => if i64::MIN <= n <= i64::MAX {
                Some(n as i64)
            } else {
                None
            },
            None => None,
        },
        _ => None,
    }
}

proof fn lemma_digits_step(s: Seq<char>, i: int)
    requires
        0 <= i < s.len(),
    ensures
        digits_value(s.subrange(0, i + 1)) == digits_value(s.subrange(0, i)) * 10 + (s[i] as int - '0' as int) as nat,
{
    assert(s.subrange(0, i + 1).drop_last() =~= s.subrange(0, i));
}

fn digit_of(c: char) -> (r: Option<u64>)
    ensures
        r is Some <==> is_digit(c),
        r matches Some(d) ==> d == c as int - '0' as int,
{
    match c {
        '0' => Some(0),
        '1' => Some(1),
        '2' => Some(2),
        '3' => Some(3),
        '4' => Some(4),
        '5' => Some(5),
        '6' => Some(6),
        '7' => Some(7),
        '8' => Some(8),
        '9' => Some(9),
        _ => None,
    }
}

/// The value of a JSON number as an `i64`, when it is an integer in range.
pub fn as_i64(v: &JsonValue) -> (r: Option<i64>)
    ensures
        r == number_as_i64(*v),
{
    let text = match v {
        JsonValue::Number(t) => t,
        _ => {
            return None;
        },
    };
    let chars = crate::text::chars_of(text.as_str());
    let n = chars.len();
    if n == 0 {
        return None;
    }
    let negative = chars[0] == '-';
    let start: usize = if negative { 1 } else { 0 };
    let ghost digits = chars@.subrange(start as int, n as int);
    proof {
        if !negative {
            assert(digits =~= chars@);
        }
    }
    if start == n {
        return None;
    }
    if chars[start] == '0' && n - start > 1 {
        assert(!canonical_digits(digits));
        return None;
    }
    let limit: u64 = 9223372036854775808;
    let mut acc: u64 = 0;
    let mut big = false;
    let mut i: usize = start;
    while i < n
        invariant
            start <= i <= n,
            n == chars@.len(),
            digits == chars@.subrange(start as int, n as int),
            limit == 9223372036854775808,
            text@ == chars@,
            *v == JsonValue::Number(*text),
            negative == (chars@[0] == '-'),
            start == (if negative { 1usize } else { 0usize }),
            !negative ==> digits == chars@,
            forall|k: int| 0 <= k < i - start ==> is_digit(#[trigger] digits[k]),
            !big ==> acc == digits_value(digits.subrange(0, i - start)) && acc <= limit,
            big ==> digits_value(digits.subrange(0, i - start)) > limit,
        decreases n - i,
    {
        let d = match digit_of(chars[i]) {
            Some(d) => d,
            None => {
                assert(!is_digit(digits[i - start]));
                assert(!canonical_digits(digits));
                return None;
            },
        };
        proof {
            lemma_digits_step(digits, i - start);
            assert(digits[i - start] == chars@[i as int]);
        }
        if !big {
            if acc > (limit - d) / 10 {
                assert(acc * 10 + d > limit) by (nonlinear_arith)
                    requires
                        acc > (limit - d) / 10,
                        d <= 9,
                        limit == 9223372036854775808,
                ;
                big = true;
            } else {
                assert(acc * 10 + d <= limit) by (nonlinear_arith)
                    requires
                        acc <= (limit - d) / 10,
                        d <= 9,
                        limit == 9223372036854775808,
                ;
                acc = acc * 10 + d;
            }
        } else {
            assert(digits_value(digits.subrange(0, i - start)) * 10 + d > limit) by (nonlinear_arith)
                requires
                    digits_value(digits.subrange(0, i - start)) > limit,
                    d <= 9,
            ;
        }
        i += 1;
    }
    proof {
        assert(digits.subrange(0, n - start) =~= digits);
        assert(canonical_digits(digits));
        if !negative {
            assert(digits =~= chars@);
        }
    }
    if big {
        return None;
    }
    if negative {
        if acc == 0 {
            None
        } else if acc == limit {
            Some(i64::MIN)
        } else {
            Some(-(acc as i64))
        }
    } else if acc > 9223372036854775807 {
        None
    } else {
        Some(acc as i64)
    }
}
} // verus!
