//! Sequences kept sorted by a text key with no key twice: sorted string sets
//! and finalization records keyed by student.
use vstd::prelude::*;
use crate::models::ResultFinalizationRecord;
use crate::seqs::{first_index, lemma_first_index_is};
use crate::text::{
    lemma_text_lt_asymmetric, lemma_text_lt_irreflexive, lemma_text_lt_total,
    lemma_text_lt_transitive, text_less, text_lt,
};

verus! {

/// Each key sorts strictly before the next: the keys are sorted and distinct.
pub open spec fn strictly_sorted(keys: Seq<Seq<char>>) -> bool {
    forall|i: int, j: int| 0 <= i < j < keys.len() ==> text_lt(#[trigger] keys[i], #[trigger] keys[j])
}

/// The texts of `v`.
pub open spec fn texts(v: Seq<String>) -> Seq<Seq<char>> {
    v.map_values(|s: String| s@)
}

/// The students of finalization records.
pub open spec fn record_keys(v: Seq<ResultFinalizationRecord>) -> Seq<Seq<char>> {
    v.map_values(|r: ResultFinalizationRecord| r.student_ref@)
}

/// Records of student `k`.
pub open spec fn record_has_key(k: Seq<char>) -> spec_fn(ResultFinalizationRecord) -> bool {
    |r: ResultFinalizationRecord| r.student_ref@ == k
}

/// The record of student `k` in `v` (the first one; in a strictly sorted
/// sequence the only one).
pub open spec fn record_for(v: Seq<ResultFinalizationRecord>, k: Seq<char>) -> Option<ResultFinalizationRecord> {
    let i = first_index(v, record_has_key(k));
    if i < v.len() {
        Some(v[i])
    } else {
        None
    }
}

/// Inserting `x` where every earlier key sorts before it and the next key
/// sorts after it keeps the keys strictly sorted.
pub proof fn lemma_insert_keeps_sorted(keys: Seq<Seq<char>>, p: int, x: Seq<char>)
    requires
        strictly_sorted(keys),
        0 <= p <= keys.len(),
        forall|k: int| 0 <= k < p ==> text_lt(#[trigger] keys[k], x),
        p < keys.len() ==> text_lt(x, keys[p]),
    ensures
        strictly_sorted(keys.insert(p, x)),
{
    let n = keys.insert(p, x);
    assert forall|i: int, j: int| 0 <= i < j < n.len() implies text_lt(#[trigger] n[i], #[trigger] n[j]) by {
        if j < p {
            assert(n[i] == keys[i] && n[j] == keys[j]);
        } else if j == p {
            assert(n[i] == keys[i]);
        } else if i < p {
            assert(n[i] == keys[i] && n[j] == keys[j - 1]);
            assert(text_lt(keys[i], x));
            assert(text_lt(x, keys[p]));
            lemma_text_lt_transitive(keys[i], x, keys[p]);
            if p < j - 1 {
                lemma_text_lt_transitive(keys[i], keys[p], keys[j - 1]);
            }
        } else if i == p {
            assert(n[j] == keys[j - 1]);
            if p < j - 1 {
                lemma_text_lt_transitive(x, keys[p], keys[j - 1]);
            }
        } else {
            assert(n[i] == keys[i - 1] && n[j] == keys[j - 1]);
        }
    }
}

/// In a strictly sorted sequence a key occurs at one index only.
pub proof fn lemma_sorted_unique(keys: Seq<Seq<char>>, i: int, j: int)
    requires
        strictly_sorted(keys),
        0 <= i < keys.len(),
        0 <= j < keys.len(),
        keys[i] == keys[j],
    ensures
        i == j,
{
    if i < j {
        lemma_text_lt_irreflexive(keys[i]);
    } else if j < i {
        lemma_text_lt_irreflexive(keys[j]);
    }
}

/// The index of the first text in `v` that does not sort before `x`.
fn text_position(v: &Vec<String>, x: &str) -> (p: usize)
    ensures
        p <= v@.len(),
        forall|k: int| 0 <= k < p ==> text_lt(#[trigger] texts(v@)[k], x@),
        p < v@.len() ==> !text_lt(texts(v@)[p as int], x@),
{
    let mut i: usize = 0;
    while i < v.len() && text_less(v[i].as_str(), x)
        invariant
            i <= v@.len(),
            forall|k: int| 0 <= k < i ==> text_lt(#[trigger] texts(v@)[k], x@),
        decreases v@.len() - i,
    {
        i += 1;
    }
    i
}

/// Adds `x` to a strictly sorted list of texts, unless it is already there.
pub fn insert_sorted_text(v: &mut Vec<String>, x: String)
    requires
        strictly_sorted(texts(old(v)@)),
    ensures
        strictly_sorted(texts(final(v)@)),
        forall|y: Seq<char>| #[trigger] texts(final(v)@).contains(y) <==> (texts(old(v)@).contains(y) || y == x@),
{
    let p = text_position(v, x.as_str());
    let ghost keys = texts(v@);
    if p < v.len() && crate::text::text_eq(v[p].as_str(), x.as_str()) {
        proof {
            assert forall|y: Seq<char>| #[trigger] texts(v@).contains(y) <==> (keys.contains(y) || y == x@) by {
                if y == x@ {
                    assert(keys[p as int] == y);
                }
            }
        }
        return ;
    }
    proof {
        if p < keys.len() {
            lemma_text_lt_total(keys[p as int], x@);
        }
        lemma_insert_keeps_sorted(keys, p as int, x@);
    }
    let ghost xv = x@;
    v.insert(p, x);
    proof {
        assert(texts(v@) =~= keys.insert(p as int, xv));
        assert forall|y: Seq<char>| #[trigger] texts(v@).contains(y) <==> (keys.contains(y) || y == xv) by {
            let n = texts(v@);
            if n.contains(y) {
                let w = choose|w: int| 0 <= w < n.len() && n[w] == y;
                if w < p {
                    assert(keys[w] == y);
                } else if w > p {
                    assert(keys[w - 1] == y);
                }
            }
            if keys.contains(y) {
                let w = choose|w: int| 0 <= w < keys.len() && keys[w] == y;
                if w < p {
                    assert(n[w] == y);
                } else {
                    assert(n[w + 1] == y);
                }
            }
            if y == xv {
                assert(n[p as int] == y);
            }
        }
    }
}

/// The index of the first record whose student does not sort before `key`.
fn record_position(v: &Vec<ResultFinalizationRecord>, key: &str) -> (p: usize)
    ensures
        p <= v@.len(),
        forall|k: int| 0 <= k < p ==> text_lt(#[trigger] record_keys(v@)[k], key@),
        p < v@.len() ==> !text_lt(record_keys(v@)[p as int], key@),
{
    let mut i: usize = 0;
    while i < v.len() && text_less(v[i].student_ref.as_str(), key)
        invariant
            i <= v@.len(),
            forall|k: int| 0 <= k < i ==> text_lt(#[trigger] record_keys(v@)[k], key@),
        decreases v@.len() - i,
    {
        i += 1;
    }
    i
}

/// In records strictly sorted by student, the record of `k` is the one at
/// the index holding `k`.
pub proof fn lemma_record_for_at(v: Seq<ResultFinalizationRecord>, i: int)
    requires
        strictly_sorted(record_keys(v)),
        0 <= i < v.len(),
    ensures
        record_for(v, v[i].student_ref@) == Some(v[i]),
{
    let k = v[i].student_ref@;
    assert forall|w: int| 0 <= w < i implies !record_has_key(k)(#[trigger] v[w]) by {
        if v[w].student_ref@ == k {
            assert(record_keys(v)[w] == record_keys(v)[i]);
            lemma_sorted_unique(record_keys(v), w, i);
        }
    }
    lemma_first_index_is(v, record_has_key(k), i);
}

/// In records strictly sorted by student, a student that no record holds has no record.
pub proof fn lemma_record_for_absent(v: Seq<ResultFinalizationRecord>, k: Seq<char>)
    requires
        forall|w: int| 0 <= w < v.len() ==> (#[trigger] v[w]).student_ref@ != k,
    ensures
        record_for(v, k) is None,
{
    lemma_first_index_is(v, record_has_key(k), v.len() as int);
}

/// Puts `rec` into records strictly sorted by student: it replaces the record
/// of its student, or is inserted in order.
pub fn upsert_sorted_record(v: &mut Vec<ResultFinalizationRecord>, rec: ResultFinalizationRecord)
    requires
        strictly_sorted(record_keys(old(v)@)),
    ensures
        strictly_sorted(record_keys(final(v)@)),
        forall|k: Seq<char>|
            #[trigger] record_for(final(v)@, k) == if k == rec.student_ref@ {
                Some(rec)
            } else {
                record_for(old(v)@, k)
            },
{
    let ghost old_v = v@;
    let ghost keys = record_keys(v@);
    let ghost key = rec.student_ref@;
    let p = record_position(v, rec.student_ref.as_str());
    if p < v.len() && crate::text::text_eq(v[p].student_ref.as_str(), rec.student_ref.as_str()) {
        let _replaced = v.remove(p);
        v.insert(p, rec);
        proof {
            assert(v@ =~= old_v.update(p as int, rec));
            assert(record_keys(v@) =~= keys);
            assert forall|k: Seq<char>|
                #[trigger] record_for(v@, k) == if k == key {
                    Some(v@[p as int])
                } else {
                    record_for(old_v, k)
                } by {
                if k == key {
                    lemma_record_for_at(v@, p as int);
                } else {
                    let i = first_index(old_v, record_has_key(k));
                    crate::seqs::lemma_first_index_props(old_v, record_has_key(k));
                    if i < old_v.len() {
                        lemma_record_for_at(old_v, i);
                        assert(i != p);
                        assert(v@[i] == old_v[i]);
                        lemma_record_for_at(v@, i);
                    } else {
                        assert forall|w: int| 0 <= w < v@.len() implies (#[trigger] v@[w]).student_ref@ != k by {
                            if w != p {
                                assert(v@[w] == old_v[w]);
                                if old_v[w].student_ref@ == k {
                                    lemma_record_for_at(old_v, w);
                                }
                            }
                        }
                        lemma_record_for_absent(v@, k);
                    }
                }
            }
        }
        return ;
    }
    proof {
        if p < keys.len() {
            lemma_text_lt_total(keys[p as int], key);
        }
        lemma_insert_keeps_sorted(keys, p as int, key);
    }
    let ghost recg = rec;
    v.insert(p, rec);
    proof {
        assert(record_keys(v@) =~= keys.insert(p as int, key));
        assert forall|k: Seq<char>|
            #[trigger] record_for(v@, k) == if k == key {
                Some(recg)
            } else {
                record_for(old_v, k)
            } by {
            if k == key {
                lemma_record_for_at(v@, p as int);
            } else {
                let i = first_index(old_v, record_has_key(k));
                crate::seqs::lemma_first_index_props(old_v, record_has_key(k));
                if i < old_v.len() {
                    lemma_record_for_at(old_v, i);
                    let ni = if i < p { i } else { i + 1 };
                    assert(v@[ni] == old_v[i]);
                    lemma_record_for_at(v@, ni);
                } else {
                    assert forall|w: int| 0 <= w < v@.len() implies (#[trigger] v@[w]).student_ref@ != k by {
                        if w < p {
                            assert(v@[w] == old_v[w]);
                            if old_v[w].student_ref@ == k {
                                lemma_record_for_at(old_v, w);
                            }
                        } else if w > p {
                            assert(v@[w] == old_v[w - 1]);
                            if old_v[w - 1].student_ref@ == k {
                                lemma_record_for_at(old_v, w - 1);
                            }
                        }
                    }
                    lemma_record_for_absent(v@, k);
                }
            }
        }
    }
}


/// The keys of `entries`.
pub open spec fn entry_keys<T>(entries: Seq<(String, T)>) -> Seq<Seq<char>> {
    entries.map_values(|e: (String, T)| e.0@)
}

/// The distinct keys of a keyed list, in ascending order.
pub fn sorted_keys<T>(entries: &Vec<(String, T)>) -> (r: Vec<String>)
    ensures
        strictly_sorted(texts(r@)),
        forall|y: Seq<char>| #[trigger] texts(r@).contains(y) <==> entry_keys(entries@).contains(y),
{
    let mut out: Vec<String> = Vec::new();
    let mut i: usize = 0;
    while i < entries.len()
        invariant
            i <= entries@.len(),
            strictly_sorted(texts(out@)),
            forall|y: Seq<char>| #[trigger] texts(out@).contains(y) <==> entry_keys(entries@.take(i as int)).contains(y),
        decreases entries@.len() - i,
    {
        let ghost before = out@;
        let ghost k = entries@[i as int].0@;
        insert_sorted_text(&mut out, entries[i].0.clone());
        proof {
            let prefix = entry_keys(entries@.take(i + 1));
            let earlier = entry_keys(entries@.take(i as int));
            assert(prefix =~= earlier.push(k));
            assert forall|y: Seq<char>| #[trigger] texts(out@).contains(y) <==> prefix.contains(y) by {
                if y == k {
                    assert(prefix[i as int] == y);
                }
                if prefix.contains(y) && y != k {
                    let w = choose|w: int| 0 <= w < prefix.len() && prefix[w] == y;
                    assert(earlier[w] == y);
                }
                if earlier.contains(y) {
                    let w = choose|w: int| 0 <= w < earlier.len() && earlier[w] == y;
                    assert(prefix[w] == y);
                }
            }
        }
        i += 1;
    }
    proof {
        assert(entries@.take(entries@.len() as int) =~= entries@);
    }
    out
}

} // verus!
