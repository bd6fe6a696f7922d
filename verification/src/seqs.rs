//! Sequence functions used by the contracts: first match, filtering, counting.
use vstd::prelude::*;

verus! {

/// Index of the first element of `s` that satisfies `p`, or `s.len()` when none does.
pub open spec fn first_index<T>(s: Seq<T>, p: spec_fn(T) -> bool) -> int
    decreases s.len(),
{
    if s.len() == 0 {
        0
    } else if p(s[0]) {
        0
    } else {
        1 + first_index(s.drop_first(), p)
    }
}

/// Whether some element of `s` satisfies `p`.
pub open spec fn any_where<T>(s: Seq<T>, p: spec_fn(T) -> bool) -> bool {
    exists|i: int| 0 <= i < s.len() && #[trigger] p(s[i])
}

/// The elements of `s` that satisfy `p`, in order.
pub open spec fn keep<T>(s: Seq<T>, p: spec_fn(T) -> bool) -> Seq<T>
    decreases s.len(),
{
    if s.len() == 0 {
        Seq::empty()
    } else if p(s.last()) {
        keep(s.drop_last(), p).push(s.last())
    } else {
        keep(s.drop_last(), p)
    }
}

/// The number of elements of `s` that satisfy `p`.
pub open spec fn count_where<T>(s: Seq<T>, p: spec_fn(T) -> bool) -> nat
    decreases s.len(),
{
    if s.len() == 0 {
        0
    } else if p(s.last()) {
        count_where(s.drop_last(), p) + 1
    } else {
        count_where(s.drop_last(), p)
    }
}

/// `first_index` is the least index whose element satisfies `p`.
pub proof fn lemma_first_index_is<T>(s: Seq<T>, p: spec_fn(T) -> bool, i: int)
    requires
        0 <= i <= s.len(),
        forall|k: int| 0 <= k < i ==> !p(#[trigger] s[k]),
        i == s.len() || p(s[i]),
    ensures
        first_index(s, p) == i,
    decreases i,
{
    if i > 0 {
        let t = s.drop_first();
        assert forall|k: int| 0 <= k < i - 1 implies !p(#[trigger] t[k]) by {
            assert(t[k] == s[k + 1]);
        }
        if i - 1 < t.len() {
            assert(t[i - 1] == s[i]);
        }
        assert(!p(s[0]));
        lemma_first_index_is(t, p, i - 1);
    }
}

/// `first_index` lies in `[0, s.len()]`, every element before it fails `p`,
/// and the element at it, if any, satisfies `p`.
pub proof fn lemma_first_index_props<T>(s: Seq<T>, p: spec_fn(T) -> bool)
    ensures
        0 <= first_index(s, p) <= s.len(),
        forall|k: int| 0 <= k < first_index(s, p) ==> !p(#[trigger] s[k]),
        first_index(s, p) < s.len() ==> p(s[first_index(s, p)]),
        first_index(s, p) == s.len() <==> !any_where(s, p),
    decreases s.len(),
{
    if s.len() > 0 && !p(s[0]) {
        let t = s.drop_first();
        lemma_first_index_props(t, p);
        assert forall|k: int| 0 <= k < first_index(s, p) implies !p(#[trigger] s[k]) by {
            if k > 0 {
                assert(s[k] == t[k - 1]);
            }
        }
        if first_index(s, p) < s.len() {
            assert(s[first_index(s, p)] == t[first_index(t, p)]);
        }
        if any_where(s, p) {
            let w = choose|w: int| 0 <= w < s.len() && #[trigger] p(s[w]);
            assert(t[w - 1] == s[w]);
        }
        if any_where(t, p) {
            let w = choose|w: int| 0 <= w < t.len() && #[trigger] p(t[w]);
            assert(t[w] == s[w + 1]);
        }
    } else if s.len() > 0 {
        assert(p(s[0]));
    }
}

/// One step of a forward filtering loop.
pub proof fn lemma_keep_step<T>(s: Seq<T>, p: spec_fn(T) -> bool, i: int)
    requires
        0 <= i < s.len(),
    ensures
        keep(s.take(i + 1), p) == if p(s[i]) {
            keep(s.take(i), p).push(s[i])
        } else {
            keep(s.take(i), p)
        },
{
    assert(s.take(i + 1).drop_last() =~= s.take(i));
    assert(s.take(i + 1).last() == s[i]);
}

/// One step of a forward counting loop.
pub proof fn lemma_count_step<T>(s: Seq<T>, p: spec_fn(T) -> bool, i: int)
    requires
        0 <= i < s.len(),
    ensures
        count_where(s.take(i + 1), p) == if p(s[i]) {
            count_where(s.take(i), p) + 1
        } else {
            count_where(s.take(i), p)
        },
{
    assert(s.take(i + 1).drop_last() =~= s.take(i));
    assert(s.take(i + 1).last() == s[i]);
}

/// Every element kept by `keep` satisfies `p`, and `keep` is no longer than `s`.
pub proof fn lemma_keep_props<T>(s: Seq<T>, p: spec_fn(T) -> bool)
    ensures
        keep(s, p).len() <= s.len(),
        forall|k: int| 0 <= k < keep(s, p).len() ==> p(#[trigger] keep(s, p)[k]),
        forall|k: int| 0 <= k < s.len() && p(#[trigger] s[k]) ==> keep(s, p).contains(s[k]),
        forall|x: T| #[trigger] keep(s, p).contains(x) ==> s.contains(x),
    decreases s.len(),
{
    if s.len() > 0 {
        let t = s.drop_last();
        lemma_keep_props(t, p);
        assert forall|k: int| 0 <= k < s.len() && p(#[trigger] s[k]) implies keep(s, p).contains(
            s[k],
        ) by {
            if k < s.len() - 1 {
                assert(t[k] == s[k]);
                assert(keep(t, p).contains(t[k]));
                if p(s.last()) {
                    let j = choose|j: int| 0 <= j < keep(t, p).len() && keep(t, p)[j] == t[k];
                    assert(keep(s, p)[j] == t[k]);
                }
            } else {
                assert(keep(s, p).last() == s.last());
            }
        }
        assert forall|x: T| #[trigger] keep(s, p).contains(x) implies s.contains(x) by {
            let j = choose|j: int| 0 <= j < keep(s, p).len() && keep(s, p)[j] == x;
            if p(s.last()) && j == keep(s, p).len() - 1 {
                assert(s[s.len() - 1] == x);
            } else {
                assert(keep(t, p)[j] == x);
                assert(keep(t, p).contains(x));
                let w = choose|w: int| 0 <= w < t.len() && t[w] == x;
                assert(s[w] == x);
            }
        }
    }
}


/// Keeping the elements that satisfy `p` a second time changes nothing.
pub proof fn lemma_keep_idempotent<T>(s: Seq<T>, p: spec_fn(T) -> bool)
    ensures
        keep(keep(s, p), p) == keep(s, p),
    decreases s.len(),
{
    if s.len() > 0 {
        let t = s.drop_last();
        lemma_keep_idempotent(t, p);
        if p(s.last()) {
            let k = keep(t, p).push(s.last());
            assert(k.drop_last() =~= keep(t, p));
            assert(k.last() == s.last());
        }
    }
}

/// Appending an element that `p` drops leaves `keep` unchanged.
pub proof fn lemma_keep_push_dropped<T>(s: Seq<T>, p: spec_fn(T) -> bool, x: T)
    requires
        !p(x),
    ensures
        keep(s.push(x), p) == keep(s, p),
{
    assert(s.push(x).drop_last() =~= s);
}

/// Replacing an element that `p` drops by another that `p` drops leaves
/// `keep` unchanged.
pub proof fn lemma_keep_update_dropped<T>(s: Seq<T>, p: spec_fn(T) -> bool, j: int, x: T)
    requires
        0 <= j < s.len(),
        !p(s[j]),
        !p(x),
    ensures
        keep(s.update(j, x), p) == keep(s, p),
    decreases s.len(),
{
    let u = s.update(j, x);
    if j == s.len() - 1 {
        assert(u.drop_last() =~= s.drop_last());
    } else {
        assert(u.drop_last() =~= s.drop_last().update(j, x));
        assert(u.last() == s.last());
        lemma_keep_update_dropped(s.drop_last(), p, j, x);
    }
}

/// No element of `s` satisfies `p`: the count is zero.
pub proof fn lemma_count_none<T>(s: Seq<T>, p: spec_fn(T) -> bool)
    requires
        forall|k: int| 0 <= k < s.len() ==> !p(#[trigger] s[k]),
    ensures
        count_where(s, p) == 0,
    decreases s.len(),
{
    if s.len() > 0 {
        assert(!p(s[s.len() - 1]));
        let t = s.drop_last();
        assert forall|k: int| 0 <= k < t.len() implies !p(#[trigger] t[k]) by {
            assert(t[k] == s[k]);
        }
        lemma_count_none(t, p);
    }
}

/// Sum of `f` over the elements of `s`.
pub open spec fn sum_of<T>(s: Seq<T>, f: spec_fn(T) -> int) -> int
    decreases s.len(),
{
    if s.len() == 0 {
        0
    } else {
        sum_of(s.drop_last(), f) + f(s.last())
    }
}

pub proof fn lemma_sum_of_insert<T>(s: Seq<T>, f: spec_fn(T) -> int, i: int, x: T)
    requires
        0 <= i <= s.len(),
    ensures
        sum_of(s.insert(i, x), f) == sum_of(s, f) + f(x),
    decreases s.len(),
{
    if i == s.len() {
        assert(s.insert(i, x).drop_last() =~= s);
    } else {
        assert(s.insert(i, x).drop_last() =~= s.drop_last().insert(i, x));
        assert(s.insert(i, x).last() == s.last());
        lemma_sum_of_insert(s.drop_last(), f, i, x);
    }
}

pub proof fn lemma_sum_of_update<T>(s: Seq<T>, f: spec_fn(T) -> int, i: int, x: T)
    requires
        0 <= i < s.len(),
    ensures
        sum_of(s.update(i, x), f) == sum_of(s, f) - f(s[i]) + f(x),
    decreases s.len(),
{
    if i == s.len() - 1 {
        assert(s.update(i, x).drop_last() =~= s.drop_last());
    } else {
        assert(s.update(i, x).drop_last() =~= s.drop_last().update(i, x));
        lemma_sum_of_update(s.drop_last(), f, i, x);
    }
}

pub proof fn lemma_sum_of_append<T>(a: Seq<T>, b: Seq<T>, f: spec_fn(T) -> int)
    ensures
        sum_of(a + b, f) == sum_of(a, f) + sum_of(b, f),
    decreases b.len(),
{
    if b.len() == 0 {
        assert(a + b =~= a);
    } else {
        assert((a + b).drop_last() =~= a + b.drop_last());
        lemma_sum_of_append(a, b.drop_last(), f);
    }
}

pub proof fn lemma_sum_of_take_step<T>(s: Seq<T>, f: spec_fn(T) -> int, k: int)
    requires
        0 <= k < s.len(),
    ensures
        sum_of(s.take(k + 1), f) == sum_of(s.take(k), f) + f(s[k]),
{
    assert(s.take(k + 1).drop_last() =~= s.take(k));
}

/// With a non-negative `f`, the sum over a prefix is at most the sum over the whole.
pub proof fn lemma_sum_of_prefix_le<T>(s: Seq<T>, f: spec_fn(T) -> int, k: int)
    requires
        0 <= k <= s.len(),
        forall|x: T| #[trigger] f(x) >= 0,
    ensures
        0 <= sum_of(s.take(k), f) <= sum_of(s, f),
    decreases s.len() - k,
{
    if k < s.len() {
        lemma_sum_of_take_step(s, f, k);
        lemma_sum_of_prefix_le(s, f, k + 1);
        assert(f(s[k]) >= 0);
        lemma_sum_of_nonneg(s.take(k), f);
    } else {
        assert(s.take(k) =~= s);
        lemma_sum_of_nonneg(s, f);
    }
}

pub proof fn lemma_sum_of_nonneg<T>(s: Seq<T>, f: spec_fn(T) -> int)
    requires
        forall|x: T| #[trigger] f(x) >= 0,
    ensures
        sum_of(s, f) >= 0,
    decreases s.len(),
{
    if s.len() > 0 {
        lemma_sum_of_nonneg(s.drop_last(), f);
    }
}

/// `|sum of f|` is at most the sum of `|f|`.
pub proof fn lemma_sum_of_abs_bound<T>(s: Seq<T>, f: spec_fn(T) -> int, g: spec_fn(T) -> int)
    requires
        forall|x: T| #[trigger] g(x) == if f(x) < 0 { -f(x) } else { f(x) },
    ensures
        -sum_of(s, g) <= sum_of(s, f) <= sum_of(s, g),
    decreases s.len(),
{
    if s.len() > 0 {
        lemma_sum_of_abs_bound(s.drop_last(), f, g);
        assert(g(s.last()) == if f(s.last()) < 0 { -f(s.last()) } else { f(s.last()) });
    }
}


/// Keeps the elements of `v` on which `keep_elem` answers true, in order.
pub fn retain_where<T, F: Fn(&T) -> bool>(v: &mut Vec<T>, keep_elem: F, Ghost(p): Ghost<spec_fn(T) -> bool>)
    requires
        forall|x: &T| #[trigger] keep_elem.requires((x,)),
        forall|x: &T, b: bool| keep_elem.ensures((x,), b) ==> b == p(*x),
    ensures
        final(v)@ == keep(old(v)@, p),
{
    let ghost orig = v@;
    let mut rest: Vec<T> = Vec::new();
    std::mem::swap(&mut rest, v);
    let ghost mut i: int = 0;
    proof {
        assert(orig.take(0) =~= Seq::<T>::empty());
        assert(rest@ =~= orig.skip(0));
    }
    while rest.len() > 0
        invariant
            0 <= i <= orig.len(),
            rest@ == orig.skip(i),
            v@ == keep(orig.take(i), p),
            forall|x: &T| #[trigger] keep_elem.requires((x,)),
            forall|x: &T, b: bool| keep_elem.ensures((x,), b) ==> b == p(*x),
        decreases rest@.len(),
    {
        let ghost prev = rest@;
        let x = rest.remove(0);
        proof {
            assert(prev[0] == orig[i]);
            assert(rest@ =~= orig.skip(i + 1));
            lemma_keep_step(orig, p, i);
        }
        let k = keep_elem(&x);
        if k {
            v.push(x);
        }
        proof {
            i = i + 1;
        }
    }
    proof {
        assert(orig.take(i) =~= orig);
    }
}

} // verus!
