//! Views of the standard containers that the models are built from, and what
//! the stores need to know of sequences: first matches, filters, distinct keys.

use vstd::prelude::*;

verus! {

/// The view of an optional string: the characters, where there is a string.
pub open spec fn opt_text(o: Option<String>) -> Option<Seq<char>> {
    match o {
        Some(s) => Some(s@),
        None => None,
    }
}

/// The views of the elements of `s`, in order.
pub open spec fn views_of<T: View>(s: Seq<T>) -> Seq<T::V> {
    Seq::new(s.len(), |i: int| s[i]@)
}

/// The view of an optional value.
pub open spec fn opt_view<T: View>(o: Option<T>) -> Option<T::V> {
    match o {
        Some(x) => Some(x@),
        None => None,
    }
}

/// The first element of `s` that meets `p`, where there is one.
pub open spec fn first_or_none<A>(s: Seq<A>, p: spec_fn(A) -> bool) -> Option<A> {
    if has_match(s, p) {
        Some(s[first_match(s, p)])
    } else {
        None
    }
}

/// A copy of an optional string.
pub fn clone_opt_string(o: &Option<String>) -> (copy: Option<String>)
    ensures
        opt_text(copy) == opt_text(*o),
{
    match o {
        Some(s) => Some(s.clone()),
        None => None,
    }
}

/// A copy of a list of strings.
pub fn clone_strings(v: &Vec<String>) -> (copy: Vec<String>)
    ensures
        views_of(copy@) == views_of(v@),
{
    let mut copy: Vec<String> = Vec::new();
    let mut i: usize = 0;
    while i < v.len()
        invariant
            i <= v.len(),
            copy.len() == i,
            forall|j: int| 0 <= j < i ==> copy[j]@ == v[j]@,
        decreases v.len() - i,
    {
        copy.push(v[i].clone());
        i = i + 1;
    }
    assert(views_of(copy@) =~= views_of(v@));
    copy
}

/// Whether `i` is the first position of `s` whose element meets `p`.
pub open spec fn is_first<A>(s: Seq<A>, p: spec_fn(A) -> bool, i: int) -> bool {
    &&& 0 <= i < s.len()
    &&& p(s[i])
    &&& forall|j: int| 0 <= j < i ==> !p(#[trigger] s[j])
}

/// Whether some element of `s` meets `p`.
pub open spec fn has_match<A>(s: Seq<A>, p: spec_fn(A) -> bool) -> bool {
    exists|i: int| 0 <= i < s.len() && p(#[trigger] s[i])
}

/// The first position of `s` whose element meets `p`, where there is one.
pub open spec fn first_match<A>(s: Seq<A>, p: spec_fn(A) -> bool) -> int {
    choose|i: int| is_first(s, p, i)
}

/// A first position is the one that `first_match` names.
pub proof fn lemma_first_match_is<A>(s: Seq<A>, p: spec_fn(A) -> bool, i: int)
    requires
        is_first(s, p, i),
    ensures
        has_match(s, p),
        first_match(s, p) == i,
{
    let k = first_match(s, p);
    assert(is_first(s, p, k));
    assert(p(s[i]));
    assert(p(s[k]));
}

proof fn lemma_first_up_to<A>(s: Seq<A>, p: spec_fn(A) -> bool, w: int) -> (f: int)
    requires
        0 <= w < s.len(),
        p(s[w]),
    ensures
        is_first(s, p, f),
    decreases w,
{
    if forall|j: int| 0 <= j < w ==> !p(#[trigger] s[j]) {
        w
    } else {
        let j = choose|j: int| 0 <= j < w && p(#[trigger] s[j]);
        lemma_first_up_to(s, p, j)
    }
}

/// Where some element meets `p`, `first_match` names the first that does.
pub proof fn lemma_first_match_exists<A>(s: Seq<A>, p: spec_fn(A) -> bool)
    requires
        has_match(s, p),
    ensures
        is_first(s, p, first_match(s, p)),
{
    let w = choose|i: int| 0 <= i < s.len() && p(#[trigger] s[i]);
    let f = lemma_first_up_to(s, p, w);
}

/// Filtering nothing leaves nothing.
pub proof fn lemma_filter_empty<A>(p: spec_fn(A) -> bool)
    ensures
        Seq::<A>::empty().filter(p) == Seq::<A>::empty(),
{
    reveal(Seq::filter);
}

/// Filtering one element more keeps that element exactly where the test holds of it.
pub proof fn lemma_filter_step<A>(s: Seq<A>, p: spec_fn(A) -> bool, i: int)
    requires
        0 <= i < s.len(),
    ensures
        s.take(i + 1).filter(p) == if p(s[i]) {
            s.take(i).filter(p).push(s[i])
        } else {
            s.take(i).filter(p)
        },
{
    reveal(Seq::filter);
    assert(s.take(i + 1).drop_last() =~= s.take(i));
    assert(s.take(i + 1).last() == s[i]);
}

/// How many elements of `s` meet `p`.
pub open spec fn occurrences<A>(s: Seq<A>, p: spec_fn(A) -> bool) -> nat {
    s.filter(p).len()
}

/// Where no element meets `p`, filtering by `p` leaves nothing.
pub proof fn lemma_filter_none<A>(s: Seq<A>, p: spec_fn(A) -> bool)
    requires
        !has_match(s, p),
    ensures
        s.filter(p) == Seq::<A>::empty(),
    decreases s.len(),
{
    reveal(Seq::filter);
    if s.len() > 0 {
        assert(!p(s[s.len() - 1]));
        assert forall|i: int| 0 <= i < s.drop_last().len() implies !p(
            #[trigger] s.drop_last()[i],
        ) by {
            assert(!p(s[i]));
        }
        lemma_filter_none(s.drop_last(), p);
    } else {
        assert(s =~= Seq::<A>::empty());
    }
}

/// Pushing an element adds one occurrence where it meets `p`, and none where
/// it does not.
pub proof fn lemma_occurrences_push<A>(s: Seq<A>, p: spec_fn(A) -> bool, x: A)
    ensures
        occurrences(s.push(x), p) == occurrences(s, p) + if p(x) {
            1nat
        } else {
            0nat
        },
{
    s.lemma_filter_push(x, p);
}

/// A prefix holds no more occurrences than the whole.
pub proof fn lemma_occurrences_prefix<A>(s: Seq<A>, p: spec_fn(A) -> bool, k: int)
    requires
        0 <= k <= s.len(),
    ensures
        occurrences(s.take(k), p) <= occurrences(s, p),
    decreases s.len(),
{
    reveal(Seq::filter);
    if k == s.len() {
        assert(s.take(k) =~= s);
    } else {
        assert(s.drop_last().take(k) =~= s.take(k));
        lemma_occurrences_prefix(s.drop_last(), p, k);
    }
}

/// Replacing an element by one that meets `p` just as it did leaves the
/// number of occurrences as it was.
pub proof fn lemma_occurrences_update<A>(s: Seq<A>, p: spec_fn(A) -> bool, i: int, x: A)
    requires
        0 <= i < s.len(),
        p(x) == p(s[i]),
    ensures
        occurrences(s.update(i, x), p) == occurrences(s, p),
    decreases s.len(),
{
    reveal(Seq::filter);
    let t = s.update(i, x);
    if i == s.len() - 1 {
        assert(t.drop_last() =~= s.drop_last());
    } else {
        assert(t.drop_last() =~= s.drop_last().update(i, x));
        lemma_occurrences_update(s.drop_last(), p, i, x);
    }
}

/// Every element that a filter keeps is an element of what was filtered, and
/// meets the test.
pub proof fn lemma_filter_keeps<A>(s: Seq<A>, p: spec_fn(A) -> bool, k: int) -> (i: int)
    requires
        0 <= k < s.filter(p).len(),
    ensures
        0 <= i < s.len(),
        s[i] == s.filter(p)[k],
        p(s[i]),
{
    s.lemma_filter_pred(p, k);
    let kept = s.filter(p);
    assert(kept.contains(kept[k]));
    s.lemma_filter_contains_rev(p, kept[k]);
    choose|i: int| 0 <= i < s.len() && s[i] == kept[k]
}

/// Whether no two elements of `s` have the same key.
pub open spec fn distinct_by<A, K>(s: Seq<A>, key: spec_fn(A) -> K) -> bool {
    forall|i: int, j: int|
        0 <= i < s.len() && 0 <= j < s.len() && i != j ==> key(#[trigger] s[i]) != key(
            #[trigger] s[j],
        )
}

/// A filter keeps the keys distinct.
pub proof fn lemma_filter_distinct<A, K>(s: Seq<A>, key: spec_fn(A) -> K, p: spec_fn(A) -> bool)
    requires
        distinct_by(s, key),
    ensures
        distinct_by(s.filter(p), key),
    decreases s.len(),
{
    reveal(Seq::filter);
    if s.len() > 0 {
        let rest = s.drop_last();
        assert forall|i: int, j: int|
            0 <= i < rest.len() && 0 <= j < rest.len() && i != j implies key(#[trigger] rest[i])
            != key(#[trigger] rest[j]) by {
            assert(rest[i] == s[i] && rest[j] == s[j]);
        }
        lemma_filter_distinct(rest, key, p);
        let kept = rest.filter(p);
        if p(s.last()) {
            let all = kept.push(s.last());
            assert forall|i: int, j: int|
                0 <= i < all.len() && 0 <= j < all.len() && i != j implies key(#[trigger] all[i])
                != key(#[trigger] all[j]) by {
                if i < kept.len() && j < kept.len() {
                    assert(all[i] == kept[i] && all[j] == kept[j]);
                } else if i < kept.len() {
                    let a = lemma_filter_keeps(rest, p, i);
                    assert(s[a] == rest[a]);
                    assert(all[i] == s[a] && all[j] == s[s.len() - 1]);
                } else {
                    let b = lemma_filter_keeps(rest, p, j);
                    assert(s[b] == rest[b]);
                    assert(all[j] == s[b] && all[i] == s[s.len() - 1]);
                }
            }
        }
    }
}

/// A filter leaves no more occurrences than there were.
pub proof fn lemma_occurrences_filter<A>(s: Seq<A>, keep: spec_fn(A) -> bool, p: spec_fn(A) -> bool)
    ensures
        occurrences(s.filter(keep), p) <= occurrences(s, p),
    decreases s.len(),
{
    reveal(Seq::filter);
    if s.len() > 0 {
        let rest = s.drop_last();
        lemma_occurrences_filter(rest, keep, p);
        rest.filter(keep).lemma_filter_push(s.last(), p);
    }
}

/// Replacing or adding an element whose key no other element has keeps the
/// keys distinct.
pub proof fn lemma_distinct_update<A, K>(s: Seq<A>, key: spec_fn(A) -> K, i: int, x: A)
    requires
        distinct_by(s, key),
        0 <= i < s.len(),
        key(x) == key(s[i]),
    ensures
        distinct_by(s.update(i, x), key),
{
    let t = s.update(i, x);
    assert forall|a: int, b: int|
        0 <= a < t.len() && 0 <= b < t.len() && a != b implies key(#[trigger] t[a]) != key(
        #[trigger] t[b],
    ) by {
        assert(key(t[a]) == key(s[a]));
        assert(key(t[b]) == key(s[b]));
    }
}

/// Whether no two of `keys` are the same.
pub fn all_distinct(keys: &Vec<u128>) -> (ok: bool)
    ensures
        ok == distinct_by(keys@, |key: u128| key),
{
    let ghost id = |key: u128| key;
    let n: usize = keys.len();
    let mut i: usize = 0;
    while i < n
        invariant
            i <= n,
            n == keys.len(),
            forall|a: int, b: int| 0 <= a < i && a < b < n ==> keys[a] != keys[b],
        decreases n - i,
    {
        let mut j: usize = i + 1;
        while j < n
            invariant
                i < j <= n,
                n == keys.len(),
                forall|b: int| i < b < j ==> keys[i as int] != keys[b],
            decreases n - j,
        {
            if keys[i] == keys[j] {
                assert(id(keys@[i as int]) == id(keys@[j as int]));
                return false;
            }
            j = j + 1;
        }
        i = i + 1;
    }
    assert forall|a: int, b: int|
        0 <= a < keys@.len() && 0 <= b < keys@.len() && a != b implies id(#[trigger] keys@[a])
        != id(#[trigger] keys@[b]) by {
        if a < b {
            assert(keys[a] != keys[b]);
        } else {
            assert(keys[b] != keys[a]);
        }
    }
    true
}

/// Elements are told apart by their keys just as the keys are told apart.
pub proof fn lemma_distinct_keys<A>(s: Seq<A>, key: spec_fn(A) -> u128, keys: Seq<u128>)
    requires
        keys.len() == s.len(),
        forall|i: int| 0 <= i < s.len() ==> keys[i] == key(#[trigger] s[i]),
    ensures
        distinct_by(keys, |key: u128| key) == distinct_by(s, key),
{
    let id = |key: u128| key;
    if distinct_by(s, key) {
        assert forall|a: int, b: int|
            0 <= a < keys.len() && 0 <= b < keys.len() && a != b implies id(#[trigger] keys[a])
            != id(#[trigger] keys[b]) by {
            assert(key(s[a]) != key(s[b]));
        }
    }
    if distinct_by(keys, id) {
        assert forall|a: int, b: int|
            0 <= a < s.len() && 0 <= b < s.len() && a != b implies key(#[trigger] s[a]) != key(
            #[trigger] s[b],
        ) by {
            assert(id(keys[a]) != id(keys[b]));
        }
    }
}

} // verus!
