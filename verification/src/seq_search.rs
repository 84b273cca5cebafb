//! Searching a sequence for the first element that passes a test, as the
//! simulation does when it walks its entities in their stable order.

use vstd::prelude::*;

verus! {

/// `i` is the first position of `s` whose element passes `p`.
pub open spec fn is_first<T>(s: Seq<T>, p: spec_fn(T) -> bool, i: int) -> bool {
    &&& 0 <= i < s.len()
    &&& p(s[i])
    &&& forall|j: int| 0 <= j < i ==> !p(#[trigger] s[j])
}

/// No element of `s` before position `n` passes `p`.
pub open spec fn none_before<T>(s: Seq<T>, p: spec_fn(T) -> bool, n: int) -> bool {
    forall|j: int| 0 <= j < n && j < s.len() ==> !p(#[trigger] s[j])
}

/// The first position of `s` whose element passes `p`, if any does.
pub open spec fn first<T>(s: Seq<T>, p: spec_fn(T) -> bool) -> Option<int> {
    if exists|i: int| is_first(s, p, i) {
        Some(choose|i: int| is_first(s, p, i))
    } else {
        None
    }
}

/// A position that passes the test of `is_first` is what `first` gives.
pub proof fn lemma_first_is<T>(s: Seq<T>, p: spec_fn(T) -> bool, i: int)
    requires
        is_first(s, p, i),
    ensures
        first(s, p) == Some(i),
{
    let c = choose|c: int| is_first(s, p, c);
    assert(is_first(s, p, c));
    if c < i {
        assert(!p(s[c]));
    } else if i < c {
        assert(!p(s[i]));
    }
}

/// Where no element passes, `first` gives nothing.
pub proof fn lemma_first_none<T>(s: Seq<T>, p: spec_fn(T) -> bool)
    requires
        none_before(s, p, s.len() as int),
    ensures
        first(s, p) is None,
{
    if exists|i: int| is_first(s, p, i) {
        let c = choose|c: int| is_first(s, p, c);
        assert(!p(s[c]));
    }
}

/// What `first` gives is a first position, and where it gives nothing no
/// element passes.
pub proof fn lemma_first_sound<T>(s: Seq<T>, p: spec_fn(T) -> bool)
    ensures
        match first(s, p) {
            Some(i) => is_first(s, p, i),
            None => none_before(s, p, s.len() as int),
        },
{
    if exists|i: int| is_first(s, p, i) {
    } else {
        assert forall|j: int| 0 <= j < s.len() implies !p(#[trigger] s[j]) by {
            if p(s[j]) {
                lemma_some_first(s, p, j);
            }
        }
    }
}

/// Where some element before `n` passes, there is a first one.
proof fn lemma_some_first<T>(s: Seq<T>, p: spec_fn(T) -> bool, n: int)
    requires
        0 <= n < s.len(),
        p(s[n]),
    ensures
        exists|i: int| is_first(s, p, i),
    decreases n,
{
    if forall|j: int| 0 <= j < n ==> !p(#[trigger] s[j]) {
        assert(is_first(s, p, n));
    } else {
        let j = choose|j: int| 0 <= j < n && p(#[trigger] s[j]);
        lemma_some_first(s, p, j);
    }
}

/// `i` is the last position of `s` whose element passes `p`.
pub open spec fn is_last<T>(s: Seq<T>, p: spec_fn(T) -> bool, i: int) -> bool {
    &&& 0 <= i < s.len()
    &&& p(s[i])
    &&& forall|j: int| i < j < s.len() ==> !p(#[trigger] s[j])
}

/// The last position of `s` whose element passes `p`, if any does.
pub open spec fn last<T>(s: Seq<T>, p: spec_fn(T) -> bool) -> Option<int> {
    if exists|i: int| is_last(s, p, i) {
        Some(choose|i: int| is_last(s, p, i))
    } else {
        None
    }
}

/// A position that passes the test of `is_last` is what `last` gives.
pub proof fn lemma_last_is<T>(s: Seq<T>, p: spec_fn(T) -> bool, i: int)
    requires
        is_last(s, p, i),
    ensures
        last(s, p) == Some(i),
{
    let c = choose|c: int| is_last(s, p, c);
    assert(is_last(s, p, c));
    if c < i {
        assert(!p(s[i]));
    } else if i < c {
        assert(!p(s[c]));
    }
}

/// The last match of a sequence with one more element is that element if
/// it passes, and the last match of the sequence without it if not.
pub proof fn lemma_last_push<T>(s: Seq<T>, p: spec_fn(T) -> bool, x: T)
    ensures
        last(s.push(x), p) == (if p(x) {
            Some(s.len() as int)
        } else {
            last(s, p)
        }),
{
    let t = s.push(x);
    if p(x) {
        assert(is_last(t, p, s.len() as int));
        lemma_last_is(t, p, s.len() as int);
    } else if exists|i: int| is_last(s, p, i) {
        let c = choose|c: int| is_last(s, p, c);
        assert(t[c] == s[c]);
        assert forall|j: int| c < j < t.len() implies !p(#[trigger] t[j]) by {
            if j < s.len() {
                assert(t[j] == s[j]);
            }
        }
        assert(is_last(t, p, c));
        lemma_last_is(t, p, c);
    } else {
        if exists|i: int| is_last(t, p, i) {
            let c = choose|c: int| is_last(t, p, c);
            assert(c < s.len());
            assert(t[c] == s[c]);
            assert forall|j: int| c < j < s.len() implies !p(#[trigger] s[j]) by {
                assert(t[j] == s[j]);
            }
            assert(is_last(s, p, c));
        }
    }
}

/// What `last` gives is a position of `s` whose element passes.
pub proof fn lemma_last_sound<T>(s: Seq<T>, p: spec_fn(T) -> bool)
    ensures
        last(s, p) matches Some(i) ==> is_last(s, p, i),
{
}

/// Two tests that agree on every element of `s` have the same last match.
pub proof fn lemma_last_agree<T>(s: Seq<T>, p: spec_fn(T) -> bool, q: spec_fn(T) -> bool)
    requires
        forall|j: int| 0 <= j < s.len() ==> p(#[trigger] s[j]) == q(s[j]),
    ensures
        last(s, p) == last(s, q),
{
    if exists|i: int| is_last(s, p, i) {
        let c = choose|c: int| is_last(s, p, c);
        assert(q(s[c]));
        assert forall|j: int| c < j < s.len() implies !q(#[trigger] s[j]) by {
            assert(!p(s[j]));
        }
        assert(is_last(s, q, c));
        lemma_last_is(s, q, c);
    } else if exists|i: int| is_last(s, q, i) {
        let c = choose|c: int| is_last(s, q, c);
        assert(p(s[c]));
        assert forall|j: int| c < j < s.len() implies !p(#[trigger] s[j]) by {
            assert(!q(s[j]));
        }
        assert(is_last(s, p, c));
    }
}

/// Two searches that test alike, position by position, find alike.
pub proof fn lemma_first_agree<T, U>(s: Seq<T>, p: spec_fn(T) -> bool, t: Seq<U>, q: spec_fn(U) -> bool)
    requires
        s.len() == t.len(),
        forall|j: int| 0 <= j < s.len() ==> p(#[trigger] s[j]) == q(t[j]),
    ensures
        first(s, p) == first(t, q),
{
    lemma_first_sound(s, p);
    lemma_first_sound(t, q);
    match first(s, p) {
        Some(i) => {
            assert(q(t[i]));
            assert forall|j: int| 0 <= j < i implies !q(#[trigger] t[j]) by {
                assert(!p(s[j]));
            }
            assert(is_first(t, q, i));
            lemma_first_is(t, q, i);
        },
        None => {
            assert forall|j: int| 0 <= j < t.len() implies !q(#[trigger] t[j]) by {
                assert(!p(s[j]));
            }
            lemma_first_none(t, q);
        },
    }
}

/// An identifier is among the identifiers of `items` exactly if one of the
/// items has it.
pub proof fn lemma_id_member<T>(items: Seq<T>, id: spec_fn(T) -> u64, e: u64)
    ensures
        items.map_values(id).to_set().contains(e) <==> exists|i: int|
            0 <= i < items.len() && id(#[trigger] items[i]) == e,
{
    let ids = items.map_values(id);
    if ids.to_set().contains(e) {
        assert(ids.contains(e));
        let i = choose|i: int| 0 <= i < ids.len() && ids[i] == e;
        assert(id(items[i]) == e);
    }
    if exists|i: int| 0 <= i < items.len() && id(#[trigger] items[i]) == e {
        let i = choose|i: int| 0 <= i < items.len() && id(#[trigger] items[i]) == e;
        assert(ids[i] == e);
        assert(ids.contains(e));
    }
}

/// One more item brings one more identifier.
pub proof fn lemma_ids_push<T>(items: Seq<T>, id: spec_fn(T) -> u64, x: T)
    ensures
        items.push(x).map_values(id) == items.map_values(id).push(id(x)),
        items.push(x).map_values(id).to_set() == items.map_values(id).to_set().insert(id(x)),
        items.map_values(id).no_duplicates() && !items.map_values(id).to_set().contains(id(x))
            ==> items.push(x).map_values(id).no_duplicates(),
{
    let ids = items.map_values(id);
    let more = items.push(x).map_values(id);
    assert(more =~= ids.push(id(x)));
    assert forall|e: u64| more.to_set().contains(e) == ids.to_set().insert(id(x)).contains(e) by {
        lemma_id_member(items.push(x), id, e);
        lemma_id_member(items, id, e);
        if more.to_set().contains(e) {
            let i = choose|i: int|
                0 <= i < items.push(x).len() && id(#[trigger] items.push(x)[i]) == e;
            if i < items.len() {
                assert(id(items[i]) == e);
            }
        }
        if ids.to_set().contains(e) {
            let i = choose|i: int| 0 <= i < items.len() && id(#[trigger] items[i]) == e;
            assert(id(items.push(x)[i]) == e);
        }
        if e == id(x) {
            assert(id(items.push(x)[items.len() as int]) == e);
        }
    }
    assert(more.to_set() =~= ids.to_set().insert(id(x)));
    if ids.no_duplicates() && !ids.to_set().contains(id(x)) {
        assert forall|i: int, j: int| 0 <= i < more.len() && 0 <= j < more.len() && i != j implies more[i]
            != more[j] by {
            if i < ids.len() && j < ids.len() {
                assert(ids[i] != ids[j]);
            } else if i < ids.len() {
                assert(ids.contains(ids[i]));
            } else {
                assert(ids.contains(ids[j]));
            }
        }
    }
}

/// Picking items out of a sequence keeps their identifiers apart: if no two
/// items of `items` share an identifier, no two of those that pass `keep` do,
/// and each of their identifiers is one of `items`.
pub proof fn lemma_filter_keeps_distinct<T>(items: Seq<T>, keep: spec_fn(T) -> bool, id: spec_fn(T) -> u64)
    requires
        items.map_values(id).no_duplicates(),
    ensures
        items.filter(keep).map_values(id).no_duplicates(),
        items.filter(keep).map_values(id).to_set().subset_of(items.map_values(id).to_set()),
    decreases items.len(),
{
    reveal(Seq::filter);
    if items.len() == 0 {
        assert(items.filter(keep).map_values(id) =~= items.map_values(id));
    } else {
        let front = items.drop_last();
        let x = items.last();
        assert(items == front.push(x));
        lemma_ids_push(front, id, x);
        let front_ids = front.map_values(id);
        assert(front_ids.no_duplicates()) by {
            assert forall|i: int, j: int|
                0 <= i < front_ids.len() && 0 <= j < front_ids.len() && i != j implies front_ids[i]
                != front_ids[j] by {
                assert(items.map_values(id)[i] != items.map_values(id)[j]);
            }
        }
        assert(!front_ids.to_set().contains(id(x))) by {
            if front_ids.to_set().contains(id(x)) {
                lemma_id_member(front, id, id(x));
                let i = choose|i: int| 0 <= i < front.len() && id(#[trigger] front[i]) == id(x);
                assert(items.map_values(id)[i] == items.map_values(id)[items.len() - 1]);
            }
        }
        lemma_filter_keeps_distinct(front, keep, id);
        Seq::lemma_filter_push(front, x, keep);
        if keep(x) {
            lemma_ids_push(front.filter(keep), id, x);
        }
    }
}

/// The sum of `f(0)`, …, `f(n - 1)`.
pub open spec fn sum_upto(f: spec_fn(int) -> nat, n: int) -> nat
    decreases n,
{
    if n <= 0 {
        0
    } else {
        sum_upto(f, n - 1) + f(n - 1)
    }
}

/// Sums of functions that agree below `n` agree.
pub proof fn lemma_sum_upto_agree(f: spec_fn(int) -> nat, g: spec_fn(int) -> nat, n: int)
    requires
        forall|k: int| 0 <= k < n ==> #[trigger] f(k) == g(k),
    ensures
        sum_upto(f, n) == sum_upto(g, n),
    decreases n,
{
    if n > 0 {
        lemma_sum_upto_agree(f, g, n - 1);
    }
}

/// A sum with at most one term that is not zero is that term.
pub proof fn lemma_sum_upto_single(f: spec_fn(int) -> nat, n: int, i: int)
    requires
        0 <= i < n,
        forall|k: int| 0 <= k < n && k != i ==> #[trigger] f(k) == 0,
    ensures
        sum_upto(f, n) == f(i),
    decreases n,
{
    if n - 1 == i {
        lemma_sum_upto_none(f, n - 1);
    } else {
        lemma_sum_upto_single(f, n - 1, i);
    }
}

/// A sum of zeros is zero.
pub proof fn lemma_sum_upto_none(f: spec_fn(int) -> nat, n: int)
    requires
        forall|k: int| 0 <= k < n ==> #[trigger] f(k) == 0,
    ensures
        sum_upto(f, n) == 0,
    decreases n,
{
    if n > 0 {
        lemma_sum_upto_none(f, n - 1);
    }
}

/// How many of `0`, …, `n - 1` pass `p`.
pub open spec fn count_upto(p: spec_fn(int) -> bool, n: int) -> nat
    decreases n,
{
    if n <= 0 {
        0
    } else if p(n - 1) {
        count_upto(p, n - 1) + 1
    } else {
        count_upto(p, n - 1)
    }
}

/// A sum whose terms are `d` where `p` holds and zero elsewhere is `d` times
/// the number of places where `p` holds.
pub proof fn lemma_sum_upto_uniform(f: spec_fn(int) -> nat, p: spec_fn(int) -> bool, d: nat, n: int)
    requires
        forall|k: int|
            0 <= k < n ==> #[trigger] f(k) == (if p(k) {
                d
            } else {
                0
            }),
    ensures
        sum_upto(f, n) == d * count_upto(p, n),
    decreases n,
{
    if n > 0 {
        lemma_sum_upto_uniform(f, p, d, n - 1);
        assert(d * (count_upto(p, n - 1) + 1) == d * count_upto(p, n - 1) + d)
            by (nonlinear_arith);
    } else {
        assert(d * 0 == 0) by (nonlinear_arith);
    }
}

} // verus!
