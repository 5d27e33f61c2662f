//! The first element of a sequence that satisfies a condition.

use vstd::prelude::*;

verus! {

/// Whether the element at `i` is the first to satisfy `p`.
pub open spec fn is_first<T>(s: Seq<T>, p: spec_fn(T) -> bool, i: int) -> bool {
    &&& 0 <= i < s.len()
    &&& p(s[i])
    &&& forall|j: int| 0 <= j < i ==> !p(#[trigger] s[j])
}

/// The position of the first element that satisfies `p`, if any does.
pub open spec fn first<T>(s: Seq<T>, p: spec_fn(T) -> bool) -> Option<int> {
    if exists|i: int| is_first(s, p, i) {
        Some(choose|i: int| is_first(s, p, i))
    } else {
        None
    }
}

/// The first element that satisfies `p`, if any does.
pub open spec fn first_of<T>(s: Seq<T>, p: spec_fn(T) -> bool) -> Option<T> {
    match first(s, p) {
        Some(i) => Some(s[i]),
        None => None,
    }
}

/// There is at most one first element.
pub proof fn lemma_first_is<T>(s: Seq<T>, p: spec_fn(T) -> bool, i: int)
    requires
        is_first(s, p, i),
    ensures
        first(s, p) == Some(i),
{
}

/// There is a first element as soon as one satisfies `p`.
pub proof fn lemma_first_exists<T>(s: Seq<T>, p: spec_fn(T) -> bool, i: int)
    requires
        0 <= i < s.len(),
        p(s[i]),
    ensures
        first(s, p) matches Some(f) && f <= i && is_first(s, p, f),
    decreases i,
{
    if exists|j: int| 0 <= j < i && p(s[j]) {
        let j = choose|j: int| 0 <= j < i && p(s[j]);
        lemma_first_exists(s, p, j);
    } else {
        assert(is_first(s, p, i));
        lemma_first_is(s, p, i);
    }
}

/// Whether the element at `i` is the last to satisfy `p`.
pub open spec fn is_last<T>(s: Seq<T>, p: spec_fn(T) -> bool, i: int) -> bool {
    &&& 0 <= i < s.len()
    &&& p(s[i])
    &&& forall|j: int| i < j < s.len() ==> !p(#[trigger] s[j])
}

/// The last element that satisfies `p`, if any does.
pub open spec fn last_of<T>(s: Seq<T>, p: spec_fn(T) -> bool) -> Option<T> {
    if exists|i: int| is_last(s, p, i) {
        Some(s[choose|i: int| is_last(s, p, i)])
    } else {
        None
    }
}

/// There is at most one last element.
pub proof fn lemma_last_is<T>(s: Seq<T>, p: spec_fn(T) -> bool, i: int)
    requires
        is_last(s, p, i),
    ensures
        last_of(s, p) == Some(s[i]),
{
}

/// The first match is the one no match stands before, and there is none exactly
/// where nothing matches.
pub proof fn law_the_first_match_is_found<T>(s: Seq<T>, p: spec_fn(T) -> bool, i: int)
    requires
        0 <= i < s.len(),
        p(s[i]),
    ensures
        first(s, p) matches Some(f) && 0 <= f <= i && p(s[f]) && forall|j: int|
            0 <= j < f ==> !p(#[trigger] s[j]),
        (forall|j: int| 0 <= j < i ==> !p(#[trigger] s[j])) ==> first(s, p) == Some(i)
            && first_of(s, p) == Some(s[i]),
{
    lemma_first_exists(s, p, i);
    if forall|j: int| 0 <= j < i ==> !p(#[trigger] s[j]) {
        assert(is_first(s, p, i));
        lemma_first_is(s, p, i);
    }
}

/// Where nothing matches, nothing is found.
pub proof fn law_nothing_is_found_where_nothing_matches<T>(s: Seq<T>, p: spec_fn(T) -> bool)
    requires
        forall|j: int| 0 <= j < s.len() ==> !p(#[trigger] s[j]),
    ensures
        first(s, p) is None,
        first_of(s, p) is None,
        last_of(s, p) is None,
{
}

/// The last match is the one no match stands behind.
pub proof fn law_the_last_match_is_found<T>(s: Seq<T>, p: spec_fn(T) -> bool, i: int)
    requires
        0 <= i < s.len(),
        p(s[i]),
        forall|j: int| i < j < s.len() ==> !p(#[trigger] s[j]),
    ensures
        last_of(s, p) == Some(s[i]),
{
    assert(is_last(s, p, i));
    lemma_last_is(s, p, i);
}

} // verus!
