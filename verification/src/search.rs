//! The first element of a sequence with a property.
use vstd::prelude::*;

verus! {

/// The first element of `s` for which `p` holds is at `i`.
pub open spec fn first_with<T>(s: Seq<T>, p: spec_fn(T) -> bool, i: int) -> bool {
    &&& 0 <= i < s.len()
    &&& p(s[i])
    &&& forall|j: int| 0 <= j < i ==> !p(#[trigger] s[j])
}

/// No element of `s` satisfies `p`.
pub open spec fn none_with<T>(s: Seq<T>, p: spec_fn(T) -> bool) -> bool {
    forall|j: int| 0 <= j < s.len() ==> !p(#[trigger] s[j])
}

/// The index of the first element at or after `i` that satisfies `p`, or
/// the length of `s` when there is none.
pub open spec fn first_from<T>(s: Seq<T>, p: spec_fn(T) -> bool, i: int) -> int
    decreases s.len() - i,
{
    if i < 0 || i >= s.len() {
        s.len() as int
    } else if p(s[i]) {
        i
    } else {
        first_from(s, p, i + 1)
    }
}

/// The index of the first element of `s` that satisfies `p`, or the length
/// of `s` when there is none.
pub open spec fn first_index<T>(s: Seq<T>, p: spec_fn(T) -> bool) -> int {
    first_from(s, p, 0)
}

pub proof fn lemma_first_from<T>(s: Seq<T>, p: spec_fn(T) -> bool, i: int)
    requires
        0 <= i <= s.len(),
        forall|j: int| 0 <= j < i ==> !p(#[trigger] s[j]),
    ensures
        first_from(s, p, i) == s.len() ==> none_with(s, p),
        first_from(s, p, i) < s.len() ==> first_with(s, p, first_from(s, p, i)),
        0 <= first_from(s, p, i) <= s.len(),
    decreases s.len() - i,
{
    if i < s.len() && !p(s[i]) {
        lemma_first_from(s, p, i + 1);
    }
}

pub proof fn lemma_first_index<T>(s: Seq<T>, p: spec_fn(T) -> bool)
    ensures
        first_index(s, p) == s.len() ==> none_with(s, p),
        first_index(s, p) < s.len() ==> first_with(s, p, first_index(s, p)),
        0 <= first_index(s, p) <= s.len(),
{
    lemma_first_from(s, p, 0);
}

/// The first element with a property is unique.
pub proof fn lemma_first_with_unique<T>(s: Seq<T>, p: spec_fn(T) -> bool, i: int, j: int)
    requires
        first_with(s, p, i),
        first_with(s, p, j),
    ensures
        i == j,
{
    if i < j {
        assert(!p(s[i]));
    }
    if j < i {
        assert(!p(s[j]));
    }
}

/// `first_index` is the first element whenever there is one.
pub proof fn lemma_first_index_is<T>(s: Seq<T>, p: spec_fn(T) -> bool, i: int)
    requires
        first_with(s, p, i),
    ensures
        first_index(s, p) == i,
{
    lemma_first_index(s, p);
    if first_index(s, p) == s.len() {
        assert(!p(s[i]));
    } else {
        lemma_first_with_unique(s, p, i, first_index(s, p));
    }
}

} // verus!
