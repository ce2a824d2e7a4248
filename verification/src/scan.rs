//! The first element of a sequence that has a given property.

use vstd::prelude::*;

verus! {

/// The least index of `s` whose element satisfies `wanted`, or `s.len()`
/// where no element does.
pub open spec fn first_index<T>(s: Seq<T>, wanted: spec_fn(T) -> bool) -> int
    decreases s.len(),
{
    if s.len() == 0 || wanted(s[0]) {
        0
    } else {
        1 + first_index(s.drop_first(), wanted)
    }
}

/// `first_index` lies within the bounds, no element before it satisfies
/// `wanted`, and the element at it does, where there is one.
pub proof fn lemma_first_index<T>(s: Seq<T>, wanted: spec_fn(T) -> bool)
    ensures
        0 <= first_index(s, wanted) <= s.len(),
        forall|j: int| 0 <= j < first_index(s, wanted) ==> !wanted(#[trigger] s[j]),
        first_index(s, wanted) < s.len() ==> wanted(s[first_index(s, wanted)]),
    decreases s.len(),
{
    if s.len() != 0 && !wanted(s[0]) {
        let rest = s.drop_first();
        lemma_first_index(rest, wanted);
        let found = first_index(rest, wanted);
        assert forall|j: int| 0 <= j < found + 1 implies !wanted(#[trigger] s[j]) by {
            if j > 0 {
                assert(s[j] == rest[j - 1]);
            }
        }
        assert(found < rest.len() ==> s[found + 1] == rest[found]);
    }
}

/// An index with no satisfying element before it, which holds one or is the
/// length of the sequence, is `first_index`.
pub proof fn lemma_first_index_unique<T>(s: Seq<T>, wanted: spec_fn(T) -> bool, at: int)
    requires
        0 <= at <= s.len(),
        forall|j: int| 0 <= j < at ==> !wanted(#[trigger] s[j]),
        at < s.len() ==> wanted(s[at]),
    ensures
        first_index(s, wanted) == at,
{
    lemma_first_index(s, wanted);
    let found = first_index(s, wanted);
    if found < at {
        assert(!wanted(s[found]));
    }
}

} // verus!
