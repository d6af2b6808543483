//! Finding the first element of a sequence with a property.

use vstd::prelude::*;

verus! {

/// The index of the first element of `s` that `hit` holds of, or the length
/// of `s` where it holds of none.
pub open spec fn first_index<T>(s: Seq<T>, hit: spec_fn(T) -> bool) -> int
    decreases s.len(),
{
    if s.len() == 0 || hit(s[0]) {
        0
    } else {
        1 + first_index(s.drop_first(), hit)
    }
}

/// `first_index` lies within the sequence or at its end, `hit` holds of no
/// element before it, and holds of the element at it where there is one.
pub proof fn lemma_first_index<T>(s: Seq<T>, hit: spec_fn(T) -> bool)
    ensures
        0 <= first_index(s, hit) <= s.len(),
        forall|j: int| 0 <= j < first_index(s, hit) ==> !hit(#[trigger] s[j]),
        first_index(s, hit) < s.len() ==> hit(s[first_index(s, hit)]),
    decreases s.len(),
{
    if s.len() == 0 || hit(s[0]) {
    } else {
        let rest = s.drop_first();
        lemma_first_index(rest, hit);
        assert forall|j: int| 0 <= j < first_index(s, hit) implies !hit(#[trigger] s[j]) by {
            if j > 0 {
                assert(s[j] == rest[j - 1]);
            }
        }
        if first_index(s, hit) < s.len() {
            assert(s[first_index(s, hit)] == rest[first_index(rest, hit)]);
        }
    }
}

/// An index that `hit` holds at, or the end, with no element before it of
/// which `hit` holds, is `first_index`.
pub proof fn lemma_first_index_is<T>(s: Seq<T>, hit: spec_fn(T) -> bool, k: int)
    requires
        0 <= k <= s.len(),
        forall|j: int| 0 <= j < k ==> !hit(#[trigger] s[j]),
        k == s.len() || hit(s[k]),
    ensures
        first_index(s, hit) == k,
    decreases k,
{
    if k > 0 {
        let rest = s.drop_first();
        assert(!hit(s[0]));
        assert forall|j: int| 0 <= j < k - 1 implies !hit(#[trigger] rest[j]) by {
            assert(rest[j] == s[j + 1]);
        }
        if k < s.len() {
            assert(rest[k - 1] == s[k]);
        }
        lemma_first_index_is(rest, hit, k - 1);
    }
}

} // verus!
