//! First-match search in a sequence, the way the registries of the crate look
//! an entry up by its name.

use vstd::prelude::*;

verus! {

/// The index of the first element of `s` that satisfies `p`, and the length of
/// `s` where none does.
pub open spec fn first_match<T>(s: Seq<T>, p: spec_fn(T) -> bool) -> int
    decreases s.len(),
{
    if s.len() == 0 {
        0
    } else if p(s[0]) {
        0
    } else {
        1 + first_match(s.drop_first(), p)
    }
}

/// The first element of `s` that satisfies `p`, if there is one.
pub open spec fn find_first_match<T>(s: Seq<T>, p: spec_fn(T) -> bool) -> Option<T> {
    if first_match(s, p) < s.len() {
        Some(s[first_match(s, p)])
    } else {
        None
    }
}

/// `first_match` stays within the sequence, nothing before it satisfies `p`,
/// and what stands at it does.
pub proof fn lemma_first_match_bounds<T>(s: Seq<T>, p: spec_fn(T) -> bool)
    ensures
        0 <= first_match(s, p) <= s.len(),
        forall|k: int| 0 <= k < first_match(s, p) ==> !p(#[trigger] s[k]),
        first_match(s, p) < s.len() ==> p(s[first_match(s, p)]),
    decreases s.len(),
{
    if s.len() != 0 && !p(s[0]) {
        let t = s.drop_first();
        lemma_first_match_bounds(t, p);
        assert forall|k: int| 0 <= k < first_match(s, p) implies !p(#[trigger] s[k]) by {
            if k > 0 {
                assert(s[k] == t[k - 1]);
            }
        }
    }
}

/// An index with nothing before it that satisfies `p`, and which is the end
/// or holds an element that does, is `first_match`.
pub proof fn lemma_first_match_is<T>(s: Seq<T>, p: spec_fn(T) -> bool, i: int)
    requires
        0 <= i <= s.len(),
        forall|k: int| 0 <= k < i ==> !p(#[trigger] s[k]),
        i < s.len() ==> p(s[i]),
    ensures
        first_match(s, p) == i,
    decreases s.len(),
{
    if s.len() != 0 && !p(s[0]) {
        let t = s.drop_first();
        assert forall|k: int| 0 <= k < i - 1 implies !p(#[trigger] t[k]) by {
            assert(t[k] == s[k + 1]);
        }
        lemma_first_match_is(t, p, i - 1);
    } else if s.len() != 0 {
        if i > 0 {
            assert(!p(s[0]));
        }
    }
}

} // verus!
