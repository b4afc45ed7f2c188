//! Linear-search specifications shared by the catalog and the playback
//! ordering: the index of the first element of a sequence that satisfies a
//! predicate, and the lemmas that connect that spec to a forward scan.

use vstd::prelude::*;

verus! {

/// Index of the first element of `s` satisfying `p`, or `None`.
pub open spec fn find_index_by<T>(s: Seq<T>, p: spec_fn(T) -> bool) -> Option<int>
    decreases s.len(),
{
    if s.len() == 0 {
        None
    } else if p(s[0]) {
        Some(0int)
    } else {
        match find_index_by(s.drop_first(), p) {
            Some(j) => Some(j + 1),
            None => None,
        }
    }
}

/// What a successful or failed search means: a found index is in range, its
/// element satisfies the predicate, nothing before it does; `None` means no
/// element satisfies it.
pub proof fn lemma_find_index_by<T>(s: Seq<T>, p: spec_fn(T) -> bool)
    ensures
        match find_index_by(s, p) {
            Some(i) => 0 <= i < s.len() && p(s[i]) && (forall|k: int| 0 <= k < i ==> !p(s[k])),
            None => forall|k: int| 0 <= k < s.len() ==> !p(s[k]),
        },
    decreases s.len(),
{
    if s.len() > 0 && !p(s[0]) {
        let rest = s.drop_first();
        lemma_find_index_by(rest, p);
        assert(forall|k: int| 0 <= k < rest.len() ==> rest[k] == s[k + 1]);
        match find_index_by(rest, p) {
            Some(j) => {
                assert(find_index_by(s, p) == Some(j + 1));
                assert(s[j + 1] == rest[j]);
                assert forall|k: int| 0 <= k < j + 1 implies !p(s[k]) by {
                    if k > 0 {
                        assert(s[k] == rest[k - 1]);
                    }
                }
            },
            None => {
                assert forall|k: int| 0 <= k < s.len() implies !p(s[k]) by {
                    if k > 0 {
                        assert(s[k] == rest[k - 1]);
                    }
                }
            },
        }
    }
}

/// A scan that has ruled out the first `i` elements finds whatever a search of
/// the remainder finds, shifted by `i`.
pub proof fn lemma_find_index_by_skip<T>(s: Seq<T>, p: spec_fn(T) -> bool, i: int)
    requires
        0 <= i <= s.len(),
        forall|k: int| 0 <= k < i ==> !p(s[k]),
    ensures
        find_index_by(s, p) == match find_index_by(s.skip(i), p) {
            Some(j) => Some(i + j),
            None => None::<int>,
        },
    decreases i,
{
    if i == 0 {
        assert(s.skip(0) =~= s);
    } else {
        assert(!p(s[0]));
        lemma_find_index_by_skip(s.drop_first(), p, i - 1);
        assert(s.drop_first().skip(i - 1) =~= s.skip(i));
    }
}

} // verus!
