//! The playback ordering: an ordered snapshot of tracks together with an
//! independently shuffled permutation of its positions. The ordering starts
//! out with the identity permutation and is reshuffled on every transition
//! into random playback.

use vstd::prelude::*;
use vstd::seq_lib::group_to_multiset_ensures;

use rand::seq::SliceRandom;

use crate::find::{find_index_by, lemma_find_index_by_skip};
use crate::track::{AlbumInfo, TrackView, find_index_of_id, find_track_index};

verus! {

/// `s` is a permutation of `0..n`: it has length `n`, repeats no value, stays
/// below `n`, and reaches every position below `n`.
pub open spec fn is_permutation(s: Seq<usize>, n: nat) -> bool {
    &&& s.len() == n
    &&& s.no_duplicates()
    &&& forall|i: int| 0 <= i < s.len() ==> (s[i] as nat) < n
    &&& forall|k: int| 0 <= k < n ==> #[trigger] s.contains(k as usize)
}

/// The identity permutation of `0..n`.
pub open spec fn identity_perm(n: nat) -> Seq<usize> {
    Seq::new(n, |i: int| i as usize)
}

/// The identity permutation is a permutation.
pub proof fn lemma_identity_perm(n: nat)
    requires
        n <= usize::MAX,
    ensures
        is_permutation(identity_perm(n), n),
{
    let s = identity_perm(n);
    assert forall|k: int| 0 <= k < n implies #[trigger] s.contains(k as usize) by {
        assert(s[k] == k as usize);
    }
}

/// A sequence with the same elements as a permutation of `0..n` is itself a
/// permutation of `0..n`: rearrangement cannot lose, add or repeat positions.
pub proof fn lemma_permutation_multiset(s1: Seq<usize>, s2: Seq<usize>, n: nat)
    requires
        is_permutation(s1, n),
        s1.to_multiset() == s2.to_multiset(),
    ensures
        is_permutation(s2, n),
{
    broadcast use group_to_multiset_ensures;

    s1.lemma_multiset_has_no_duplicates();
    s2.lemma_multiset_has_no_duplicates_conv();
    vstd::seq_lib::to_multiset_len(s1);
    vstd::seq_lib::to_multiset_len(s2);
    assert(s2.len() == n);
    assert forall|i: int| 0 <= i < s2.len() implies (s2[i] as nat) < n by {
        assert(s2.contains(s2[i]));
        assert(s2.to_multiset().count(s2[i]) > 0);
        assert(s1.contains(s2[i]));
        let j = choose|j: int| 0 <= j < s1.len() && s1[j] == s2[i];
        assert((s1[j] as nat) < n);
    }
    assert forall|k: int| 0 <= k < n implies #[trigger] s2.contains(k as usize) by {
        assert(s1.contains(k as usize));
        assert(s1.to_multiset().count(k as usize) > 0);
        assert(s2.to_multiset().count(k as usize) > 0);
    }
}

/// In a permutation every position below `n` appears exactly once: it occurs,
/// and no two indices hold it.
pub proof fn lemma_permutation_bijection(s: Seq<usize>, n: nat, k: usize)
    requires
        is_permutation(s, n),
        (k as nat) < n,
    ensures
        exists|i: int| 0 <= i < s.len() && s[i] == k,
        forall|i: int, j: int|
            0 <= i < s.len() && 0 <= j < s.len() && s[i] == k && s[j] == k ==> i == j,
{
    let ki: int = k as int;
    assert(s.contains(ki as usize));
    assert(s.contains(k));
}

/// Relies on rand's `SliceRandom::shuffle` with the generator from
/// `rand::rng()`: it permutes the slice in place, only swapping elements
/// (Durstenfeld's algorithm), so whatever order comes out, the elements and
/// the length are unchanged.
#[verifier::external_body]
fn shuffle_in_place(v: &mut Vec<usize>)
    ensures
        final(v)@.to_multiset() == old(v)@.to_multiset(),
        final(v)@.len() == old(v)@.len(),
{
    let mut rng = rand::rng();
    v.as_mut_slice().shuffle(&mut rng);
}

/// The predicate "this position equals `v`".
pub open spec fn eq_pos_pred(v: usize) -> spec_fn(usize) -> bool {
    |x: usize| x == v
}

/// Index of the first occurrence of `v` in `s`.
pub open spec fn find_pos_of(s: Seq<usize>, v: usize) -> Option<int> {
    find_index_by(s, eq_pos_pred(v))
}

/// Scans `order` for the first occurrence of the value `v`.
pub fn find_position_of_value(order: &Vec<usize>, v: usize) -> (r: Option<usize>)
    ensures
        match r {
            Some(i) => find_pos_of(order@, v) == Some(i as int),
            None => find_pos_of(order@, v) is None,
        },
{
    let n: usize = order.len();
    let mut i: usize = 0;
    while i < n
        invariant
            n == order.len(),
            0 <= i <= n,
            forall|k: int| 0 <= k < i ==> order@[k] != v,
        decreases n - i,
    {
        if order[i] == v {
            proof {
                lemma_find_index_by_skip(order@, eq_pos_pred(v), i as int);
                assert(order@.skip(i as int)[0] == order@[i as int]);
                assert(find_index_by(order@.skip(i as int), eq_pos_pred(v)) == Some(0int));
            }
            return Some(i);
        }
        i = i + 1;
    }
    proof {
        lemma_find_index_by_skip(order@, eq_pos_pred(v), n as int);
        assert(order@.skip(n as int).len() == 0);
    }
    None
}

/// Mathematical view of a playback ordering.
#[verifier::ext_equal]
pub ghost struct PlayListView {
    /// The ordered track snapshot.
    pub items: Seq<TrackView>,
    /// The shuffled permutation of `0..items.len()`.
    pub order: Seq<usize>,
}

impl PlayListView {
    /// Well-formedness: the shuffle order is a permutation of the positions.
    pub open spec fn wf(&self) -> bool {
        is_permutation(self.order, self.items.len())
    }
}

/// A concrete playable sequence: an ordered snapshot of tracks plus a
/// shuffled permutation of its positions. A pure value; it is rebuilt
/// wholesale rather than patched when the source selection changes.
pub struct PlayList {
    items: Vec<AlbumInfo>,
    shuffle_order: Vec<usize>,
}

impl View for PlayList {
    type V = PlayListView;

    closed spec fn view(&self) -> PlayListView {
        PlayListView { items: self.items.deep_view(), order: self.shuffle_order@ }
    }
}

impl PlayList {
    /// Builds an ordering over a track snapshot; the shuffle order starts as
    /// the identity permutation.
    pub fn new(items: Vec<AlbumInfo>) -> (r: Self)
        ensures
            r@.items == items.deep_view(),
            r@.order == identity_perm(items.deep_view().len()),
            r@.wf(),
    {
        let n: usize = items.len();
        let mut shuffle_order: Vec<usize> = Vec::new();
        let mut i: usize = 0;
        while i < n
            invariant
                0 <= i <= n,
                shuffle_order@.len() == i,
                forall|k: int| 0 <= k < i ==> shuffle_order@[k] == k as usize,
            decreases n - i,
        {
            shuffle_order.push(i);
            i = i + 1;
        }
        proof {
            assert(shuffle_order@ =~= identity_perm(n as nat));
            lemma_identity_perm(n as nat);
        }
        PlayList { items, shuffle_order }
    }

    /// Reshuffles the permutation in place, uniformly at random; the track
    /// snapshot is untouched and the order stays a permutation.
    pub fn shuffle(&mut self)
        requires
            old(self)@.wf(),
        ensures
            final(self)@.wf(),
            final(self)@.items == old(self)@.items,
            final(self)@.order.to_multiset() == old(self)@.order.to_multiset(),
    {
        let ghost before = self.shuffle_order@;
        shuffle_in_place(&mut self.shuffle_order);
        proof {
            lemma_permutation_multiset(before, self.shuffle_order@, self@.items.len());
        }
    }

    /// The number of tracks in the ordering.
    pub fn len(&self) -> (r: usize)
        ensures
            r == self@.items.len(),
    {
        self.items.len()
    }

    /// The track at a sequential position, if the position is in range.
    pub fn get(&self, index: usize) -> (r: Option<&AlbumInfo>)
        ensures
            match r {
                Some(t) => index < self@.items.len() && t@ == self@.items[index as int],
                None => index >= self@.items.len(),
            },
    {
        if index < self.items.len() {
            Some(&self.items[index])
        } else {
            None
        }
    }

    /// The sequential position of the first track with identity `id`.
    pub fn position_of(&self, id: u128) -> (r: Option<usize>)
        ensures
            match r {
                Some(i) => find_index_of_id(self@.items, id) == Some(i as int),
                None => find_index_of_id(self@.items, id) is None,
            },
    {
        find_track_index(&self.items, id)
    }

    /// The position within the shuffle order where sequential position `v`
    /// sits.
    pub fn shuffle_position_of(&self, v: usize) -> (r: Option<usize>)
        ensures
            match r {
                Some(i) => find_pos_of(self@.order, v) == Some(i as int),
                None => find_pos_of(self@.order, v) is None,
            },
    {
        find_position_of_value(&self.shuffle_order, v)
    }

    /// The sequential position stored at position `i` of the shuffle order,
    /// if `i` is in range.
    pub fn shuffle_value(&self, i: usize) -> (r: Option<usize>)
        ensures
            match r {
                Some(v) => i < self@.order.len() && v == self@.order[i as int],
                None => i >= self@.order.len(),
            },
    {
        if i < self.shuffle_order.len() {
            Some(self.shuffle_order[i])
        } else {
            None
        }
    }
}

} // verus!
