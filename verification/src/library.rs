//! The catalog store: owns the canonical track collection plus derived
//! favorite and history views. Favorites and history hold copies of library
//! entries; inserting an identity unknown to the library is a no-op, and the
//! history is bounded and most-recent-first. Every mutation appends a
//! notification event that the embedding drains and forwards to observers.

use vstd::prelude::*;
use vstd::pervasive::arbitrary;

use crate::track::{
    AlbumInfo, TrackView, distinct_ids, find_index_of_id, find_track_index, has_track_id,
    lemma_find_index_of_id, lemma_remove_keeps_distinct,
};

verus! {

/// Most entries the history view keeps; inserting beyond it evicts the oldest.
pub const MAX_HISTORY: usize = 100;

/// Notification emitted by a mutating catalog operation.
#[derive(Clone, Copy, PartialEq, Eq, Structural, Debug)]
pub enum LibraryEvent {
    /// A track was added to the favorites.
    FavoriteAdded(u128),
    /// A track was removed from the favorites.
    FavoriteRemoved(u128),
    /// A track was added to the history.
    HistoryAdded(u128),
    /// The canonical library was replaced.
    LibraryUpdated,
}

/// The first track in `s` with identity `id` (meaningful only when present).
pub open spec fn track_with_id(s: Seq<TrackView>, id: u128) -> TrackView {
    match find_index_of_id(s, id) {
        Some(i) => s[i],
        None => arbitrary(),
    }
}

/// The favorite or history list rebuilt from a saved identity list:
/// identities unknown to `lib` are silently dropped, and so is a repeated
/// identity, so that each entry appears at most once.
pub open spec fn build_list(lib: Seq<TrackView>, ids: Seq<u128>) -> Seq<TrackView>
    decreases ids.len(),
{
    if ids.len() == 0 {
        Seq::empty()
    } else {
        let prev = build_list(lib, ids.drop_last());
        let id = ids.last();
        if has_track_id(lib, id) && !has_track_id(prev, id) {
            prev.push(track_with_id(lib, id))
        } else {
            prev
        }
    }
}

/// A rebuilt list capped at the history bound.
pub open spec fn cap_history(s: Seq<TrackView>) -> Seq<TrackView> {
    if s.len() <= MAX_HISTORY {
        s
    } else {
        s.take(MAX_HISTORY as int)
    }
}

/// What adding `id` to the favorites does: nothing if already favorited or
/// unknown in the library, else the library's track is appended.
pub open spec fn add_favorite_spec(lib: Seq<TrackView>, favs: Seq<TrackView>, id: u128) -> (
    Seq<TrackView>,
    bool,
) {
    if has_track_id(favs, id) || !has_track_id(lib, id) {
        (favs, false)
    } else {
        (favs.push(track_with_id(lib, id)), true)
    }
}

/// What removing `id` from the favorites does: nothing if not favorited,
/// else the entry with that identity is removed.
pub open spec fn remove_favorite_spec(favs: Seq<TrackView>, id: u128) -> (Seq<TrackView>, bool) {
    match find_index_of_id(favs, id) {
        Some(i) => (favs.remove(i), true),
        None => (favs, false),
    }
}

/// What adding `id` to the history does: nothing if unknown in the library;
/// else any prior entry with that identity is removed, the track is inserted
/// at the front, and the oldest entry is evicted when the bound is exceeded.
pub open spec fn add_history_spec(lib: Seq<TrackView>, hist: Seq<TrackView>, id: u128) -> (
    Seq<TrackView>,
    bool,
) {
    if !has_track_id(lib, id) {
        (hist, false)
    } else {
        let base = match find_index_of_id(hist, id) {
            Some(i) => hist.remove(i),
            None => hist,
        };
        let inserted = seq![track_with_id(lib, id)] + base;
        if inserted.len() > MAX_HISTORY {
            (inserted.drop_last(), true)
        } else {
            (inserted, true)
        }
    }
}

/// In-memory owner of the canonical track collection plus the favorite and
/// history views derived from it.
///
/// Replacing the library does not re-validate favorites or history, so
/// entries referencing tracks no longer in the canonical collection are
/// deliberately kept (stale entries are preferred over silently losing the
/// user's lists).
pub struct LibraryState {
    library: Vec<AlbumInfo>,
    favorites: Vec<AlbumInfo>,
    history: Vec<AlbumInfo>,
    events: Vec<LibraryEvent>,
}

impl LibraryState {
    /// The canonical library, as track views.
    pub closed spec fn lib(&self) -> Seq<TrackView> {
        self.library.deep_view()
    }

    /// The favorites view, as track views.
    pub closed spec fn favs(&self) -> Seq<TrackView> {
        self.favorites.deep_view()
    }

    /// The history view, most recent first, as track views.
    pub closed spec fn hist(&self) -> Seq<TrackView> {
        self.history.deep_view()
    }

    /// The pending notification events, oldest first.
    pub closed spec fn evs(&self) -> Seq<LibraryEvent> {
        self.events@
    }

    /// Well-formedness: each identity appears at most once per derived view,
    /// and the history respects its bound.
    pub open spec fn wf(&self) -> bool {
        &&& distinct_ids(self.favs())
        &&& distinct_ids(self.hist())
        &&& self.hist().len() <= MAX_HISTORY
    }

    /// Builds the store from a library snapshot and the saved favorite and
    /// history identity lists. Identities unknown to the library are silently
    /// discarded, as are repeats of an identity already taken; the history is
    /// capped at its bound.
    pub fn new(library: Vec<AlbumInfo>, favorite_ids: Vec<u128>, history_ids: Vec<u128>) -> (r:
        Self)
        ensures
            r.wf(),
            r.lib() == library.deep_view(),
            r.favs() == build_list(library.deep_view(), favorite_ids@),
            r.hist() == cap_history(build_list(library.deep_view(), history_ids@)),
            r.evs() == Seq::<LibraryEvent>::empty(),
    {
        let favorites = Self::collect_known(&library, &favorite_ids);
        let mut history = Self::collect_known(&library, &history_ids);
        proof {
            lemma_build_list_distinct(library.deep_view(), favorite_ids@);
            lemma_build_list_distinct(library.deep_view(), history_ids@);
        }
        if history.len() > MAX_HISTORY {
            history.truncate(MAX_HISTORY);
            proof {
                let full = build_list(library.deep_view(), history_ids@);
                assert(history.deep_view() =~= cap_history(full));
                assert forall|i: int, j: int|
                    0 <= i < j < history.deep_view().len() implies history.deep_view()[i].id
                    != history.deep_view()[j].id by {
                    assert(history.deep_view()[i] == full[i]);
                    assert(history.deep_view()[j] == full[j]);
                }
            }
        }
        let r = LibraryState { library, favorites, history, events: Vec::new() };
        proof {
            assert(r.evs() =~= Seq::<LibraryEvent>::empty());
        }
        r
    }

    /// Walks a saved identity list and keeps the first library track for each
    /// identity that the library knows and that was not already taken.
    fn collect_known(library: &Vec<AlbumInfo>, ids: &Vec<u128>) -> (r: Vec<AlbumInfo>)
        ensures
            r.deep_view() == build_list(library.deep_view(), ids@),
    {
        let ghost lib = library.deep_view();
        let mut out: Vec<AlbumInfo> = Vec::new();
        let n: usize = ids.len();
        let mut i: usize = 0;
        while i < n
            invariant
                n == ids.len(),
                lib == library.deep_view(),
                0 <= i <= n,
                out.deep_view() == build_list(lib, ids@.take(i as int)),
            decreases n - i,
        {
            let id = ids[i];
            proof {
                assert(ids@.take(i as int + 1).drop_last() =~= ids@.take(i as int));
                assert(ids@.take(i as int + 1).last() == ids@[i as int]);
                lemma_find_index_of_id(lib, id);
                lemma_find_index_of_id(out.deep_view(), id);
            }
            let in_lib = find_track_index(library, id);
            let taken = find_track_index(&out, id);
            match (in_lib, taken) {
                (Some(idx), None) => {
                    let item = library[idx].clone();
                    out.push(item);
                    proof {
                        assert(out.deep_view() =~= build_list(lib, ids@.take(i as int + 1)));
                    }
                },
                _ => {
                    proof {
                        assert(out.deep_view() =~= build_list(lib, ids@.take(i as int + 1)));
                    }
                },
            }
            i = i + 1;
        }
        proof {
            assert(ids@.take(n as int) =~= ids@);
        }
        out
    }

    /// The canonical library.
    pub fn library(&self) -> (r: &Vec<AlbumInfo>)
        ensures
            r.deep_view() == self.lib(),
    {
        &self.library
    }

    /// The favorites view.
    pub fn favorites(&self) -> (r: &Vec<AlbumInfo>)
        ensures
            r.deep_view() == self.favs(),
    {
        &self.favorites
    }

    /// The history view, most recent first.
    pub fn history(&self) -> (r: &Vec<AlbumInfo>)
        ensures
            r.deep_view() == self.hist(),
    {
        &self.history
    }

    /// Drains the pending notification events, oldest first.
    pub fn take_events(&mut self) -> (r: Vec<LibraryEvent>)
        ensures
            r@ == old(self).evs(),
            final(self).evs() == Seq::<LibraryEvent>::empty(),
            final(self).lib() == old(self).lib(),
            final(self).favs() == old(self).favs(),
            final(self).hist() == old(self).hist(),
            old(self).wf() ==> final(self).wf(),
    {
        let r = self.events.clone();
        proof {
            assert(r@ =~= self.events@);
        }
        self.events.clear();
        proof {
            assert(self.evs() =~= Seq::<LibraryEvent>::empty());
        }
        r
    }

    /// Looks a track up by identity in the canonical library.
    pub fn get_by_id(&self, id: u128) -> (r: Option<&AlbumInfo>)
        ensures
            match r {
                Some(t) => has_track_id(self.lib(), id) && t@ == track_with_id(self.lib(), id),
                None => !has_track_id(self.lib(), id),
            },
    {
        proof {
            lemma_find_index_of_id(self.lib(), id);
        }
        match find_track_index(&self.library, id) {
            Some(i) => Some(&self.library[i]),
            None => None,
        }
    }

    /// Whether the identity is currently favorited.
    pub fn is_favorite(&self, id: u128) -> (r: bool)
        ensures
            r == has_track_id(self.favs(), id),
    {
        proof {
            lemma_find_index_of_id(self.favs(), id);
        }
        find_track_index(&self.favorites, id).is_some()
    }

    /// Adds the identity to the favorites. Returns false (and changes
    /// nothing) if it is already favorited or unknown in the library;
    /// otherwise appends a copy of the library's track, emits
    /// `FavoriteAdded`, and returns true.
    pub fn add_to_favorites(&mut self, id: u128) -> (r: bool)
        requires
            old(self).wf(),
        ensures
            final(self).wf(),
            final(self).favs() == add_favorite_spec(old(self).lib(), old(self).favs(), id).0,
            r == add_favorite_spec(old(self).lib(), old(self).favs(), id).1,
            final(self).lib() == old(self).lib(),
            final(self).hist() == old(self).hist(),
            final(self).evs() == if r {
                old(self).evs().push(LibraryEvent::FavoriteAdded(id))
            } else {
                old(self).evs()
            },
    {
        proof {
            lemma_find_index_of_id(self.favs(), id);
            lemma_find_index_of_id(self.lib(), id);
        }
        if find_track_index(&self.favorites, id).is_some() {
            return false;
        }
        match find_track_index(&self.library, id) {
            Some(i) => {
                let ghost old_favs = self.favs();
                let item = self.library[i].clone();
                self.favorites.push(item);
                self.events.push(LibraryEvent::FavoriteAdded(id));
                proof {
                    assert(self.favs() =~= old_favs.push(track_with_id(old(self).lib(), id)));
                    assert(self.evs() =~= old(self).evs().push(LibraryEvent::FavoriteAdded(id)));
                }
                true
            },
            None => false,
        }
    }

    /// Removes the identity from the favorites. Returns false (and changes
    /// nothing) if it is not favorited; otherwise removes its entry, emits
    /// `FavoriteRemoved`, and returns true.
    pub fn remove_from_favorites(&mut self, id: u128) -> (r: bool)
        requires
            old(self).wf(),
        ensures
            final(self).wf(),
            final(self).favs() == remove_favorite_spec(old(self).favs(), id).0,
            r == remove_favorite_spec(old(self).favs(), id).1,
            final(self).lib() == old(self).lib(),
            final(self).hist() == old(self).hist(),
            final(self).evs() == if r {
                old(self).evs().push(LibraryEvent::FavoriteRemoved(id))
            } else {
                old(self).evs()
            },
    {
        proof {
            lemma_find_index_of_id(self.favs(), id);
        }
        match find_track_index(&self.favorites, id) {
            Some(i) => {
                let ghost old_favs = self.favs();
                self.favorites.remove(i);
                self.events.push(LibraryEvent::FavoriteRemoved(id));
                proof {
                    assert(self.favs() =~= old_favs.remove(i as int));
                    lemma_remove_keeps_distinct(old_favs, i as int);
                    assert(self.evs() =~= old(self).evs().push(LibraryEvent::FavoriteRemoved(id)));
                }
                true
            },
            None => false,
        }
    }

    /// Adds the identity to the favorites if it is not favorited, and removes
    /// it otherwise. Returns what the chosen operation returned.
    pub fn toggle_favorite(&mut self, id: u128) -> (r: bool)
        requires
            old(self).wf(),
        ensures
            final(self).wf(),
            has_track_id(old(self).favs(), id) ==> {
                &&& final(self).favs() == remove_favorite_spec(old(self).favs(), id).0
                &&& r == remove_favorite_spec(old(self).favs(), id).1
                &&& final(self).evs() == old(self).evs().push(LibraryEvent::FavoriteRemoved(id))
            },
            !has_track_id(old(self).favs(), id) ==> {
                &&& final(self).favs() == add_favorite_spec(old(self).lib(), old(self).favs(), id).0
                &&& r == add_favorite_spec(old(self).lib(), old(self).favs(), id).1
                &&& final(self).evs() == if r {
                    old(self).evs().push(LibraryEvent::FavoriteAdded(id))
                } else {
                    old(self).evs()
                }
            },
            final(self).lib() == old(self).lib(),
            final(self).hist() == old(self).hist(),
    {
        proof {
            lemma_find_index_of_id(self.favs(), id);
        }
        if self.is_favorite(id) {
            self.remove_from_favorites(id)
        } else {
            self.add_to_favorites(id)
        }
    }

    /// Adds the identity to the history. Returns false (and changes nothing)
    /// if it is unknown in the library; otherwise moves or inserts the track
    /// to the front, evicts the oldest entry when the bound is exceeded,
    /// emits `HistoryAdded`, and returns true.
    pub fn add_to_history(&mut self, id: u128) -> (r: bool)
        requires
            old(self).wf(),
        ensures
            final(self).wf(),
            final(self).hist() == add_history_spec(old(self).lib(), old(self).hist(), id).0,
            r == add_history_spec(old(self).lib(), old(self).hist(), id).1,
            final(self).lib() == old(self).lib(),
            final(self).favs() == old(self).favs(),
            final(self).evs() == if r {
                old(self).evs().push(LibraryEvent::HistoryAdded(id))
            } else {
                old(self).evs()
            },
    {
        proof {
            lemma_find_index_of_id(self.lib(), id);
            lemma_find_index_of_id(self.hist(), id);
        }
        let in_lib = find_track_index(&self.library, id);
        match in_lib {
            None => false,
            Some(lib_i) => {
                let ghost old_hist = self.hist();
                let ghost t = track_with_id(old(self).lib(), id);
                let item = self.library[lib_i].clone();
                match find_track_index(&self.history, id) {
                    Some(h) => {
                        self.history.remove(h);
                        proof {
                            lemma_remove_keeps_distinct(old_hist, h as int);
                            assert(self.hist() =~= old_hist.remove(h as int));
                        }
                    },
                    None => {},
                }
                let ghost base = self.hist();
                self.history.insert(0, item);
                proof {
                    assert(self.hist() =~= seq![t] + base);
                    assert(!has_track_id(base, id));
                }
                if self.history.len() > MAX_HISTORY {
                    let ghost inserted = self.hist();
                    self.history.pop();
                    proof {
                        assert(self.hist() =~= inserted.drop_last());
                    }
                }
                self.events.push(LibraryEvent::HistoryAdded(id));
                proof {
                    assert(self.evs() =~= old(self).evs().push(LibraryEvent::HistoryAdded(id)));
                    let post = add_history_spec(old(self).lib(), old_hist, id).0;
                    assert(self.hist() =~= post);
                    assert forall|a: int, b: int|
                        0 <= a < b < self.hist().len() implies self.hist()[a].id
                        != self.hist()[b].id by {
                        assert(self.hist()[a] == (seq![t] + base)[a]);
                        assert(self.hist()[b] == (seq![t] + base)[b]);
                    }
                }
                true
            },
        }
    }

    /// Empties the history view. No dedicated event exists for this; the
    /// embedding treats the call itself as the change signal.
    pub fn clear_history(&mut self)
        requires
            old(self).wf(),
        ensures
            final(self).wf(),
            final(self).hist() == Seq::<TrackView>::empty(),
            final(self).lib() == old(self).lib(),
            final(self).favs() == old(self).favs(),
            final(self).evs() == old(self).evs(),
    {
        self.history.clear();
        proof {
            assert(self.hist() =~= Seq::<TrackView>::empty());
        }
    }

    /// Replaces the canonical library wholesale and emits `LibraryUpdated`.
    /// Favorites and history are left as they are (see the type's
    /// documentation for the staleness policy).
    pub fn update_library(&mut self, new_tracks: Vec<AlbumInfo>)
        requires
            old(self).wf(),
        ensures
            final(self).wf(),
            final(self).lib() == new_tracks.deep_view(),
            final(self).favs() == old(self).favs(),
            final(self).hist() == old(self).hist(),
            final(self).evs() == old(self).evs().push(LibraryEvent::LibraryUpdated),
    {
        self.library = new_tracks;
        self.events.push(LibraryEvent::LibraryUpdated);
        proof {
            assert(self.evs() =~= old(self).evs().push(LibraryEvent::LibraryUpdated));
        }
    }
}

/// Adding an identity known to the library twice in succession leaves the
/// history with exactly one entry for it, at the front: the second addition
/// changes nothing at all.
pub proof fn lemma_history_readd(lib: Seq<TrackView>, hist: Seq<TrackView>, id: u128)
    requires
        distinct_ids(hist),
        hist.len() <= MAX_HISTORY,
        has_track_id(lib, id),
    ensures
        ({
            let h1 = add_history_spec(lib, hist, id).0;
            let h2 = add_history_spec(lib, h1, id).0;
            &&& h1.len() > 0
            &&& h1[0].id == id
            &&& forall|i: int| 0 < i < h1.len() ==> h1[i].id != id
            &&& h2 == h1
        }),
{
    lemma_find_index_of_id(lib, id);
    lemma_find_index_of_id(hist, id);
    let t = track_with_id(lib, id);
    assert(t.id == id);
    let base = match find_index_of_id(hist, id) {
        Some(i) => hist.remove(i),
        None => hist,
    };
    match find_index_of_id(hist, id) {
        Some(i) => {
            lemma_remove_keeps_distinct(hist, i);
        },
        None => {},
    }
    assert(!has_track_id(base, id));
    let inserted = seq![t] + base;
    let h1 = add_history_spec(lib, hist, id).0;
    assert(h1[0] == t);
    assert(forall|i: int| 0 < i < h1.len() ==> h1[i] == base[i - 1]);
    assert forall|i: int| 0 < i < h1.len() implies h1[i].id != id by {
        assert(0 <= i - 1 < base.len() && base[i - 1].id == h1[i].id);
    }
    lemma_find_index_of_id(h1, id);
    match find_index_of_id(h1, id) {
        Some(j) => {
            assert(j == 0);
            assert(seq![t] + h1.remove(0) =~= h1);
        },
        None => {
            assert(has_track_id(h1, id));
        },
    }
}

/// The history bound is invariant under insertion, and inserting a fresh
/// identity while the history is full evicts exactly the oldest entry.
pub proof fn lemma_history_bound(lib: Seq<TrackView>, hist: Seq<TrackView>, id: u128)
    requires
        distinct_ids(hist),
        hist.len() <= MAX_HISTORY,
    ensures
        add_history_spec(lib, hist, id).0.len() <= MAX_HISTORY,
        (hist.len() == MAX_HISTORY && has_track_id(lib, id) && !has_track_id(hist, id))
            ==> add_history_spec(lib, hist, id).0 == (seq![track_with_id(lib, id)]
            + hist).drop_last(),
{
    lemma_find_index_of_id(hist, id);
}

/// A list rebuilt from saved identities never repeats an identity.
pub proof fn lemma_build_list_distinct(lib: Seq<TrackView>, ids: Seq<u128>)
    ensures
        distinct_ids(build_list(lib, ids)),
    decreases ids.len(),
{
    if ids.len() > 0 {
        lemma_build_list_distinct(lib, ids.drop_last());
        let prev = build_list(lib, ids.drop_last());
        let id = ids.last();
        if has_track_id(lib, id) && !has_track_id(prev, id) {
            let t = track_with_id(lib, id);
            lemma_find_index_of_id(lib, id);
            assert(t.id == id);
            let cur = prev.push(t);
            assert forall|i: int, j: int| 0 <= i < j < cur.len() implies cur[i].id != cur[j].id by {
                if j == cur.len() - 1 {
                    assert(cur[i] == prev[i]);
                    assert(!has_track_id(prev, id));
                }
            }
        }
    }
}

} // verus!
