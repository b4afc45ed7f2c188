//! The track record: an immutable metadata value for one audio file, plus the
//! denormalized snapshot shown while a track plays, and the spec-level helpers
//! for sequences of tracks keyed by identity.

use vstd::prelude::*;

use crate::find::{find_index_by, lemma_find_index_by, lemma_find_index_by_skip};

verus! {

/// Mathematical view of a track: identity and metadata as plain values.
#[verifier::ext_equal]
pub ghost struct TrackView {
    pub id: u128,
    pub title: Seq<char>,
    pub artist: Seq<char>,
    pub album: Seq<char>,
    pub duration: u64,
    pub path: Seq<char>,
    pub cover_path: Option<Seq<char>>,
    pub cover_64: Option<Seq<u8>>,
}

/// Immutable metadata record for one audio file: title, artist, album, the
/// duration in seconds, the file location, and an optional cover reference
/// (a path to the stored cover image and a small pre-encoded thumbnail).
/// Created once, never mutated.
#[derive(Debug)]
pub struct AlbumInfo {
    pub id: u128,
    pub title: String,
    pub artist: String,
    pub album: String,
    pub duration: u64,
    pub path: String,
    pub cover_path: Option<String>,
    pub cover_64: Option<Vec<u8>>,
}

impl View for AlbumInfo {
    type V = TrackView;

    open spec fn view(&self) -> TrackView {
        TrackView {
            id: self.id,
            title: self.title@,
            artist: self.artist@,
            album: self.album@,
            duration: self.duration,
            path: self.path@,
            cover_path: self.cover_path.deep_view(),
            cover_64: self.cover_64.deep_view(),
        }
    }
}

impl DeepView for AlbumInfo {
    type V = TrackView;

    open spec fn deep_view(&self) -> TrackView {
        self.view()
    }
}

impl Clone for AlbumInfo {
    fn clone(&self) -> (r: Self)
        ensures
            r@ == self@,
    {
        let cover_path: Option<String> = match &self.cover_path {
            Some(p) => Some(p.clone()),
            None => None,
        };
        let cover_64: Option<Vec<u8>> = match &self.cover_64 {
            Some(b) => {
                let c = b.clone();
                proof {
                    assert(c@ =~= b@);
                }
                Some(c)
            },
            None => None,
        };
        let r = AlbumInfo {
            id: self.id,
            title: self.title.clone(),
            artist: self.artist.clone(),
            album: self.album.clone(),
            duration: self.duration,
            path: self.path.clone(),
            cover_path,
            cover_64,
        };
        proof {
            assert(r@ =~= self@);
        }
        r
    }
}

impl AlbumInfo {
    /// Builds a track record from its parts.
    pub fn new(
        id: u128,
        title: String,
        artist: String,
        album: String,
        duration: u64,
        path: String,
        cover_path: Option<String>,
        cover_64: Option<Vec<u8>>,
    ) -> (r: Self)
        ensures
            r@ == (TrackView {
                id,
                title: title@,
                artist: artist@,
                album: album@,
                duration,
                path: path@,
                cover_path: cover_path.deep_view(),
                cover_64: cover_64.deep_view(),
            }),
    {
        AlbumInfo { id, title, artist, album, duration, path, cover_path, cover_64 }
    }

    pub fn title(&self) -> (r: String)
        ensures
            r@ == self@.title,
    {
        self.title.clone()
    }

    pub fn artist(&self) -> (r: String)
        ensures
            r@ == self@.artist,
    {
        self.artist.clone()
    }

    pub fn album(&self) -> (r: String)
        ensures
            r@ == self@.album,
    {
        self.album.clone()
    }

    /// Duration in seconds.
    pub fn duration(&self) -> (r: u64)
        ensures
            r == self@.duration,
    {
        self.duration
    }

    pub fn path(&self) -> (r: String)
        ensures
            r@ == self@.path,
    {
        self.path.clone()
    }

    pub fn cover_path(&self) -> (r: Option<String>)
        ensures
            r.deep_view() == self@.cover_path,
    {
        match &self.cover_path {
            Some(p) => Some(p.clone()),
            None => None,
        }
    }

    pub fn cover_64(&self) -> (r: Option<Vec<u8>>)
        ensures
            r.deep_view() == self@.cover_64,
    {
        match &self.cover_64 {
            Some(b) => {
                let c = b.clone();
                proof {
                    assert(c@ =~= b@);
                    assert(Some(c).deep_view() =~= self@.cover_64);
                }
                Some(c)
            },
            None => None,
        }
    }

    pub fn id(&self) -> (r: u128)
        ensures
            r == self@.id,
    {
        self.id
    }
}

/// View of the snapshot shown while a track plays.
#[verifier::ext_equal]
pub ghost struct InfoView {
    pub title: Seq<char>,
    pub artist: Seq<char>,
    pub album: Seq<char>,
    pub duration: u64,
    pub id: u128,
}

/// The display fields of a track, as the controller snapshots them.
pub open spec fn info_of(t: TrackView) -> InfoView {
    InfoView { title: t.title, artist: t.artist, album: t.album, duration: t.duration, id: t.id }
}

/// Denormalized snapshot of the active track for display, decoupled from the
/// live catalog.
#[derive(Debug)]
pub struct CurrentTrackInfo {
    pub title: String,
    pub artist: String,
    pub album: String,
    pub duration: u64,
    pub id: u128,
}

impl View for CurrentTrackInfo {
    type V = InfoView;

    open spec fn view(&self) -> InfoView {
        InfoView {
            title: self.title@,
            artist: self.artist@,
            album: self.album@,
            duration: self.duration,
            id: self.id,
        }
    }
}

impl Clone for CurrentTrackInfo {
    fn clone(&self) -> (r: Self)
        ensures
            r@ == self@,
    {
        let r = CurrentTrackInfo {
            title: self.title.clone(),
            artist: self.artist.clone(),
            album: self.album.clone(),
            duration: self.duration,
            id: self.id,
        };
        proof {
            assert(r@ =~= self@);
        }
        r
    }
}

impl CurrentTrackInfo {
    /// Snapshots the display fields of a track.
    pub fn from_album_info(info: &AlbumInfo) -> (r: Self)
        ensures
            r@ == info_of(info@),
    {
        let r = CurrentTrackInfo {
            title: info.title(),
            artist: info.artist(),
            album: info.album(),
            duration: info.duration(),
            id: info.id(),
        };
        proof {
            assert(r@ =~= info_of(info@));
        }
        r
    }
}

/// The predicate "this track has identity `id`".
pub open spec fn has_id_pred(id: u128) -> spec_fn(TrackView) -> bool {
    |t: TrackView| t.id == id
}

/// Whether some track in `s` has identity `id`.
pub open spec fn has_track_id(s: Seq<TrackView>, id: u128) -> bool {
    exists|i: int| 0 <= i < s.len() && s[i].id == id
}

/// Index of the first track in `s` with identity `id`.
pub open spec fn find_index_of_id(s: Seq<TrackView>, id: u128) -> Option<int> {
    find_index_by(s, has_id_pred(id))
}

/// A search by identity succeeds exactly when the identity occurs.
pub proof fn lemma_find_index_of_id(s: Seq<TrackView>, id: u128)
    ensures
        match find_index_of_id(s, id) {
            Some(i) => 0 <= i < s.len() && s[i].id == id && (forall|k: int|
                0 <= k < i ==> s[k].id != id),
            None => !has_track_id(s, id),
        },
        find_index_of_id(s, id) is Some <==> has_track_id(s, id),
{
    lemma_find_index_by(s, has_id_pred(id));
}

/// No two tracks in `s` share an identity.
pub open spec fn distinct_ids(s: Seq<TrackView>) -> bool {
    forall|i: int, j: int| 0 <= i < j < s.len() ==> s[i].id != s[j].id
}

/// Removing the only track with identity `id` keeps the identities distinct
/// and leaves none with that identity.
pub proof fn lemma_remove_keeps_distinct(s: Seq<TrackView>, i: int)
    requires
        distinct_ids(s),
        0 <= i < s.len(),
    ensures
        distinct_ids(s.remove(i)),
        !has_track_id(s.remove(i), s[i].id),
{
    let r = s.remove(i);
    assert forall|a: int, b: int| 0 <= a < b < r.len() implies r[a].id != r[b].id by {
        let a0 = if a < i { a } else { a + 1 };
        let b0 = if b < i { b } else { b + 1 };
        assert(r[a] == s[a0] && r[b] == s[b0]);
    }
    assert forall|a: int| 0 <= a < r.len() implies r[a].id != s[i].id by {
        let a0 = if a < i { a } else { a + 1 };
        assert(r[a] == s[a0]);
    }
}

/// Scans `items` for the first track with identity `id`.
pub fn find_track_index(items: &Vec<AlbumInfo>, id: u128) -> (r: Option<usize>)
    ensures
        match r {
            Some(i) => find_index_of_id(items.deep_view(), id) == Some(i as int),
            None => find_index_of_id(items.deep_view(), id) is None,
        },
{
    let ghost s = items.deep_view();
    let n: usize = items.len();
    let mut i: usize = 0;
    while i < n
        invariant
            n == items.len(),
            s == items.deep_view(),
            0 <= i <= n,
            forall|k: int| 0 <= k < i ==> s[k].id != id,
        decreases n - i,
    {
        if items[i].id == id {
            proof {
                lemma_find_index_by_skip(s, has_id_pred(id), i as int);
                assert(s.skip(i as int)[0] == s[i as int]);
                assert(find_index_by(s.skip(i as int), has_id_pred(id)) == Some(0int));
            }
            return Some(i);
        }
        proof {
            assert(s[i as int].id != id);
        }
        i = i + 1;
    }
    proof {
        lemma_find_index_by_skip(s, has_id_pred(id), n as int);
        assert(s.skip(n as int).len() == 0);
    }
    None
}

} // verus!
