//! Simple substring search over the catalog: a query matches a track when,
//! after lowercasing both, it occurs in the title, the artist or the album.
//! Also the tagged variant that selects which catalog collection feeds a
//! playback ordering.

use vstd::prelude::*;
use vstd::string::StrSliceExecFns;

use crate::library::LibraryState;
use crate::track::{AlbumInfo, TrackView};

verus! {

/// The lowercase mapping of `str::to_lowercase`, named: it depends on the
/// characters alone.
pub uninterp spec fn lower_of(s: Seq<char>) -> Seq<char>;

/// Relies on `str::to_lowercase`: the returned string is the lowercase
/// equivalent of the input (per the Unicode property `Lowercase_Mapping`),
/// a function of the characters alone; an empty string stays empty.
#[verifier::external_body]
fn to_lowercase(s: &str) -> (r: String)
    ensures
        r@ == lower_of(s@),
        s@.len() == 0 ==> r@.len() == 0,
{
    s.to_lowercase()
}

/// `needle` occurs in `hay` starting at position `i`.
pub open spec fn matches_at(hay: Seq<char>, needle: Seq<char>, i: int) -> bool {
    0 <= i && i + needle.len() <= hay.len() && hay.subrange(i, i + needle.len()) == needle
}

/// `needle` occurs somewhere in `hay`.
pub open spec fn contains_seq(hay: Seq<char>, needle: Seq<char>) -> bool {
    exists|i: int| matches_at(hay, needle, i)
}

/// A track matches a lowercased query when the query occurs in the lowercase
/// of its title, artist or album.
pub open spec fn track_matches(t: TrackView, q: Seq<char>) -> bool {
    ||| contains_seq(lower_of(t.title), q)
    ||| contains_seq(lower_of(t.artist), q)
    ||| contains_seq(lower_of(t.album), q)
}

/// The predicate "this track matches the lowercased query `q`".
pub open spec fn match_pred(q: Seq<char>) -> spec_fn(TrackView) -> bool {
    |t: TrackView| track_matches(t, q)
}

/// The characters of a string, one by one.
fn chars_vec(s: &str) -> (r: Vec<char>)
    ensures
        r@ == s@,
{
    let n: usize = s.unicode_len();
    let mut out: Vec<char> = Vec::new();
    let mut i: usize = 0;
    while i < n
        invariant
            n as nat == s@.len(),
            0 <= i <= n,
            out@ == s@.take(i as int),
        decreases n - i,
    {
        let c = s.get_char(i);
        out.push(c);
        proof {
            assert(out@ =~= s@.take(i as int + 1));
        }
        i = i + 1;
    }
    proof {
        assert(s@.take(n as int) =~= s@);
    }
    out
}

/// Whether `needle` occurs in `hay` starting at `i`.
fn equals_at(hay: &Vec<char>, needle: &Vec<char>, i: usize) -> (r: bool)
    requires
        i + needle@.len() <= hay@.len(),
    ensures
        r == matches_at(hay@, needle@, i as int),
{
    let hay_len: usize = hay.len();
    let m: usize = needle.len();
    let mut j: usize = 0;
    while j < m
        invariant
            m == needle@.len(),
            hay_len == hay@.len(),
            i + m <= hay_len,
            0 <= j <= m,
            forall|k: int| 0 <= k < j ==> hay@[i + k] == needle@[k],
        decreases m - j,
    {
        if hay[i + j] != needle[j] {
            proof {
                assert forall|p: int| !matches_at(hay@, needle@, p) || p != i as int by {
                    if p == i as int && matches_at(hay@, needle@, p) {
                        assert(hay@.subrange(p, p + m)[j as int] == hay@[i + j]);
                    }
                }
            }
            return false;
        }
        j = j + 1;
    }
    proof {
        assert(hay@.subrange(i as int, i as int + m) =~= needle@);
    }
    true
}

/// Whether `needle` occurs anywhere in `hay`.
fn contains_chars(hay: &Vec<char>, needle: &Vec<char>) -> (r: bool)
    ensures
        r == contains_seq(hay@, needle@),
{
    let m: usize = needle.len();
    let n: usize = hay.len();
    if m > n {
        proof {
            assert forall|p: int| !matches_at(hay@, needle@, p) by {}
        }
        return false;
    }
    if m == 0 {
        proof {
            assert(hay@.subrange(0, 0) =~= needle@);
            assert(matches_at(hay@, needle@, 0));
        }
        return true;
    }
    let mut i: usize = 0;
    while i <= n - m
        invariant
            m == needle@.len(),
            n == hay@.len(),
            1 <= m <= n,
            0 <= i <= n - m + 1,
            forall|k: int| 0 <= k < i ==> !matches_at(hay@, needle@, k),
        decreases n - m + 1 - i,
    {
        if equals_at(hay, needle, i) {
            return true;
        }
        i = i + 1;
    }
    proof {
        assert forall|p: int| !matches_at(hay@, needle@, p) by {
            if p < i {
            } else {
                assert(p > (n - m) as int ==> p + m > n);
            }
        }
    }
    false
}

/// Filters the tracks down to those matching `query`: case-insensitive
/// substring search over title, artist and album, keeping the catalog order.
pub fn search_tracks(items: &Vec<AlbumInfo>, query: &str) -> (r: Vec<AlbumInfo>)
    ensures
        r.deep_view() == items.deep_view().filter(match_pred(lower_of(query@))),
{
    let ghost qv = lower_of(query@);
    let ghost s = items.deep_view();
    let lowered = to_lowercase(query);
    let needle = chars_vec(lowered.as_str());
    let mut out: Vec<AlbumInfo> = Vec::new();
    let n: usize = items.len();
    let mut i: usize = 0;
    proof {
        reveal(Seq::filter);
        assert(out.deep_view() =~= s.take(0).filter(match_pred(qv)));
    }
    while i < n
        invariant
            n == items.len(),
            s == items.deep_view(),
            needle@ == qv,
            0 <= i <= n,
            out.deep_view() == s.take(i as int).filter(match_pred(qv)),
        decreases n - i,
    {
        let title_lower = to_lowercase(items[i].title.as_str());
        let title_chars = chars_vec(title_lower.as_str());
        let mut matched = contains_chars(&title_chars, &needle);
        if !matched {
            let artist_lower = to_lowercase(items[i].artist.as_str());
            let artist_chars = chars_vec(artist_lower.as_str());
            matched = contains_chars(&artist_chars, &needle);
        }
        if !matched {
            let album_lower = to_lowercase(items[i].album.as_str());
            let album_chars = chars_vec(album_lower.as_str());
            matched = contains_chars(&album_chars, &needle);
        }
        proof {
            assert(matched == track_matches(s[i as int], qv));
        }
        if matched {
            let item = items[i].clone();
            out.push(item);
        }
        proof {
            reveal(Seq::filter);
            assert(s.take(i as int + 1).drop_last() =~= s.take(i as int));
            assert(s.take(i as int + 1).last() == s[i as int]);
            assert(out.deep_view() =~= s.take(i as int + 1).filter(match_pred(qv)));
        }
        i = i + 1;
    }
    proof {
        assert(s.take(n as int) =~= s);
    }
    out
}

/// Which catalog collection feeds the playback ordering: the canonical
/// library, the favorites, the history, or an ad hoc search result.
#[derive(Clone, Copy, PartialEq, Eq, Structural, Debug)]
pub enum ViewType {
    Library,
    Favorite,
    History,
    Search,
}

/// The collection a view selects from the catalog store (search results are
/// supplied by the caller, as the store does not hold them).
pub fn select_collection<'a>(
    state: &'a LibraryState,
    view: ViewType,
    search_results: &'a Vec<AlbumInfo>,
) -> (r: &'a Vec<AlbumInfo>)
    ensures
        r.deep_view() == match view {
            ViewType::Library => state.lib(),
            ViewType::Favorite => state.favs(),
            ViewType::History => state.hist(),
            ViewType::Search => search_results.deep_view(),
        },
{
    match view {
        ViewType::Library => state.library(),
        ViewType::Favorite => state.favorites(),
        ViewType::History => state.history(),
        ViewType::Search => search_results,
    }
}

} // verus!
