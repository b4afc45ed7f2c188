use zotu::library::{LibraryEvent, LibraryState};
use zotu::track::AlbumInfo;

fn mk(id: u128, title: &str, artist: &str, album: &str) -> AlbumInfo {
    AlbumInfo::new(
        id,
        title.to_string(),
        artist.to_string(),
        album.to_string(),
        120,
        format!("/music/{}.mp3", id),
        None,
        None,
    )
}

fn abc_library() -> Vec<AlbumInfo> {
    vec![mk(1, "Alpha", "Ann", "First"), mk(2, "Beta", "Bob", "Second"), mk(
        3,
        "Gamma",
        "Cay",
        "Third",
    )]
}

#[test]
fn favorite_membership() {
    let state = LibraryState::new(abc_library(), vec![2], vec![]);
    assert!(state.is_favorite(2));
    assert!(!state.is_favorite(1));
    assert!(!state.is_favorite(999));
    assert_eq!(state.favorites().len(), 1);
    assert_eq!(state.favorites()[0].id, 2);
}

#[test]
fn new_discards_unknown_and_repeated_ids() {
    let state = LibraryState::new(abc_library(), vec![7, 2, 2, 3], vec![9, 1, 1]);
    let fav_ids: Vec<u128> = state.favorites().iter().map(|t| t.id).collect();
    assert_eq!(fav_ids, vec![2, 3]);
    let hist_ids: Vec<u128> = state.history().iter().map(|t| t.id).collect();
    assert_eq!(hist_ids, vec![1]);
}

#[test]
fn add_to_favorites_appends_once() {
    let mut state = LibraryState::new(abc_library(), vec![], vec![]);
    assert!(state.add_to_favorites(1));
    assert!(!state.add_to_favorites(1));
    assert!(!state.add_to_favorites(42));
    let fav_ids: Vec<u128> = state.favorites().iter().map(|t| t.id).collect();
    assert_eq!(fav_ids, vec![1]);
    let events = state.take_events();
    assert_eq!(events, vec![LibraryEvent::FavoriteAdded(1)]);
    assert!(state.take_events().is_empty());
}

#[test]
fn remove_from_favorites() {
    let mut state = LibraryState::new(abc_library(), vec![1, 3], vec![]);
    assert!(state.remove_from_favorites(1));
    assert!(!state.remove_from_favorites(1));
    let fav_ids: Vec<u128> = state.favorites().iter().map(|t| t.id).collect();
    assert_eq!(fav_ids, vec![3]);
    assert_eq!(state.take_events(), vec![LibraryEvent::FavoriteRemoved(1)]);
}

#[test]
fn toggle_favorite_flips_membership() {
    let mut state = LibraryState::new(abc_library(), vec![], vec![]);
    assert!(state.toggle_favorite(2));
    assert!(state.is_favorite(2));
    assert!(state.toggle_favorite(2));
    assert!(!state.is_favorite(2));
    assert!(!state.toggle_favorite(42));
    assert_eq!(
        state.take_events(),
        vec![LibraryEvent::FavoriteAdded(2), LibraryEvent::FavoriteRemoved(2)],
    );
}

#[test]
fn history_readd_moves_to_front_without_duplicate() {
    let mut state = LibraryState::new(abc_library(), vec![], vec![]);
    assert!(state.add_to_history(1));
    assert!(state.add_to_history(2));
    assert!(state.add_to_history(1));
    assert!(state.add_to_history(1));
    let hist_ids: Vec<u128> = state.history().iter().map(|t| t.id).collect();
    assert_eq!(hist_ids, vec![1, 2]);
}

#[test]
fn history_unknown_id_is_noop() {
    let mut state = LibraryState::new(abc_library(), vec![], vec![]);
    assert!(!state.add_to_history(42));
    assert!(state.history().is_empty());
    assert!(state.take_events().is_empty());
}

#[test]
fn history_bound_evicts_oldest() {
    let mut library = Vec::new();
    for id in 1..=101u128 {
        library.push(mk(id, "T", "A", "L"));
    }
    let mut state = LibraryState::new(library, vec![], vec![]);
    for id in 1..=100u128 {
        assert!(state.add_to_history(id));
    }
    assert_eq!(state.history().len(), 100);
    assert_eq!(state.history()[0].id, 100);
    assert_eq!(state.history()[99].id, 1);
    assert!(state.add_to_history(101));
    assert_eq!(state.history().len(), 100);
    assert_eq!(state.history()[0].id, 101);
    assert_eq!(state.history()[99].id, 2);
    let present_1 = state.history().iter().any(|t| t.id == 1);
    assert!(!present_1);
}

#[test]
fn clear_history_empties() {
    let mut state = LibraryState::new(abc_library(), vec![], vec![1, 2]);
    state.clear_history();
    assert!(state.history().is_empty());
    assert!(state.take_events().is_empty());
}

#[test]
fn update_library_keeps_stale_favorites() {
    let mut state = LibraryState::new(abc_library(), vec![2], vec![3]);
    state.update_library(vec![mk(9, "New", "N", "Nine")]);
    assert_eq!(state.library().len(), 1);
    assert_eq!(state.library()[0].id, 9);
    assert_eq!(state.favorites().len(), 1);
    assert_eq!(state.favorites()[0].id, 2);
    assert_eq!(state.history().len(), 1);
    assert_eq!(state.take_events(), vec![LibraryEvent::LibraryUpdated]);
    assert!(state.get_by_id(2).is_none());
}

#[test]
fn get_by_id_finds_library_tracks() {
    let state = LibraryState::new(abc_library(), vec![], vec![]);
    let t = state.get_by_id(2).expect("track 2 is in the library");
    assert_eq!(t.title(), "Beta");
    assert_eq!(t.artist(), "Bob");
    assert!(state.get_by_id(42).is_none());
}
