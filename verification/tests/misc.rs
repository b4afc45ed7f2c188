use zotu::assets::Assets;
use zotu::ids::track_id_from_bytes;
use zotu::library::LibraryState;
use zotu::search::{search_tracks, select_collection, ViewType};
use zotu::table::Table;
use zotu::track::{AlbumInfo, CurrentTrackInfo};
use zotu::util::format_duration;

fn mk(id: u128, title: &str, artist: &str, album: &str) -> AlbumInfo {
    AlbumInfo::new(
        id,
        title.to_string(),
        artist.to_string(),
        album.to_string(),
        245,
        format!("/music/{}.flac", id),
        Some(format!("/covers/{}.png", id)),
        Some(vec![1, 2, 3]),
    )
}

#[test]
fn format_duration_zero_pads_seconds() {
    assert_eq!(format_duration(0), "0:00");
    assert_eq!(format_duration(5), "0:05");
    assert_eq!(format_duration(59), "0:59");
    assert_eq!(format_duration(60), "1:00");
    assert_eq!(format_duration(65), "1:05");
    assert_eq!(format_duration(600), "10:00");
    assert_eq!(format_duration(3599), "59:59");
    assert_eq!(format_duration(3661), "61:01");
}

#[test]
fn table_names() {
    assert_eq!(Table::Library.as_str(), "library");
    assert_eq!(Table::Favorite.as_str(), "favorite");
    assert_eq!(Table::History.as_str(), "history");
}

#[test]
fn track_id_parses_big_endian_blobs() {
    assert_eq!(track_id_from_bytes(&[0u8; 16]), Some(0));
    let mut one = [0u8; 16];
    one[15] = 1;
    assert_eq!(track_id_from_bytes(&one), Some(1));
    let bytes: [u8; 16] = [
        0x12, 0x34, 0x56, 0x78, 0x9a, 0xbc, 0xde, 0xf0, 0x01, 0x02, 0x03, 0x04, 0x05, 0x06, 0x07,
        0x08,
    ];
    assert_eq!(track_id_from_bytes(&bytes), Some(u128::from_be_bytes(bytes)));
    assert_eq!(track_id_from_bytes(&[1u8; 15]), None);
    assert_eq!(track_id_from_bytes(&[1u8; 17]), None);
}

#[test]
fn search_is_case_insensitive_substring() {
    let items = vec![
        mk(1, "Nocturne in C", "Ava", "Night Pieces"),
        mk(2, "Sunrise", "BOLD ROCKERS", "Morning"),
        mk(3, "Quiet", "Ava", "Rock Classics"),
    ];
    let by_title = search_tracks(&items, "NOCTURNE");
    assert_eq!(by_title.len(), 1);
    assert_eq!(by_title[0].id, 1);
    let by_artist = search_tracks(&items, "rockers");
    assert_eq!(by_artist.len(), 1);
    assert_eq!(by_artist[0].id, 2);
    let by_album = search_tracks(&items, "Rock");
    let ids: Vec<u128> = by_album.iter().map(|t| t.id).collect();
    assert_eq!(ids, vec![2, 3]);
    assert!(search_tracks(&items, "waltz").is_empty());
    assert_eq!(search_tracks(&items, "").len(), 3);
}

#[test]
fn select_collection_picks_the_tagged_list() {
    let library = vec![mk(1, "A", "x", "y"), mk(2, "B", "x", "y")];
    let state = LibraryState::new(library, vec![2], vec![1]);
    let results = vec![mk(1, "A", "x", "y")];
    assert_eq!(select_collection(&state, ViewType::Library, &results).len(), 2);
    assert_eq!(select_collection(&state, ViewType::Favorite, &results)[0].id, 2);
    assert_eq!(select_collection(&state, ViewType::History, &results)[0].id, 1);
    assert_eq!(select_collection(&state, ViewType::Search, &results).len(), 1);
}

#[test]
fn track_getters_expose_the_record() {
    let t = mk(7, "Title", "Artist", "Album");
    assert_eq!(t.id(), 7);
    assert_eq!(t.title(), "Title");
    assert_eq!(t.artist(), "Artist");
    assert_eq!(t.album(), "Album");
    assert_eq!(t.duration(), 245);
    assert_eq!(t.path(), "/music/7.flac");
    assert_eq!(t.cover_path(), Some("/covers/7.png".to_string()));
    assert_eq!(t.cover_64(), Some(vec![1, 2, 3]));
    let copy = t.clone();
    assert_eq!(copy.id, t.id);
    assert_eq!(copy.title, t.title);
    assert_eq!(copy.cover_64, t.cover_64);
}

#[test]
fn current_track_info_snapshots_display_fields() {
    let t = mk(9, "Song", "Singer", "Record");
    let info = CurrentTrackInfo::from_album_info(&t);
    assert_eq!(info.id, 9);
    assert_eq!(info.title, "Song");
    assert_eq!(info.artist, "Singer");
    assert_eq!(info.album, "Record");
    assert_eq!(info.duration, 245);
    let copy = info.clone();
    assert_eq!(copy.id, info.id);
    assert_eq!(copy.title, info.title);
}

#[test]
fn assets_keep_their_base_directory() {
    let assets = Assets::new("./assets");
    assert_eq!(assets.base, "./assets");
}
