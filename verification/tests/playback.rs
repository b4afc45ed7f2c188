use zotu::player::{AutoAction, LoopMode, PlayState, Player};
use zotu::playlist::PlayList;
use zotu::track::{AlbumInfo, CurrentTrackInfo};

fn mk(id: u128, title: &str) -> AlbumInfo {
    AlbumInfo::new(
        id,
        title.to_string(),
        "artist".to_string(),
        "album".to_string(),
        60,
        format!("/music/{}.mp3", id),
        None,
        None,
    )
}

fn three() -> Vec<AlbumInfo> {
    vec![mk(10, "one"), mk(20, "two"), mk(30, "three")]
}

#[test]
fn loop_mode_cycles() {
    assert_eq!(LoopMode::List.next(), LoopMode::Single);
    assert_eq!(LoopMode::Single.next(), LoopMode::Random);
    assert_eq!(LoopMode::Random.next(), LoopMode::List);
}

#[test]
fn fresh_player_is_idle() {
    let player = Player::new();
    assert!(!player.has_playlist());
    assert_eq!(player.playlist_len(), 0);
    assert!(player.current_track().is_none());
    assert!(player.is_paused());
    assert!(!player.is_playing());
    assert_eq!(player.loop_mode(), LoopMode::List);
    assert!(!player.can_go_back());
}

#[test]
fn play_pause_toggle_need_a_track() {
    let mut player = Player::new();
    assert!(!player.play());
    assert!(!player.pause());
    assert!(player.toggle_play().is_none());
    player.begin_playback(CurrentTrackInfo::from_album_info(&mk(10, "one")));
    assert!(player.is_playing());
    assert_eq!(player.toggle_play(), Some(PlayState::Paused));
    assert!(player.is_paused());
    assert_eq!(player.toggle_play(), Some(PlayState::Play));
    assert_eq!(player.play_state(), PlayState::Play);
    assert!(player.pause());
    assert!(player.is_paused());
    assert!(player.play());
    assert!(player.is_playing());
}

#[test]
fn list_next_wraps_to_front() {
    let mut player = Player::new();
    player.set_playlist(three());
    assert!(player.has_playlist());
    assert_eq!(player.playlist_len(), 3);
    let items = three();
    player.play_track(&items[2]);
    let started = player.next().expect("next starts a track");
    assert_eq!(started.id, 10);
    let started = player.next().expect("next starts a track");
    assert_eq!(started.id, 20);
}

#[test]
fn list_previous_wraps_to_back() {
    let mut player = Player::new();
    player.set_playlist(three());
    let items = three();
    player.play_track(&items[0]);
    let started = player.previous().expect("previous starts a track");
    assert_eq!(started.id, 30);
}

#[test]
fn computed_retreat_is_recorded_in_history() {
    let mut player = Player::new();
    player.set_playlist(three());
    let items = three();
    player.play_track(&items[0]);
    let retreat = player.previous().expect("retreat wraps to the back");
    assert_eq!(retreat.id, 30);
    assert!(player.can_go_back(), "the computed retreat was appended to the history");
    let replayed = player.previous().expect("previous now replays the history");
    assert_eq!(replayed.id, 10);
    let forward = player.next().expect("next replays forward through the history");
    assert_eq!(forward.id, 30);
}

#[test]
fn next_then_previous_returns_to_prior_track() {
    let mut player = Player::new();
    player.set_playlist(three());
    let items = three();
    player.play_track(&items[1]);
    let forward = player.next().expect("next starts a track");
    assert_eq!(forward.id, 30);
    let back = player.previous().expect("previous replays the prior track");
    assert_eq!(back.id, 20);
    assert!(player.can_go_back() == false);
}

#[test]
fn play_absent_track_keeps_positions() {
    let mut player = Player::new();
    player.set_playlist(three());
    let outside = mk(99, "elsewhere");
    player.play_track(&outside);
    assert!(!player.can_go_back());
    player.begin_playback(CurrentTrackInfo::from_album_info(&outside));
    let now = player.current_track().expect("the explicit request is displayed");
    assert_eq!(now.id, 99);
    assert_eq!(now.title, "elsewhere");
    assert!(player.is_playing());
    let started = player.next().expect("advance defaults to the front");
    assert_eq!(started.id, 10);
}

#[test]
fn single_mode_repeats_same_position() {
    let mut player = Player::new();
    player.set_playlist(three());
    player.set_loop_mode(LoopMode::Single);
    let items = three();
    player.play_track(&items[1]);
    let started = player.next().expect("single mode replays the current track");
    assert_eq!(started.id, 20);
}

#[test]
fn clear_keeps_playlist_and_mode() {
    let mut player = Player::new();
    player.set_playlist(three());
    player.set_loop_mode(LoopMode::Single);
    let items = three();
    player.play_track(&items[0]);
    player.begin_playback(CurrentTrackInfo::from_album_info(&items[0]));
    player.clear();
    assert!(player.current_track().is_none());
    assert!(player.is_paused());
    assert!(!player.can_go_back());
    assert!(player.has_playlist());
    assert_eq!(player.loop_mode(), LoopMode::Single);
}

#[test]
fn auto_check_is_noop_unless_playing_on_empty_queue() {
    let mut player = Player::new();
    player.set_playlist(three());
    let items = three();
    player.play_track(&items[0]);
    assert!(player.check_and_auto_next(true).is_none());
    player.begin_playback(CurrentTrackInfo::from_album_info(&items[0]));
    assert!(player.check_and_auto_next(false).is_none());
    let now = player.current_track().expect("still displayed");
    assert_eq!(now.id, 10);
}

#[test]
fn auto_check_single_enqueues_same_identity() {
    let mut player = Player::new();
    player.set_playlist(three());
    player.set_loop_mode(LoopMode::Single);
    let items = three();
    player.play_track(&items[1]);
    player.begin_playback(CurrentTrackInfo::from_album_info(&items[1]));
    match player.check_and_auto_next(true) {
        Some(AutoAction::Enqueue(t)) => assert_eq!(t.id, 20),
        other => panic!("expected an enqueue of the same track, got {:?}", other),
    }
    let now = player.current_track().expect("still displayed");
    assert_eq!(now.id, 20);
}

#[test]
fn auto_check_list_advances() {
    let mut player = Player::new();
    player.set_playlist(three());
    let items = three();
    player.play_track(&items[0]);
    player.begin_playback(CurrentTrackInfo::from_album_info(&items[0]));
    match player.check_and_auto_next(true) {
        Some(AutoAction::Start(t)) => assert_eq!(t.id, 20),
        other => panic!("expected an advance to the next track, got {:?}", other),
    }
}

#[test]
fn auto_advance_ignores_history_position() {
    let mut player = Player::new();
    player.set_playlist(three());
    let items = three();
    player.play_track(&items[0]);
    let forward = player.next().expect("next starts a track");
    assert_eq!(forward.id, 20);
    let back = player.previous().expect("previous replays");
    assert_eq!(back.id, 10);
    player.begin_playback(CurrentTrackInfo::from_album_info(&items[0]));
    match player.check_and_auto_next(true) {
        Some(AutoAction::Start(t)) => assert_eq!(t.id, 20),
        other => panic!("expected a computed advance, got {:?}", other),
    }
}

#[test]
fn empty_ordering_makes_navigation_a_noop() {
    let mut player = Player::new();
    player.set_playlist(Vec::new());
    assert!(player.has_playlist());
    assert_eq!(player.playlist_len(), 0);
    assert!(player.next().is_none());
    assert!(player.previous().is_none());
    assert!(player.current_track().is_none());
    assert!(!player.can_go_back());
}

#[test]
fn stale_position_survives_playlist_swap() {
    let mut player = Player::new();
    player.set_playlist(three());
    let items = three();
    player.play_track(&items[2]);
    player.set_playlist(vec![mk(10, "one"), mk(20, "two")]);
    assert_eq!(player.playlist_len(), 2);
    let started = player.next().expect("advance wraps within the new ordering");
    assert_eq!(started.id, 20);
}

#[test]
fn shuffle_order_is_a_bijection() {
    let mut items = Vec::new();
    for id in 0..10u128 {
        items.push(mk(id + 1, "t"));
    }
    let mut ordering = PlayList::new(items);
    assert_eq!(ordering.len(), 10);
    for round in 0..3 {
        ordering.shuffle();
        let mut seen = vec![false; 10];
        for i in 0..10 {
            let v = ordering.shuffle_value(i).expect("in range");
            assert!(v < 10, "round {}: position {} out of range", round, v);
            assert!(!seen[v], "round {}: position {} repeated", round, v);
            seen[v] = true;
        }
        assert!(seen.iter().all(|s| *s));
    }
}

#[test]
fn playlist_lookup() {
    let ordering = PlayList::new(three());
    assert_eq!(ordering.position_of(20), Some(1));
    assert_eq!(ordering.position_of(99), None);
    assert_eq!(ordering.get(2).expect("in range").id, 30);
    assert!(ordering.get(3).is_none());
    assert_eq!(ordering.shuffle_position_of(1), Some(1));
    assert_eq!(ordering.shuffle_value(0), Some(0));
}

#[test]
fn random_mode_reshuffles_and_relocates() {
    let mut player = Player::new();
    player.set_playlist(three());
    let items = three();
    player.play_track(&items[2]);
    player.set_loop_mode(LoopMode::Random);
    assert_eq!(player.loop_mode(), LoopMode::Random);
    let started = player.next().expect("random advance starts a track");
    assert!(started.id == 10 || started.id == 20 || started.id == 30);
    player.toggle_loop_mode();
    assert_eq!(player.loop_mode(), LoopMode::List);
}
