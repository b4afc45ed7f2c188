//! The playback controller: a state machine that holds one active playback
//! ordering, tracks the current position in both the sequential and the
//! shuffled coordinate space, the play/pause state, the loop mode, and a
//! browser-style history of visited positions.
//!
//! The controller owns no audio device. Every operation that should reach the
//! audio resource returns what the embedding must do: a track whose file is
//! to be decoded and started, a request to enqueue a file again, or a resume
//! or suspend of the running sink. After a successful decode the embedding
//! reports back through [`Player::begin_playback`]; after a failed one it
//! reports nothing, so the displayed track and the play state stay unchanged.

use vstd::prelude::*;

use crate::find::lemma_find_index_by;
use crate::playlist::{PlayList, PlayListView, find_pos_of, identity_perm};
use crate::track::{
    AlbumInfo, CurrentTrackInfo, InfoView, TrackView, find_index_of_id, has_track_id, info_of,
    lemma_find_index_of_id,
};

verus! {

/// The loop playback mode.
#[derive(Clone, Copy, PartialEq, Eq, Structural, Debug)]
pub enum LoopMode {
    /// Play the shuffled permutation.
    Random,
    /// Repeat the current track.
    Single,
    /// Play the sequential order, wrapping around.
    List,
}

/// The mode after `m` in the cycle List -> Single -> Random -> List.
pub open spec fn next_mode(m: LoopMode) -> LoopMode {
    match m {
        LoopMode::List => LoopMode::Single,
        LoopMode::Single => LoopMode::Random,
        LoopMode::Random => LoopMode::List,
    }
}

impl LoopMode {
    /// The next mode in the cycle List -> Single -> Random -> List.
    pub fn next(&self) -> (r: Self)
        ensures
            r == next_mode(*self),
    {
        match self {
            LoopMode::List => LoopMode::Single,
            LoopMode::Single => LoopMode::Random,
            LoopMode::Random => LoopMode::List,
        }
    }
}

/// Whether playback is running or suspended.
#[derive(Clone, Copy, PartialEq, Eq, Structural, Debug)]
pub enum PlayState {
    Play,
    Paused,
}

/// What the periodic end-of-queue check asks of the embedding.
#[derive(Debug)]
pub enum AutoAction {
    /// Decode this track's file again and append it to the still-running
    /// queue; the controller state is untouched (single-repeat).
    Enqueue(AlbumInfo),
    /// Stop the sink, decode this track and start it; on success the
    /// embedding reports through [`Player::begin_playback`].
    Start(AlbumInfo),
}

/// View of an [`AutoAction`].
pub ghost enum AutoActionView {
    Enqueue(TrackView),
    Start(TrackView),
}

impl View for AutoAction {
    type V = AutoActionView;

    open spec fn view(&self) -> AutoActionView {
        match self {
            AutoAction::Enqueue(t) => AutoActionView::Enqueue(t@),
            AutoAction::Start(t) => AutoActionView::Start(t@),
        }
    }
}

impl DeepView for AutoAction {
    type V = AutoActionView;

    open spec fn deep_view(&self) -> AutoActionView {
        self.view()
    }
}

/// Mathematical view of the controller state.
#[verifier::ext_equal]
pub ghost struct PlayerView {
    /// The active playback ordering, if a playlist was set.
    pub playlist: Option<PlayListView>,
    /// Index into the ordering's sequential order.
    pub current_index: Option<usize>,
    /// Index into the ordering's shuffled permutation.
    pub current_shuffle_index: Option<usize>,
    /// Snapshot of the displayed track.
    pub current_track: Option<InfoView>,
    pub loop_mode: LoopMode,
    pub play_state: PlayState,
    /// Visited sequential positions, oldest first.
    pub play_history: Seq<usize>,
    /// Cursor into `play_history`.
    pub history_position: Option<usize>,
}

impl PlayerView {
    /// Well-formedness: the ordering is well formed, the history cursor is
    /// in range exactly when there is history, and a running play state
    /// implies a displayed track.
    pub open spec fn wf(&self) -> bool {
        &&& match self.playlist {
            Some(pl) => pl.wf(),
            None => true,
        }
        &&& match self.history_position {
            Some(p) => (p as nat) < self.play_history.len(),
            None => self.play_history.len() == 0,
        }
        &&& (self.play_state is Play ==> self.current_track is Some)
    }
}

/// The state of a freshly created controller: nothing loaded, list mode,
/// paused.
pub open spec fn initial_player() -> PlayerView {
    PlayerView {
        playlist: None,
        current_index: None,
        current_shuffle_index: None,
        current_track: None,
        loop_mode: LoopMode::List,
        play_state: PlayState::Paused,
        play_history: Seq::empty(),
        history_position: None,
    }
}

/// The position within a shuffle order where sequential position `idx` sits.
pub open spec fn shuffle_slot_of(order: Seq<usize>, idx: usize) -> Option<usize> {
    match find_pos_of(order, idx) {
        Some(i) => Some(i as usize),
        None => None,
    }
}

/// One position forward with wraparound over `n` positions, or position 0
/// when there is no position to step from. Meaningful only for `n > 0`.
pub open spec fn step_forward(i: Option<usize>, n: nat) -> usize
    recommends
        n > 0,
{
    match i {
        Some(i) => ((i + 1) as int % (n as int)) as usize,
        None => 0,
    }
}

/// One position backward with wraparound, or position 0 when there is no
/// position to step from. A position at or beyond `n` steps down without
/// wrapping. Meaningful only for `n > 0`.
pub open spec fn step_backward(i: Option<usize>, n: nat) -> usize
    recommends
        n > 0,
{
    match i {
        Some(i) => if i == 0 {
            (n - 1) as usize
        } else {
            (i - 1) as usize
        },
        None => 0,
    }
}

/// One position forward with wraparound, computed without overflow even for
/// a stale position.
fn step_forward_exec(i: Option<usize>, n: usize) -> (r: usize)
    requires
        n > 0,
    ensures
        r == step_forward(i, n as nat),
        r < n,
{
    match i {
        Some(i) => {
            let m: usize = i % n;
            let r: usize = (m + 1) % n;
            proof {
                vstd::arithmetic::div_mod::lemma_add_mod_noop(i as int, 1int, n as int);
                if n == 1 {
                    vstd::arithmetic::div_mod::lemma_mod_self_0(1int);
                    vstd::arithmetic::div_mod::lemma_mod_twice(i as int, 1int);
                    assert(1int % 1int == 0);
                } else {
                    vstd::arithmetic::div_mod::lemma_small_mod(1nat, n as nat);
                    assert(1int % (n as int) == 1);
                }
                assert(r as int == (i as int + 1) % (n as int));
            }
            r
        },
        None => 0,
    }
}

/// One position backward with wraparound; a stale position steps down
/// without wrapping, as the computed target is range-checked downstream.
fn step_backward_exec(i: Option<usize>, n: usize) -> (r: usize)
    requires
        n > 0,
    ensures
        r == step_backward(i, n as nat),
{
    match i {
        Some(i) => {
            if i == 0 {
                n - 1
            } else {
                i - 1
            }
        },
        None => 0,
    }
}

/// Whether the history cursor can move forward without computing a new
/// target.
pub open spec fn can_replay_forward(p: PlayerView) -> bool {
    match p.history_position {
        Some(pos) => pos + 1 < p.play_history.len(),
        None => false,
    }
}

/// Whether the history cursor can move backward.
pub open spec fn can_replay_backward(p: PlayerView) -> bool {
    match p.history_position {
        Some(pos) => pos > 0,
        None => false,
    }
}

/// Whether an ordering with at least one track is loaded.
pub open spec fn has_playable(p: PlayerView) -> bool {
    match p.playlist {
        Some(pl) => pl.items.len() > 0,
        None => false,
    }
}

/// Appending a visited position to the history: any forward branch past the
/// cursor is discarded first, then the position is appended and the cursor
/// points at it.
pub open spec fn push_history_state(p: PlayerView, idx: usize) -> PlayerView {
    let kept = match p.history_position {
        Some(pos) => if pos + 1 < p.play_history.len() {
            p.play_history.take(pos + 1)
        } else {
            p.play_history
        },
        None => p.play_history,
    };
    PlayerView {
        play_history: kept.push(idx),
        history_position: Some(kept.len() as usize),
        ..p
    }
}

/// Starting playback at sequential position `idx`: when the position is in
/// range, it becomes current (and in random mode the shuffle cursor is
/// relocated to it) and the track there is what the embedding must start;
/// otherwise nothing happens.
pub open spec fn play_at(p: PlayerView, idx: usize) -> (PlayerView, Option<TrackView>) {
    match p.playlist {
        Some(pl) => if (idx as nat) < pl.items.len() {
            let si = if p.loop_mode is Random {
                shuffle_slot_of(pl.order, idx)
            } else {
                p.current_shuffle_index
            };
            (
                PlayerView { current_index: Some(idx), current_shuffle_index: si, ..p },
                Some(pl.items[idx as int]),
            )
        } else {
            (p, None)
        },
        None => (p, None),
    }
}

/// The computed advance (phase two of navigation): the target position by
/// loop mode, and in random mode the stepped shuffle cursor. Meaningful only
/// when an ordering with at least one track is present.
pub open spec fn computed_advance(p: PlayerView, forward: bool) -> (PlayerView, Option<usize>)
    recommends
        has_playable(p),
{
    let pl = p.playlist.unwrap();
    let n = pl.items.len();
    match p.loop_mode {
        LoopMode::Single => (p, p.current_index),
        LoopMode::List => (
            p,
            Some(
                if forward {
                    step_forward(p.current_index, n)
                } else {
                    step_backward(p.current_index, n)
                },
            ),
        ),
        LoopMode::Random => {
            let nsi = if forward {
                step_forward(p.current_shuffle_index, n)
            } else {
                step_backward(p.current_shuffle_index, n)
            };
            let p1 = PlayerView { current_shuffle_index: Some(nsi), ..p };
            (
                p1,
                if (nsi as nat) < pl.order.len() {
                    Some(pl.order[nsi as int])
                } else {
                    None
                },
            )
        },
    }
}

/// The computed advance carried out: the target becomes current, is appended
/// to the history, and playback of it starts.
pub open spec fn advance_transition(p: PlayerView, forward: bool) -> (
    PlayerView,
    Option<TrackView>,
) {
    if has_playable(p) {
        let (p1, tgt) = computed_advance(p, forward);
        match tgt {
            Some(idx) => {
                let p2 = push_history_state(
                    PlayerView { current_index: Some(idx), ..p1 },
                    idx,
                );
                play_at(p2, idx)
            },
            None => (p1, None),
        }
    } else {
        (p, None)
    }
}

/// What `next` does: replay forward through the history when the cursor is
/// not at its tail, else the computed advance.
pub open spec fn next_transition(p: PlayerView) -> (PlayerView, Option<TrackView>) {
    if can_replay_forward(p) {
        let pos = p.history_position->Some_0;
        let p1 = PlayerView { history_position: Some((pos + 1) as usize), ..p };
        play_at(p1, p.play_history[pos + 1])
    } else {
        advance_transition(p, true)
    }
}

/// What `previous` does: replay backward through the history when the cursor
/// is not at its head, else the computed retreat, which is appended to the
/// history like any other new navigation (truncating a forward branch first).
pub open spec fn previous_transition(p: PlayerView) -> (PlayerView, Option<TrackView>) {
    if can_replay_backward(p) {
        let pos = p.history_position->Some_0;
        let p1 = PlayerView { history_position: Some((pos - 1) as usize), ..p };
        play_at(p1, p.play_history[pos - 1])
    } else {
        advance_transition(p, false)
    }
}

/// What an explicit play request does to the navigation state: when the
/// track's identity is found in the ordering, its position becomes current
/// (relocating the shuffle cursor in random mode) and is appended to the
/// history; otherwise the state is untouched. Playback of the requested
/// track itself begins either way.
pub open spec fn play_track_transition(p: PlayerView, t: TrackView) -> PlayerView {
    match p.playlist {
        Some(pl) => match find_index_of_id(pl.items, t.id) {
            Some(i) => {
                let idx = i as usize;
                let si = if p.loop_mode is Random {
                    shuffle_slot_of(pl.order, idx)
                } else {
                    p.current_shuffle_index
                };
                push_history_state(
                    PlayerView { current_index: Some(idx), current_shuffle_index: si, ..p },
                    idx,
                )
            },
            None => p,
        },
        None => p,
    }
}

/// What the periodic end-of-queue check does: nothing unless the state is
/// playing and the queue ran empty; then in single mode the current track is
/// enqueued again with no state change, and in list or random mode the
/// computed advance runs unconditionally (never the history replay).
pub open spec fn check_auto_spec(p: PlayerView, queue_empty: bool) -> (
    PlayerView,
    Option<AutoActionView>,
) {
    if !(queue_empty && p.play_state is Play) {
        (p, None)
    } else {
        match p.loop_mode {
            LoopMode::Single => {
                let act = match (p.current_track, p.playlist) {
                    (Some(tr), Some(pl)) => match find_index_of_id(pl.items, tr.id) {
                        Some(i) => Some(AutoActionView::Enqueue(pl.items[i])),
                        None => None,
                    },
                    _ => None,
                };
                (p, act)
            },
            _ => {
                let (p1, started) = advance_transition(p, true);
                (
                    p1,
                    match started {
                        Some(t) => Some(AutoActionView::Start(t)),
                        None => None,
                    },
                )
            },
        }
    }
}

/// What reporting a successful start does: the snapshot becomes the
/// displayed track and the state is playing.
pub open spec fn begin_playback_spec(p: PlayerView, info: InfoView) -> PlayerView {
    PlayerView { current_track: Some(info), play_state: PlayState::Play, ..p }
}

/// The state machine driving the single audio output resource through
/// navigation and loop-mode logic. See the module documentation for how the
/// embedding carries out the returned requests.
pub struct Player {
    playlist: Option<PlayList>,
    current_index: Option<usize>,
    current_shuffle_index: Option<usize>,
    current_track: Option<CurrentTrackInfo>,
    loop_mode: LoopMode,
    play_state: PlayState,
    play_history: Vec<usize>,
    history_position: Option<usize>,
}

impl View for Player {
    type V = PlayerView;

    closed spec fn view(&self) -> PlayerView {
        PlayerView {
            playlist: match self.playlist {
                Some(pl) => Some(pl@),
                None => None,
            },
            current_index: self.current_index,
            current_shuffle_index: self.current_shuffle_index,
            current_track: match self.current_track {
                Some(t) => Some(t@),
                None => None,
            },
            loop_mode: self.loop_mode,
            play_state: self.play_state,
            play_history: self.play_history@,
            history_position: self.history_position,
        }
    }
}

impl Player {
    /// A fresh controller: no ordering, no track, list mode, paused. The
    /// embedding opens the audio device itself.
    pub fn new() -> (r: Self)
        ensures
            r@ == initial_player(),
            r@.wf(),
    {
        let r = Player {
            playlist: None,
            current_index: None,
            current_shuffle_index: None,
            current_track: None,
            loop_mode: LoopMode::List,
            play_state: PlayState::Paused,
            play_history: Vec::new(),
            history_position: None,
        };
        proof {
            assert(r@ =~~= initial_player());
        }
        r
    }

    /// Resumes playback. Returns whether the embedding should resume the
    /// sink; a no-op without a displayed track.
    pub fn play(&mut self) -> (r: bool)
        ensures
            r == (old(self)@.current_track is Some),
            r ==> final(self)@ == (PlayerView { play_state: PlayState::Play, ..old(self)@ }),
            !r ==> final(self)@ == old(self)@,
            old(self)@.wf() ==> final(self)@.wf(),
    {
        if self.current_track.is_some() {
            self.play_state = PlayState::Play;
            proof {
                assert(self@ =~~= (PlayerView { play_state: PlayState::Play, ..old(self)@ }));
            }
            true
        } else {
            proof {
                assert(self@ =~~= old(self)@);
            }
            false
        }
    }

    /// Suspends playback. Returns whether the embedding should pause the
    /// sink; a no-op without a displayed track.
    pub fn pause(&mut self) -> (r: bool)
        ensures
            r == (old(self)@.current_track is Some),
            r ==> final(self)@ == (PlayerView { play_state: PlayState::Paused, ..old(self)@ }),
            !r ==> final(self)@ == old(self)@,
            old(self)@.wf() ==> final(self)@.wf(),
    {
        if self.current_track.is_some() {
            self.play_state = PlayState::Paused;
            proof {
                assert(self@ =~~= (PlayerView { play_state: PlayState::Paused, ..old(self)@ }));
            }
            true
        } else {
            proof {
                assert(self@ =~~= old(self)@);
            }
            false
        }
    }

    /// Flips between playing and paused. Returns the state the embedding
    /// should put the sink in, or nothing when no track is displayed.
    pub fn toggle_play(&mut self) -> (r: Option<PlayState>)
        ensures
            old(self)@.current_track is None ==> r is None && final(self)@ == old(self)@,
            old(self)@.current_track is Some ==> ({
                let ns = if old(self)@.play_state is Play {
                    PlayState::Paused
                } else {
                    PlayState::Play
                };
                r == Some(ns) && final(self)@ == (PlayerView { play_state: ns, ..old(self)@ })
            }),
            old(self)@.wf() ==> final(self)@.wf(),
    {
        if self.current_track.is_none() {
            proof {
                assert(self@ =~~= old(self)@);
            }
            return None;
        }
        if self.play_state == PlayState::Play {
            self.pause();
            Some(PlayState::Paused)
        } else {
            self.play();
            Some(PlayState::Play)
        }
    }

    /// Stops playback and clears everything but the loaded ordering and the
    /// loop mode. The embedding stops the sink.
    pub fn clear(&mut self)
        ensures
            final(self)@ == (PlayerView {
                current_index: None,
                current_shuffle_index: None,
                current_track: None,
                play_state: PlayState::Paused,
                play_history: Seq::empty(),
                history_position: None,
                ..old(self)@
            }),
            old(self)@.wf() ==> final(self)@.wf(),
    {
        self.play_state = PlayState::Paused;
        self.current_track = None;
        self.current_index = None;
        self.current_shuffle_index = None;
        self.play_history.clear();
        self.history_position = None;
        proof {
            assert(self@ =~~= (PlayerView {
                current_index: None,
                current_shuffle_index: None,
                current_track: None,
                play_state: PlayState::Paused,
                play_history: Seq::empty(),
                history_position: None,
                ..old(self)@
            }));
        }
    }

    /// Whether playback is running.
    pub fn is_playing(&self) -> (r: bool)
        ensures
            r == (self@.play_state is Play),
    {
        self.play_state == PlayState::Play
    }

    /// Whether playback is suspended.
    pub fn is_paused(&self) -> (r: bool)
        ensures
            r == (self@.play_state is Paused),
    {
        self.play_state == PlayState::Paused
    }

    /// The play/pause state.
    pub fn play_state(&self) -> (r: PlayState)
        ensures
            r == self@.play_state,
    {
        self.play_state
    }

    /// The displayed track, if any.
    pub fn current_track(&self) -> (r: Option<&CurrentTrackInfo>)
        ensures
            match r {
                Some(t) => self@.current_track == Some(t@),
                None => self@.current_track is None,
            },
    {
        self.current_track.as_ref()
    }

    /// The loop mode.
    pub fn loop_mode(&self) -> (r: LoopMode)
        ensures
            r == self@.loop_mode,
    {
        self.loop_mode
    }

    /// Whether an ordering is loaded.
    pub fn has_playlist(&self) -> (r: bool)
        ensures
            r == (self@.playlist is Some),
    {
        self.playlist.is_some()
    }

    /// The number of tracks in the loaded ordering, or 0 without one.
    pub fn playlist_len(&self) -> (r: usize)
        ensures
            r == match self@.playlist {
                Some(pl) => pl.items.len(),
                None => 0,
            },
    {
        match &self.playlist {
            Some(pl) => pl.len(),
            None => 0,
        }
    }

    /// Whether `previous` can replay an earlier history entry.
    pub fn can_go_back(&self) -> (r: bool)
        ensures
            r == can_replay_backward(self@),
    {
        match self.history_position {
            Some(pos) => pos > 0,
            None => false,
        }
    }

    /// Replaces the loaded ordering with a freshly built one over `items`,
    /// shuffling it immediately in random mode. Neither starts playback nor
    /// clears the displayed track; the current positions keep their (possibly
    /// now stale) values.
    pub fn set_playlist(&mut self, items: Vec<AlbumInfo>)
        requires
            old(self)@.wf(),
        ensures
            final(self)@.wf(),
            final(self)@.playlist is Some,
            final(self)@.playlist.unwrap().items == items.deep_view(),
            final(self)@.playlist.unwrap().wf(),
            old(self)@.loop_mode != LoopMode::Random ==> final(self)@.playlist.unwrap().order
                == identity_perm(items.deep_view().len()),
            final(self)@ == (PlayerView { playlist: final(self)@.playlist, ..old(self)@ }),
    {
        let mut playlist = PlayList::new(items);
        if self.loop_mode == LoopMode::Random {
            playlist.shuffle();
        }
        self.playlist = Some(playlist);
        proof {
            assert(self@ =~~= (PlayerView { playlist: self@.playlist, ..old(self)@ }));
        }
    }

    /// Sets the loop mode. A transition into random mode reshuffles the
    /// ordering and relocates the shuffle cursor to wherever the current
    /// sequential position sits in the new permutation (absent when it does
    /// not occur there, so the next navigation defaults to position 0).
    pub fn set_loop_mode(&mut self, mode: LoopMode)
        requires
            old(self)@.wf(),
        ensures
            final(self)@.wf(),
            final(self)@.loop_mode == mode,
            (mode != LoopMode::Random || old(self)@.playlist is None) ==> final(self)@
                == (PlayerView { loop_mode: mode, ..old(self)@ }),
            mode == LoopMode::Random && old(self)@.playlist is Some ==> ({
                let pl = final(self)@.playlist.unwrap();
                &&& final(self)@.playlist is Some
                &&& pl.items == old(self)@.playlist.unwrap().items
                &&& pl.wf()
                &&& final(self)@.current_shuffle_index == (match old(self)@.current_index {
                    Some(ci) => shuffle_slot_of(pl.order, ci),
                    None => old(self)@.current_shuffle_index,
                })
                &&& final(self)@ == (PlayerView {
                    loop_mode: mode,
                    playlist: final(self)@.playlist,
                    current_shuffle_index: final(self)@.current_shuffle_index,
                    ..old(self)@
                })
            }),
    {
        self.loop_mode = mode;
        if mode == LoopMode::Random {
            match &mut self.playlist {
                Some(playlist) => {
                    playlist.shuffle();
                    match self.current_index {
                        Some(current_idx) => {
                            let slot = playlist.shuffle_position_of(current_idx);
                            proof {
                                lemma_find_index_by(
                                    playlist@.order,
                                    crate::playlist::eq_pos_pred(current_idx),
                                );
                            }
                            self.current_shuffle_index = slot;
                        },
                        None => {},
                    }
                },
                None => {},
            }
        }
        proof {
            if mode != LoopMode::Random || old(self)@.playlist is None {
                assert(self@ =~~= (PlayerView { loop_mode: mode, ..old(self)@ }));
            } else {
                assert(self@ =~~= (PlayerView {
                    loop_mode: mode,
                    playlist: self@.playlist,
                    current_shuffle_index: self@.current_shuffle_index,
                    ..old(self)@
                }));
            }
        }
    }

    /// Cycles the loop mode List -> Single -> Random -> List, with the same
    /// effect as setting the new mode directly.
    pub fn toggle_loop_mode(&mut self)
        requires
            old(self)@.wf(),
        ensures
            final(self)@.wf(),
            final(self)@.loop_mode == next_mode(old(self)@.loop_mode),
            (next_mode(old(self)@.loop_mode) != LoopMode::Random || old(self)@.playlist is None)
                ==> final(self)@ == (PlayerView {
                loop_mode: next_mode(old(self)@.loop_mode),
                ..old(self)@
            }),
            next_mode(old(self)@.loop_mode) == LoopMode::Random && old(self)@.playlist is Some
                ==> ({
                let pl = final(self)@.playlist.unwrap();
                &&& final(self)@.playlist is Some
                &&& pl.items == old(self)@.playlist.unwrap().items
                &&& pl.wf()
                &&& final(self)@.current_shuffle_index == (match old(self)@.current_index {
                    Some(ci) => shuffle_slot_of(pl.order, ci),
                    None => old(self)@.current_shuffle_index,
                })
                &&& final(self)@ == (PlayerView {
                    loop_mode: next_mode(old(self)@.loop_mode),
                    playlist: final(self)@.playlist,
                    current_shuffle_index: final(self)@.current_shuffle_index,
                    ..old(self)@
                })
            }),
    {
        let next = self.loop_mode.next();
        self.set_loop_mode(next);
    }

    /// Appends a visited position to the history, discarding any forward
    /// branch past the cursor first.
    fn add_to_history(&mut self, idx: usize)
        requires
            old(self)@.wf(),
        ensures
            final(self)@.wf(),
            final(self)@ == push_history_state(old(self)@, idx),
    {
        let hist_len: usize = self.play_history.len();
        match self.history_position {
            Some(pos) => {
                if pos + 1 < hist_len {
                    self.play_history.truncate(pos + 1);
                }
            },
            None => {},
        }
        self.play_history.push(idx);
        self.history_position = Some(self.play_history.len() - 1);
        proof {
            assert(self@ =~~= push_history_state(old(self)@, idx));
        }
    }

    /// Starts playback at a sequential position: when it is in range the
    /// position becomes current and the track there is returned for the
    /// embedding to start; a stale position is a no-op.
    fn play_by_index(&mut self, idx: usize) -> (r: Option<AlbumInfo>)
        requires
            old(self)@.wf(),
        ensures
            final(self)@.wf(),
            final(self)@ == play_at(old(self)@, idx).0,
            r.deep_view() == play_at(old(self)@, idx).1,
    {
        let found: Option<AlbumInfo> = match &self.playlist {
            Some(playlist) => match playlist.get(idx) {
                Some(item) => Some(item.clone()),
                None => None,
            },
            None => None,
        };
        match found {
            Some(item) => {
                self.current_index = Some(idx);
                if self.loop_mode == LoopMode::Random {
                    let slot = match &self.playlist {
                        Some(playlist) => {
                            let s = playlist.shuffle_position_of(idx);
                            proof {
                                lemma_find_index_by(
                                    playlist@.order,
                                    crate::playlist::eq_pos_pred(idx),
                                );
                            }
                            s
                        },
                        None => None,
                    };
                    self.current_shuffle_index = slot;
                }
                proof {
                    assert(self@ =~~= play_at(old(self)@, idx).0);
                }
                Some(item)
            },
            None => {
                proof {
                    assert(self@ =~~= old(self)@);
                }
                None
            },
        }
    }

    /// Explicitly plays a track: when its identity is in the loaded ordering
    /// its position becomes current and is recorded in the history; either
    /// way the embedding decodes and starts this very track (an explicit
    /// request is honored even outside the ordering, which may leave the
    /// displayed track and the sequential position deliberately out of step).
    pub fn play_track(&mut self, item: &AlbumInfo)
        requires
            old(self)@.wf(),
        ensures
            final(self)@.wf(),
            final(self)@ == play_track_transition(old(self)@, item@),
    {
        let found: Option<usize> = match &self.playlist {
            Some(playlist) => playlist.position_of(item.id),
            None => None,
        };
        match found {
            Some(idx) => {
                proof {
                    lemma_find_index_of_id(self@.playlist.unwrap().items, item@.id);
                }
                self.current_index = Some(idx);
                if self.loop_mode == LoopMode::Random {
                    let slot = match &self.playlist {
                        Some(playlist) => {
                            let s = playlist.shuffle_position_of(idx);
                            proof {
                                lemma_find_index_by(
                                    playlist@.order,
                                    crate::playlist::eq_pos_pred(idx),
                                );
                            }
                            s
                        },
                        None => None,
                    };
                    self.current_shuffle_index = slot;
                }
                self.add_to_history(idx);
                proof {
                    assert(self@ =~~= play_track_transition(old(self)@, item@));
                }
            },
            None => {
                proof {
                    assert(self@ =~~= play_track_transition(old(self)@, item@));
                }
            },
        }
    }

    /// Carries out the computed advance in either direction (used past a
    /// history boundary and for the automatic advance): the target by loop
    /// mode becomes current, is appended to the history, and playback of it
    /// starts.
    fn advance(&mut self, forward: bool) -> (r: Option<AlbumInfo>)
        requires
            old(self)@.wf(),
        ensures
            final(self)@.wf(),
            final(self)@ == advance_transition(old(self)@, forward).0,
            r.deep_view() == advance_transition(old(self)@, forward).1,
    {
        let n: usize = match &self.playlist {
            Some(playlist) => playlist.len(),
            None => 0,
        };
        if n == 0 {
            proof {
                assert(self@ =~~= old(self)@);
            }
            return None;
        }
        let target: Option<usize> = match self.loop_mode {
            LoopMode::Single => self.current_index,
            LoopMode::List => Some(
                if forward {
                    step_forward_exec(self.current_index, n)
                } else {
                    step_backward_exec(self.current_index, n)
                },
            ),
            LoopMode::Random => {
                let nsi = if forward {
                    step_forward_exec(self.current_shuffle_index, n)
                } else {
                    step_backward_exec(self.current_shuffle_index, n)
                };
                self.current_shuffle_index = Some(nsi);
                match &self.playlist {
                    Some(playlist) => playlist.shuffle_value(nsi),
                    None => None,
                }
            },
        };
        let ghost p1 = self@;
        proof {
            assert(p1 =~~= computed_advance(old(self)@, forward).0);
            assert(target == computed_advance(old(self)@, forward).1);
        }
        match target {
            Some(idx) => {
                self.current_index = Some(idx);
                proof {
                    assert(self@ =~~= (PlayerView { current_index: Some(idx), ..p1 }));
                }
                self.add_to_history(idx);
                let r = self.play_by_index(idx);
                r
            },
            None => None,
        }
    }

    /// Plays the next track. The history is replayed forward when the cursor
    /// is behind its tail; otherwise the computed advance by loop mode runs.
    /// Returns the track the embedding must start, or nothing.
    pub fn next(&mut self) -> (r: Option<AlbumInfo>)
        requires
            old(self)@.wf(),
        ensures
            final(self)@.wf(),
            final(self)@ == next_transition(old(self)@).0,
            r.deep_view() == next_transition(old(self)@).1,
    {
        let hist_len: usize = self.play_history.len();
        match self.history_position {
            Some(pos) => {
                if pos + 1 < hist_len {
                    let next_pos = pos + 1;
                    self.history_position = Some(next_pos);
                    let idx = self.play_history[next_pos];
                    proof {
                        assert(self@ =~~= (PlayerView {
                            history_position: Some(next_pos),
                            ..old(self)@
                        }));
                    }
                    let r = self.play_by_index(idx);
                    return r;
                }
            },
            None => {},
        }
        self.advance(true)
    }

    /// Plays the previous track. The history is replayed backward when the
    /// cursor is past its head; otherwise the computed retreat by loop mode
    /// runs and is appended to the history like any other new navigation.
    /// Returns the track the embedding must start, or nothing.
    pub fn previous(&mut self) -> (r: Option<AlbumInfo>)
        requires
            old(self)@.wf(),
        ensures
            final(self)@.wf(),
            final(self)@ == previous_transition(old(self)@).0,
            r.deep_view() == previous_transition(old(self)@).1,
    {
        match self.history_position {
            Some(pos) => {
                if pos > 0 {
                    let prev_pos = pos - 1;
                    self.history_position = Some(prev_pos);
                    let idx = self.play_history[prev_pos];
                    proof {
                        assert(self@ =~~= (PlayerView {
                            history_position: Some(prev_pos),
                            ..old(self)@
                        }));
                    }
                    let r = self.play_by_index(idx);
                    return r;
                }
            },
            None => {},
        }
        self.advance(false)
    }

    /// The periodic end-of-queue check, fed the audio resource's
    /// queue-emptiness: a no-op unless the state is playing and the queue ran
    /// empty. In single mode the current track is handed back for re-
    /// enqueueing with no state change; in list or random mode the computed
    /// advance runs unconditionally, so automatic playback always moves
    /// forward through the ordering rather than replaying history.
    pub fn check_and_auto_next(&mut self, queue_empty: bool) -> (r: Option<AutoAction>)
        requires
            old(self)@.wf(),
        ensures
            final(self)@.wf(),
            final(self)@ == check_auto_spec(old(self)@, queue_empty).0,
            r.deep_view() == check_auto_spec(old(self)@, queue_empty).1,
    {
        if !(queue_empty && self.play_state == PlayState::Play) {
            return None;
        }
        match self.loop_mode {
            LoopMode::Single => {
                let id_opt: Option<u128> = match &self.current_track {
                    Some(tr) => Some(tr.id),
                    None => None,
                };
                match id_opt {
                    Some(id) => {
                        let act: Option<AutoAction> = match &self.playlist {
                            Some(playlist) => match playlist.position_of(id) {
                                Some(i) => {
                                    proof {
                                        lemma_find_index_of_id(playlist@.items, id);
                                    }
                                    match playlist.get(i) {
                                        Some(item) => Some(AutoAction::Enqueue(item.clone())),
                                        None => {
                                            proof {
                                                assert(false);
                                            }
                                            None
                                        },
                                    }
                                },
                                None => None,
                            },
                            None => None,
                        };
                        act
                    },
                    None => None,
                }
            },
            _ => {
                match self.advance(true) {
                    Some(t) => Some(AutoAction::Start(t)),
                    None => None,
                }
            },
        }
    }

    /// The embedding reports that a decode succeeded and the track started:
    /// the snapshot becomes the displayed track and the state is playing.
    pub fn begin_playback(&mut self, info: CurrentTrackInfo)
        ensures
            final(self)@ == begin_playback_spec(old(self)@, info@),
            old(self)@.wf() ==> final(self)@.wf(),
    {
        self.current_track = Some(info);
        self.play_state = PlayState::Play;
        proof {
            assert(self@ =~~= begin_playback_spec(old(self)@, info@));
        }
    }
}

/// In list mode, with the history cursor at its tail, `next` from the last
/// position wraps around to position 0.
pub proof fn lemma_list_next_wraps(p: PlayerView)
    requires
        p.wf(),
        p.loop_mode == LoopMode::List,
        !can_replay_forward(p),
        has_playable(p),
        p.current_index is Some,
        p.current_index.unwrap() as int == p.playlist.unwrap().items.len() - 1,
    ensures
        next_transition(p).0.current_index == Some(0usize),
        next_transition(p).1 == Some(p.playlist.unwrap().items[0]),
{
    let n = p.playlist.unwrap().items.len() as int;
    let ci = p.current_index.unwrap();
    vstd::arithmetic::div_mod::lemma_mod_self_0(n);
    assert((ci + 1) as int % n == 0);
}

/// In list mode, with the history cursor at its head, `previous` from
/// position 0 wraps around to the last position. (The length bound is a
/// machine limit: any ordering a controller actually holds satisfies it.)
pub proof fn lemma_list_previous_wraps(p: PlayerView)
    requires
        p.wf(),
        p.loop_mode == LoopMode::List,
        !can_replay_backward(p),
        has_playable(p),
        p.current_index == Some(0usize),
        p.playlist.unwrap().items.len() <= usize::MAX,
    ensures
        previous_transition(p).0.current_index is Some,
        previous_transition(p).0.current_index.unwrap() as int == p.playlist.unwrap().items.len()
            - 1,
        previous_transition(p).1 == Some(
            p.playlist.unwrap().items[p.playlist.unwrap().items.len() - 1],
        ),
{
    let n = p.playlist.unwrap().items.len();
    assert(step_backward(p.current_index, n) as int == n - 1);
}

/// `next` followed by `previous`, issued with the cursor at the history tail
/// and the current position tracked by it, returns to the exact prior track,
/// restores the cursor, and grows the history by exactly one entry. (The
/// length bound is a machine limit.)
pub proof fn lemma_next_then_previous(p: PlayerView)
    requires
        p.wf(),
        !can_replay_forward(p),
        has_playable(p),
        p.history_position is Some,
        p.current_index is Some,
        (p.current_index.unwrap() as nat) < p.playlist.unwrap().items.len(),
        p.play_history[p.history_position.unwrap() as int] == p.current_index.unwrap(),
        p.play_history.len() < usize::MAX,
        p.playlist.unwrap().items.len() <= usize::MAX,
    ensures
        ({
            let (p1, _) = next_transition(p);
            let (p2, started) = previous_transition(p1);
            &&& p2.current_index == p.current_index
            &&& started == Some(p.playlist.unwrap().items[p.current_index.unwrap() as int])
            &&& p2.play_history.len() == p.play_history.len() + 1
            &&& p2.history_position == p.history_position
        }),
{
    let pl = p.playlist.unwrap();
    let n = pl.items.len();
    let ci = p.current_index.unwrap();
    let hp = p.history_position.unwrap();
    let hist_len = p.play_history.len();
    assert(hp as int == hist_len - 1);
    let (pa, tgt) = computed_advance(p, true);
    match p.loop_mode {
        LoopMode::Single => {
            assert(tgt == Some(ci));
        },
        LoopMode::List => {
            vstd::arithmetic::div_mod::lemma_mod_bound((ci + 1) as int, n as int);
            assert((tgt.unwrap() as nat) < n);
        },
        LoopMode::Random => {
            let nsi = step_forward(p.current_shuffle_index, n);
            match p.current_shuffle_index {
                Some(si) => {
                    vstd::arithmetic::div_mod::lemma_mod_bound((si + 1) as int, n as int);
                },
                None => {},
            }
            assert((nsi as nat) < n);
            assert((pl.order[nsi as int] as nat) < n);
            assert(tgt == Some(pl.order[nsi as int]));
        },
    }
    let idx1 = tgt.unwrap();
    assert((idx1 as nat) < n);
    let p2pre = push_history_state(PlayerView { current_index: Some(idx1), ..pa }, idx1);
    assert(p2pre.play_history =~= p.play_history.push(idx1));
    assert(p2pre.history_position == Some(hist_len as usize));
    let (p1, started1) = play_at(p2pre, idx1);
    assert(p1.play_history == p2pre.play_history);
    assert(next_transition(p).0 == p1);
    assert(can_replay_backward(p1));
    assert(p1.play_history[hp as int] == ci);
    let p1b = PlayerView { history_position: Some(((hist_len as usize) - 1) as usize), ..p1 };
    let (p2, started) = play_at(p1b, ci);
    assert(previous_transition(p1) == (p2, started));
    assert(p2.current_index == Some(ci));
    assert(started == Some(pl.items[ci as int]));
}

/// An explicit play request for a track absent from the loaded ordering
/// leaves the positions and the history untouched (no false "found" match),
/// and reporting its successful start still sets the displayed track to
/// exactly that track.
pub proof fn lemma_play_track_absent(p: PlayerView, t: TrackView)
    requires
        match p.playlist {
            Some(pl) => !has_track_id(pl.items, t.id),
            None => true,
        },
    ensures
        play_track_transition(p, t) == p,
        ({
            let p1 = begin_playback_spec(play_track_transition(p, t), info_of(t));
            &&& p1.current_track == Some(info_of(t))
            &&& p1.play_state == PlayState::Play
            &&& p1.current_index == p.current_index
            &&& p1.current_shuffle_index == p.current_shuffle_index
            &&& p1.play_history == p.play_history
            &&& p1.history_position == p.history_position
        }),
{
    match p.playlist {
        Some(pl) => {
            lemma_find_index_of_id(pl.items, t.id);
        },
        None => {},
    }
}

/// The periodic check is a no-op unless the state is playing and the audio
/// queue ran empty.
pub proof fn lemma_auto_check_noop(p: PlayerView, queue_empty: bool)
    requires
        !(queue_empty && p.play_state is Play),
    ensures
        check_auto_spec(p, queue_empty) == (p, None::<AutoActionView>),
{
}

/// In single mode the periodic check never changes the state, and whatever
/// it asks to enqueue bears the identity of the displayed track.
pub proof fn lemma_auto_single_replays_same(p: PlayerView, queue_empty: bool)
    requires
        p.loop_mode == LoopMode::Single,
    ensures
        check_auto_spec(p, queue_empty).0 == p,
        match check_auto_spec(p, queue_empty).1 {
            Some(act) => match act {
                AutoActionView::Enqueue(t) => p.current_track is Some
                    && t.id == p.current_track.unwrap().id,
                AutoActionView::Start(_) => false,
            },
            None => true,
        },
{
    if queue_empty && p.play_state is Play {
        match (p.current_track, p.playlist) {
            (Some(tr), Some(pl)) => {
                lemma_find_index_of_id(pl.items, tr.id);
            },
            _ => {},
        }
    }
}

/// With more than one track loaded, the automatic advance in list or random
/// mode always moves to a different sequential position. In random mode this
/// relies on the shuffle cursor agreeing with the current position
/// (`order[cursor] == current`), which every navigation operation maintains;
/// replacing the playlist while random mode is active leaves a stale cursor
/// for which no such guarantee holds. (The length bound is a machine limit.)
pub proof fn lemma_auto_advance_moves(p: PlayerView, queue_empty: bool)
    requires
        p.wf(),
        queue_empty && p.play_state is Play,
        p.loop_mode == LoopMode::List || p.loop_mode == LoopMode::Random,
        has_playable(p),
        p.playlist.unwrap().items.len() > 1,
        p.playlist.unwrap().items.len() <= usize::MAX,
        p.current_index is Some,
        p.loop_mode == LoopMode::Random ==> ({
            &&& p.current_shuffle_index is Some
            &&& (p.current_shuffle_index.unwrap() as nat) < p.playlist.unwrap().order.len()
            &&& p.playlist.unwrap().order[p.current_shuffle_index.unwrap() as int]
                == p.current_index.unwrap()
        }),
    ensures
        check_auto_spec(p, queue_empty).0.current_index is Some,
        check_auto_spec(p, queue_empty).0.current_index != p.current_index,
{
    let pl = p.playlist.unwrap();
    let n = pl.items.len();
    let ci = p.current_index.unwrap();
    let (pa, tgt) = computed_advance(p, true);
    match p.loop_mode {
        LoopMode::List => {
            let idx1 = step_forward(p.current_index, n);
            vstd::arithmetic::div_mod::lemma_mod_bound((ci + 1) as int, n as int);
            assert((idx1 as nat) < n);
            if (ci as nat) < n {
                if ci + 1 < n {
                    vstd::arithmetic::div_mod::lemma_small_mod((ci + 1) as nat, n);
                    assert(idx1 as int == ci + 1);
                } else {
                    vstd::arithmetic::div_mod::lemma_mod_self_0(n as int);
                    assert(idx1 == 0);
                }
            }
            assert(idx1 != ci);
            assert(tgt == Some(idx1));
        },
        LoopMode::Random => {
            let si = p.current_shuffle_index.unwrap();
            let nsi = step_forward(p.current_shuffle_index, n);
            vstd::arithmetic::div_mod::lemma_mod_bound((si + 1) as int, n as int);
            assert((nsi as nat) < n);
            if si + 1 < n {
                vstd::arithmetic::div_mod::lemma_small_mod((si + 1) as nat, n);
                assert(nsi as int == si + 1);
            } else {
                vstd::arithmetic::div_mod::lemma_mod_self_0(n as int);
                assert(nsi == 0);
                assert(si as int == n - 1);
            }
            assert(nsi != si);
            let idx1 = pl.order[nsi as int];
            assert(pl.order.no_duplicates());
            assert(pl.order[nsi as int] != pl.order[si as int]);
            assert(idx1 != ci);
            assert((idx1 as nat) < n);
            assert(tgt == Some(idx1));
        },
        LoopMode::Single => {},
    }
    let idx1 = tgt.unwrap();
    let p2pre = push_history_state(PlayerView { current_index: Some(idx1), ..pa }, idx1);
    let (p1, _) = play_at(p2pre, idx1);
    assert(check_auto_spec(p, queue_empty).0 == p1);
    assert(p1.current_index == Some(idx1));
}

} // verus!
