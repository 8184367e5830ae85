//! The application core: catalog, queue, cursor, playback controller and the
//! preferences that drive them.
//!
//! Methods mutate the core state and, where the audio sink or a track load is
//! involved, hand the host an action to carry out; load outcomes come back
//! through `play_selected`.  Times are plain milliseconds from the host's
//! monotonic clock, playback positions plain seconds from the sink.

use vstd::prelude::*;
use vstd::string::StringExecFns;
use crate::player::{clamp_tenths, spec_toggle_mute, PlaybackState, Player};
use crate::queue::{
    find_usize, identity_queue, identity_seq, is_permutation, lemma_find_usize_props,
    lemma_permutation_from_multiset, position_of, random_index, shuffle_in_place,
};
use crate::state::AppState;
use crate::track::{
    find_path, lemma_find_path_props, position_by_path, sort_catalog, sorted_by, stable_sort,
    Track, TrackOrder,
};

verus! {

#[derive(Clone, Copy, PartialEq, Eq, Structural, Debug)]
pub enum RepeatMode {
    Off,
    All,
    One,
}

impl Default for RepeatMode {
    /// Repeat starts switched off.
    fn default() -> (r: Self)
        ensures
            r == RepeatMode::Off,
    {
        RepeatMode::Off
    }
}

#[derive(Clone, Copy, PartialEq, Eq, Structural, Debug)]
pub enum SortMode {
    Filename,
    Title,
    Artist,
}

impl Default for SortMode {
    /// The catalog starts sorted by filename.
    fn default() -> (r: Self)
        ensures
            r == SortMode::Filename,
    {
        SortMode::Filename
    }
}

/// The cyclic successor of a repeat mode.
pub open spec fn spec_next_repeat(m: RepeatMode) -> RepeatMode {
    match m {
        RepeatMode::Off => RepeatMode::All,
        RepeatMode::All => RepeatMode::One,
        RepeatMode::One => RepeatMode::Off,
    }
}

/// The cyclic successor of a sort mode.
pub open spec fn spec_next_sort(m: SortMode) -> SortMode {
    match m {
        SortMode::Filename => SortMode::Title,
        SortMode::Title => SortMode::Artist,
        SortMode::Artist => SortMode::Filename,
    }
}

/// The catalog order each sort mode stands for.
pub open spec fn order_of(m: SortMode) -> TrackOrder {
    match m {
        SortMode::Filename => TrackOrder::Path,
        SortMode::Title => TrackOrder::Title,
        SortMode::Artist => TrackOrder::Artist,
    }
}

/// What the host must do with the sink after a pause toggle.
#[derive(Clone, Copy, PartialEq, Eq, Structural, Debug)]
pub enum PauseAction {
    /// Nothing to do.
    Idle,
    /// Pause the sink.
    PauseSink,
    /// Resume the sink.
    ResumeSink,
    /// Load and play the selected track, reporting back via `play_selected`.
    StartSelected,
}

/// What the host must do after a completion check.
#[derive(Clone, Copy, PartialEq, Eq, Structural, Debug)]
pub enum CompletionAction {
    /// Nothing to do.
    Idle,
    /// Seek the sink back to the start of the current track.
    RestartCurrent,
    /// Load the given catalog index, reporting back via `play_selected`.
    LoadTrack(usize),
}

/// What the host must do after a previous-track request.
#[derive(Clone, Copy, PartialEq, Eq, Structural, Debug)]
pub enum PreviousAction {
    /// Seek the sink back to the start of the current track.
    RestartCurrent,
    /// Load the given catalog index, reporting back via `play_selected`.
    LoadTrack(usize),
}

pub struct App {
    pub tracks: Vec<Track>,
    /// The highlighted playlist row, if any.
    pub list_selected: Option<usize>,
    pub player: Player,
    /// Catalog index of the playing track, if any.
    pub playing_index: Option<usize>,
    pub running: bool,
    pub repeat_mode: RepeatMode,
    pub shuffle: bool,
    pub sort_mode: SortMode,
    pub show_help: bool,
    pub show_lyrics: bool,
    /// A transient message and the clock reading at which it was set.
    pub status_message: Option<(String, u64)>,
    /// Traversal order over catalog indices; always a permutation of them.
    pub queue: Vec<usize>,
    /// Cursor into `queue`, if anything was selected for playback.
    pub queue_index: Option<usize>,
}

impl App {
    /// The cross-referencing invariants: the queue permutes the catalog
    /// indices, and every cursor or index in the structure is in range.
    pub open spec fn wf(self) -> bool {
        &&& is_permutation(self.queue@, self.tracks@.len())
        &&& (self.queue_index matches Some(q) ==> q < self.queue@.len())
        &&& (self.playing_index matches Some(p) ==> p < self.tracks@.len())
        &&& (self.list_selected matches Some(s) ==> s < self.tracks@.len())
        &&& self.player.wf()
    }

    /// The selected row, defaulting to the first.
    pub open spec fn spec_selected(self) -> usize {
        match self.list_selected {
            Option::Some(s) => s,
            Option::None => 0,
        }
    }

    /// The selected row, defaulting to the first.
    pub fn selected(&self) -> (r: usize)
        ensures
            r == self.spec_selected(),
    {
        match self.list_selected {
            Some(s) => s,
            None => 0,
        }
    }

    /// Moves the selection one row up, stopping at the top.
    pub fn select_previous(&mut self)
        requires
            old(self).wf(),
        ensures
            final(self).wf(),
            final(self).list_selected == (if old(self).spec_selected() > 0 {
                Option::Some((old(self).spec_selected() - 1) as usize)
            } else {
                old(self).list_selected
            }),
            same_except_selection(*old(self), *final(self)),
    {
        let current = self.selected();
        if current > 0 {
            self.list_selected = Some(current - 1);
        }
    }

    /// Moves the selection one row down, stopping at the last track.
    pub fn select_next(&mut self)
        requires
            old(self).wf(),
        ensures
            final(self).wf(),
            final(self).list_selected == (if old(self).tracks@.len() > 0 && old(self).spec_selected() + 1 < old(self).tracks@.len() {
                Option::Some((old(self).spec_selected() + 1) as usize)
            } else {
                old(self).list_selected
            }),
            same_except_selection(*old(self), *final(self)),
    {
        let current = self.selected();
        if self.tracks.len() > 0 && current < self.tracks.len() - 1 {
            self.list_selected = Some(current + 1);
        }
    }

    /// Advances repeat through its cycle: off, all, one, off.
    pub fn check_repeat_mode(&mut self)
        ensures
            final(self).repeat_mode == spec_next_repeat(old(self).repeat_mode),
            same_except_repeat(*old(self), *final(self)),
    {
        self.repeat_mode = match self.repeat_mode {
            RepeatMode::Off => RepeatMode::All,
            RepeatMode::All => RepeatMode::One,
            RepeatMode::One => RepeatMode::Off,
        };
    }

    /// Shows or hides help; showing it hides the lyrics pane.
    pub fn toggle_help(&mut self)
        ensures
            final(self).show_help == !old(self).show_help,
            final(self).show_lyrics == (if !old(self).show_help {
                false
            } else {
                old(self).show_lyrics
            }),
            same_except_panes(*old(self), *final(self)),
    {
        self.show_help = !self.show_help;
        if self.show_help {
            self.show_lyrics = false;
        }
    }

    /// Shows or hides lyrics; showing them hides the help pane.
    pub fn toggle_lyrics(&mut self)
        ensures
            final(self).show_lyrics == !old(self).show_lyrics,
            final(self).show_help == (if !old(self).show_lyrics {
                false
            } else {
                old(self).show_help
            }),
            same_except_panes(*old(self), *final(self)),
    {
        self.show_lyrics = !self.show_lyrics;
        if self.show_lyrics {
            self.show_help = false;
        }
    }

    /// Stops playback and clears the playing identity; the host resets the
    /// sink alongside.
    pub fn stop(&mut self)
        ensures
            final(self).player.state == PlaybackState::Stopped,
            final(self).player.current_track is None,
            final(self).player.volume == old(self).player.volume,
            final(self).player.muted == old(self).player.muted,
            final(self).player.pre_mute_volume == old(self).player.pre_mute_volume,
            final(self).playing_index is None,
            same_except_playback(*old(self), *final(self)),
    {
        self.player.stop();
        self.playing_index = None;
    }

    /// One volume step in the given direction; the host applies the new
    /// volume to the sink.
    pub fn change_volume(&mut self, increase: bool)
        ensures
            final(self).player.volume == clamp_tenths(
                if increase {
                    old(self).player.volume + 1
                } else {
                    old(self).player.volume - 1
                },
            ),
            final(self).player.state == old(self).player.state,
            final(self).player.current_track == old(self).player.current_track,
            final(self).player.muted == old(self).player.muted,
            final(self).player.pre_mute_volume == old(self).player.pre_mute_volume,
            same_except_playback(*old(self), *final(self)),
            final(self).playing_index == old(self).playing_index,
    {
        if increase {
            self.player.increase_volume();
        } else {
            self.player.decrease_volume();
        }
    }

    /// Mutes or unmutes; the host applies the new volume to the sink.
    pub fn toggle_mute(&mut self)
        ensures
            final(self).player == spec_toggle_mute(old(self).player),
            same_except_playback(*old(self), *final(self)),
            final(self).playing_index == old(self).playing_index,
    {
        self.player.toggle_mute();
    }

    /// The position the sink should seek to: the signed delta applied to the
    /// current position, floored at zero.
    pub fn seek_by(&self, position_secs: u64, seconds: i64) -> (r: u64)
        requires
            seconds > 0 ==> position_secs + seconds <= u64::MAX,
            seconds > i64::MIN,
        ensures
            r == spec_seek_by(position_secs, seconds),
    {
        if seconds > 0 {
            position_secs + (seconds as u64)
        } else {
            let sub = (-seconds) as u64;
            if position_secs > sub {
                position_secs - sub
            } else {
                0
            }
        }
    }

    /// Five seconds forward.
    pub fn seek_forward(&self, position_secs: u64) -> (r: u64)
        requires
            position_secs + 5 <= u64::MAX,
        ensures
            r == spec_seek_by(position_secs, 5i64),
    {
        self.seek_by(position_secs, 5)
    }

    /// Five seconds back, floored at zero.
    pub fn seek_backward(&self, position_secs: u64) -> (r: u64)
        ensures
            r == spec_seek_by(position_secs, -5i64),
    {
        self.seek_by(position_secs, -5)
    }

    /// The position for a percentage jump into the playing track, or nothing
    /// when nothing is playing.
    pub fn seek_percentage(&self, percent: u8) -> (r: Option<u64>)
        requires
            self.wf(),
            percent <= 100,
        ensures
            r == (match self.playing_index {
                Option::Some(i) => Option::Some(
                    (self.tracks@[i as int].duration * percent / 100) as u64,
                ),
                Option::None => Option::None::<u64>,
            }),
    {
        match self.playing_index {
            Some(index) => {
                let duration = self.tracks[index].duration;
                let d128: u128 = duration as u128;
                let p128: u128 = percent as u128;
                proof {
                    assert(d128 * p128 <= 0xffffffffffffffffu128 * 100) by (nonlinear_arith)
                        requires
                            d128 <= 0xffffffffffffffffu128,
                            p128 <= 100,
                    ;
                    assert(d128 * p128 / 100 <= d128) by (nonlinear_arith)
                        requires
                            p128 <= 100,
                    ;
                }
                let wide: u128 = d128 * p128 / 100;
                Some(wide as u64)
            },
            None => None,
        }
    }

    /// The upcoming track: the next queue entry, or the head of the queue
    /// when repeat-all wraps around.
    pub fn next_track_index(&self) -> (r: Option<usize>)
        requires
            self.wf(),
        ensures
            r == spec_next_track_index(*self),
    {
        match self.queue_index {
            Some(q) => {
                let n = self.queue.len();
                proof {
                    assert(q < n);
                }
                if q + 1 < n {
                    Some(self.queue[q + 1])
                } else if self.repeat_mode == RepeatMode::All && n > 0 {
                    Some(self.queue[0])
                } else {
                    None
                }
            },
            None => None,
        }
    }

    /// Posts a transient status message at the given clock reading.
    pub fn set_status(&mut self, message: String, now_ms: u64)
        ensures
            final(self).status_message matches Some(m) && m.0 == message && m.1 == now_ms,
            same_except_status(*old(self), *final(self)),
    {
        self.status_message = Some((message, now_ms));
    }

    /// Drops the status message once it has been up longer than three
    /// seconds.
    pub fn check_status_message(&mut self, now_ms: u64)
        ensures
            final(self).status_message == (match old(self).status_message {
                Option::Some(m) => if now_ms >= m.1 && (now_ms - m.1) / 1000 > 3 {
                    Option::None
                } else {
                    old(self).status_message
                },
                Option::None => Option::None,
            }),
            same_except_status(*old(self), *final(self)),
    {
        let expired = match &self.status_message {
            Some(m) => now_ms >= m.1 && (now_ms - m.1) / 1000 > 3,
            None => false,
        };
        if expired {
            self.status_message = None;
        }
    }

    /// Ends the session: stops playback, stops the main loop, and returns
    /// the state to persist, remembering the playing track by path.
    pub fn quit(&mut self) -> (st: AppState)
        requires
            old(self).wf(),
        ensures
            final(self).wf(),
            !final(self).running,
            final(self).player.state == PlaybackState::Stopped,
            final(self).player.current_track is None,
            final(self).player.volume == old(self).player.volume,
            st.volume == old(self).player.volume,
            st.shuffle == old(self).shuffle,
            st.repeat_mode == old(self).repeat_mode,
            st.sort_mode == old(self).sort_mode,
            (old(self).playing_index matches Some(i) ==> st.last_track_path matches Some(p)
                && p@ == old(self).tracks@[i as int].path@),
            (old(self).playing_index is None ==> st.last_track_path is None),
            final(self).tracks == old(self).tracks,
            final(self).queue == old(self).queue,
            final(self).queue_index == old(self).queue_index,
            final(self).playing_index == old(self).playing_index,
            final(self).list_selected == old(self).list_selected,
            final(self).repeat_mode == old(self).repeat_mode,
            final(self).shuffle == old(self).shuffle,
            final(self).sort_mode == old(self).sort_mode,
            final(self).status_message == old(self).status_message,
    {
        self.player.stop();
        self.running = false;
        let last_track_path = match self.playing_index {
            Some(i) => Some(self.tracks[i].path.clone()),
            None => None,
        };
        AppState {
            volume: self.player.volume,
            shuffle: self.shuffle,
            repeat_mode: self.repeat_mode,
            sort_mode: self.sort_mode,
            last_track_path,
        }
    }

    /// Commits the outcome of loading the selected track: on success it
    /// starts playing and the cursor relocates to it; on failure the player
    /// falls back to stopped with nothing loaded (the implicit stop of a
    /// play request) and a status message appears.  With an empty catalog
    /// nothing happens.
    pub fn play_selected(&mut self, load: Result<(), String>, now_ms: u64)
        requires
            old(self).wf(),
        ensures
            final(self).wf(),
            old(self).tracks@.len() == 0 ==> *final(self) == *old(self),
            (old(self).tracks@.len() > 0 && load is Ok) ==> ({
                &&& final(self).playing_index == Option::Some(old(self).spec_selected())
                &&& final(self).player.state == PlaybackState::Playing
                &&& (final(self).player.current_track matches Some(t) && t@ == old(self).tracks@[old(self).spec_selected() as int].title@)
                &&& final(self).player.volume == old(self).player.volume
                &&& final(self).player.muted == old(self).player.muted
                &&& final(self).player.pre_mute_volume == old(self).player.pre_mute_volume
                &&& (final(self).queue_index matches Some(q) && find_usize(
                    old(self).queue@,
                    old(self).spec_selected(),
                ) == Option::Some(q as int))
                &&& final(self).queue == old(self).queue
                &&& final(self).tracks == old(self).tracks
                &&& final(self).list_selected == old(self).list_selected
                &&& final(self).status_message == old(self).status_message
                &&& final(self).repeat_mode == old(self).repeat_mode
                &&& final(self).shuffle == old(self).shuffle
                &&& final(self).sort_mode == old(self).sort_mode
                &&& final(self).show_help == old(self).show_help
                &&& final(self).show_lyrics == old(self).show_lyrics
                &&& final(self).running == old(self).running
            }),
            (match load {
                Result::Err(e) => old(self).tracks@.len() > 0 ==> ({
                    &&& (final(self).status_message matches Some(m) && m.0@ == "Error: "@ + e@
                        && m.1 == now_ms)
                    &&& final(self).player.state == PlaybackState::Stopped
                    &&& final(self).player.current_track is None
                    &&& final(self).player.volume == old(self).player.volume
                    &&& final(self).player.muted == old(self).player.muted
                    &&& final(self).player.pre_mute_volume == old(self).player.pre_mute_volume
                    &&& final(self).playing_index == old(self).playing_index
                    &&& final(self).tracks == old(self).tracks
                    &&& final(self).queue == old(self).queue
                    &&& final(self).queue_index == old(self).queue_index
                    &&& final(self).list_selected == old(self).list_selected
                    &&& final(self).repeat_mode == old(self).repeat_mode
                    &&& final(self).shuffle == old(self).shuffle
                    &&& final(self).sort_mode == old(self).sort_mode
                    &&& final(self).show_help == old(self).show_help
                    &&& final(self).show_lyrics == old(self).show_lyrics
                    &&& final(self).running == old(self).running
                }),
                Result::Ok(_) => true,
            }),
    {
        if self.tracks.len() == 0 {
            return ;
        }
        let index = self.selected();
        match load {
            Ok(()) => {
                self.player.play(self.tracks[index].title.as_str());
                self.playing_index = Some(index);
                proof {
                    let ghost v = index as int;
                    assert(0 <= v < self.tracks@.len());
                    assert(self.queue@.contains(v as usize));
                    assert(v as usize == index);
                    lemma_find_usize_props(self.queue@, index);
                }
                match position_of(&self.queue, index) {
                    Some(pos) => {
                        self.queue_index = Some(pos);
                    },
                    None => {
                        proof {
                            assert(false);
                        }
                    },
                }
            },
            Err(e) => {
                self.player.stop();
                let mut msg = String::from_str("Error: ");
                msg.append(e.as_str());
                self.set_status(msg, now_ms);
            },
        }
    }

    /// Moves the cursor to the next queue entry, wrapping to the front under
    /// repeat-all, and returns the catalog index to load; nothing to load
    /// when the queue is exhausted or the catalog empty.
    pub fn play_next(&mut self) -> (r: Option<usize>)
        requires
            old(self).wf(),
        ensures
            final(self).wf(),
            play_next_rel(*old(self), *final(self), r),
    {
        if self.tracks.len() == 0 {
            return None;
        }
        let qlen = self.queue.len();
        let current_q = match self.queue_index {
            Some(q) => q,
            None => 0,
        };
        let final_q = if current_q + 1 >= qlen {
            if self.repeat_mode == RepeatMode::All {
                0
            } else {
                return None;
            }
        } else {
            current_q + 1
        };
        self.queue_index = Some(final_q);
        let track_idx = self.queue[final_q];
        self.list_selected = Some(track_idx);
        Some(track_idx)
    }

    /// The next-track key: the same step as `play_next`.
    pub fn play_next_track(&mut self) -> (r: Option<usize>)
        requires
            old(self).wf(),
        ensures
            final(self).wf(),
            play_next_rel(*old(self), *final(self), r),
    {
        self.play_next()
    }

    /// The space-bar: toggles pause while a track is loaded; from stopped,
    /// asks the host to start the selected track, picking a random row first
    /// under shuffle.
    pub fn toggle_pause(&mut self) -> (r: PauseAction)
        requires
            old(self).wf(),
        ensures
            final(self).wf(),
            old(self).player.state == PlaybackState::Playing ==> (r == PauseAction::PauseSink
                && final(self).player.state == PlaybackState::Paused && final(self).player.current_track == old(self).player.current_track && final(self).player.volume
                == old(self).player.volume && final(self).playing_index == old(self).playing_index
                && same_except_playback(*old(self), *final(self))),
            old(self).player.state == PlaybackState::Paused ==> (r == PauseAction::ResumeSink
                && final(self).player.state == PlaybackState::Playing && final(self).player.current_track == old(self).player.current_track && final(self).player.volume
                == old(self).player.volume && final(self).playing_index == old(self).playing_index
                && same_except_playback(*old(self), *final(self))),
            (old(self).player.state == PlaybackState::Stopped && old(self).tracks@.len() == 0) ==> (
            *final(self) == *old(self) && r == PauseAction::Idle),
            (old(self).player.state == PlaybackState::Stopped && old(self).tracks@.len() > 0 && !old(self).shuffle) ==> (*final(self) == *old(self) && r == PauseAction::StartSelected),
            (old(self).player.state == PlaybackState::Stopped && old(self).tracks@.len() > 0 && old(self).shuffle) ==> (r == PauseAction::StartSelected && (final(self).list_selected matches
                Some(s) && s < old(self).tracks@.len()) && same_except_selection(
                *old(self),
                *final(self),
            )),
    {
        match self.player.state {
            PlaybackState::Playing => {
                self.player.toggle_pause();
                PauseAction::PauseSink
            },
            PlaybackState::Paused => {
                self.player.toggle_pause();
                PauseAction::ResumeSink
            },
            PlaybackState::Stopped => {
                if self.tracks.len() == 0 {
                    return PauseAction::Idle;
                }
                if self.shuffle {
                    let index = random_index(self.tracks.len());
                    self.list_selected = Some(index);
                }
                PauseAction::StartSelected
            },
        }
    }

    /// More than three seconds in, the previous-track key restarts the
    /// current track; otherwise the cursor steps back, wrapping at the
    /// front, and the track there is handed back to load.
    pub fn play_previous_track(&mut self, position_secs: u64) -> (r: PreviousAction)
        requires
            old(self).wf(),
            position_secs <= 3 ==> old(self).tracks@.len() > 0,
        ensures
            final(self).wf(),
            position_secs > 3 ==> (*final(self) == *old(self) && r
                == PreviousAction::RestartCurrent),
            position_secs <= 3 ==> ({
                let cur = (match old(self).queue_index {
                    Option::Some(q) => q as int,
                    Option::None => 0,
                });
                let prev = if cur > 0 {
                    cur - 1
                } else {
                    old(self).queue@.len() - 1
                };
                &&& final(self).queue_index == Option::Some(prev as usize)
                &&& final(self).list_selected == Option::Some(old(self).queue@[prev])
                &&& r == PreviousAction::LoadTrack(old(self).queue@[prev])
                &&& final(self).tracks == old(self).tracks
                &&& final(self).queue == old(self).queue
                &&& final(self).playing_index == old(self).playing_index
                &&& final(self).player == old(self).player
                &&& final(self).repeat_mode == old(self).repeat_mode
                &&& final(self).shuffle == old(self).shuffle
                &&& final(self).sort_mode == old(self).sort_mode
                &&& final(self).show_help == old(self).show_help
                &&& final(self).show_lyrics == old(self).show_lyrics
                &&& final(self).status_message == old(self).status_message
                &&& final(self).running == old(self).running
            }),
    {
        if position_secs > 3 {
            return PreviousAction::RestartCurrent;
        }
        proof {
            assert(self.queue@.len() == self.tracks@.len());
        }
        let current_q = match self.queue_index {
            Some(q) => q,
            None => 0,
        };
        let prev_q = if current_q > 0 {
            current_q - 1
        } else {
            self.queue.len() - 1
        };
        self.queue_index = Some(prev_q);
        let track_idx = self.queue[prev_q];
        self.list_selected = Some(track_idx);
        PreviousAction::LoadTrack(track_idx)
    }

    /// The once-per-tick completion check.  When the sink has drained while
    /// logically playing: repeat-one restarts the track; repeat-off at the
    /// end of an unshuffled catalog stops cleanly; anything else advances
    /// through the queue, and a queue that reports no next entry — reachable
    /// under shuffle with repeat off — also transitions to stopped rather
    /// than idling as if still playing.
    pub fn check_playback(&mut self, sink_empty: bool) -> (r: CompletionAction)
        requires
            old(self).wf(),
        ensures
            final(self).wf(),
            check_playback_rel(*old(self), *final(self), sink_empty, r),
            (sink_empty && old(self).player.state == PlaybackState::Playing && old(self).repeat_mode == RepeatMode::One) ==> (r == CompletionAction::RestartCurrent && final(self).player.state == PlaybackState::Playing && final(self).playing_index == old(self).playing_index && final(self).player.current_track == old(self).player.current_track),
            (sink_empty && old(self).player.state == PlaybackState::Playing && old(self).repeat_mode == RepeatMode::All && (old(self).queue_index matches Some(q) && q + 1
                == old(self).queue@.len()) && old(self).tracks@.len() > 0) ==> final(self).queue_index == Option::Some(0usize),
            (sink_empty && old(self).player.state == PlaybackState::Playing && !old(self).shuffle
                && old(self).repeat_mode == RepeatMode::Off && (match old(self).playing_index {
                Option::Some(i) => i + 1,
                Option::None => 1,
            }) >= old(self).tracks@.len()) ==> (final(self).player.state == PlaybackState::Stopped
                && final(self).playing_index is None),
            (sink_empty && old(self).player.state == PlaybackState::Playing && old(self).shuffle
                && old(self).repeat_mode == RepeatMode::Off && (old(self).queue_index matches Some(
                q,
            ) && q + 1 == old(self).queue@.len())) ==> (final(self).player.state
                == PlaybackState::Stopped && final(self).playing_index is None && r
                == CompletionAction::Idle),
    {
        if self.player.is_finished(sink_empty) {
            let n = self.tracks.len();
            let current_index = match self.playing_index {
                Some(i) => i,
                None => 0,
            };
            proof {
                assert(current_index == 0 || current_index < n);
            }
            let is_last_track = current_index + 1 >= n;
            if !self.shuffle && self.repeat_mode == RepeatMode::Off && is_last_track {
                self.playing_index = None;
                self.player.state = PlaybackState::Stopped;
                CompletionAction::Idle
            } else if self.repeat_mode == RepeatMode::One {
                self.player.state = PlaybackState::Playing;
                CompletionAction::RestartCurrent
            } else {
                match self.play_next() {
                    Some(i) => CompletionAction::LoadTrack(i),
                    None => {
                        self.playing_index = None;
                        self.player.state = PlaybackState::Stopped;
                        CompletionAction::Idle
                    },
                }
            }
        } else {
            CompletionAction::Idle
        }
    }

    /// Flips shuffle.  Enabling reshuffles the queue and relocates the
    /// cursor to the playing track; disabling restores identity order, where
    /// position and catalog index coincide.  Playback itself is untouched.
    pub fn toggle_shuffle(&mut self)
        requires
            old(self).wf(),
        ensures
            final(self).wf(),
            toggle_shuffle_rel(*old(self), *final(self)),
            !old(self).shuffle ==> (old(self).playing_index matches Some(p) ==> (final(self).queue_index matches Some(q) && q < final(self).queue@.len() && final(self).queue@[q as int] == p)),
            final(self).player == old(self).player,
    {
        self.shuffle = !self.shuffle;
        if self.shuffle {
            let ghost pre_q = self.queue@;
            shuffle_in_place(&mut self.queue);
            proof {
                lemma_permutation_from_multiset(pre_q, self.queue@, self.tracks@.len());
            }
            if let Some(current_idx) = self.playing_index {
                proof {
                    let ghost v = current_idx as int;
                    assert(0 <= v < self.tracks@.len());
                    assert(self.queue@.contains(v as usize));
                    assert(v as usize == current_idx);
                    lemma_find_usize_props(self.queue@, current_idx);
                }
                match position_of(&self.queue, current_idx) {
                    Some(pos) => {
                        self.queue_index = Some(pos);
                    },
                    None => {
                        proof {
                            assert(false);
                        }
                    },
                }
            }
        } else {
            self.queue = identity_queue(self.tracks.len());
            self.queue_index = self.playing_index;
        }
    }
}

/// How one `play_next` call relates its before and after states and the
/// returned load request.
pub open spec fn play_next_rel(pre: App, post: App, r: Option<usize>) -> bool {
    if pre.tracks@.len() == 0 {
        post == pre && r is None
    } else {
        let cur = (match pre.queue_index {
            Option::Some(q) => q as int,
            Option::None => 0,
        });
        if cur + 1 >= pre.queue@.len() && pre.repeat_mode != RepeatMode::All {
            post == pre && r is None
        } else {
            let fq = if cur + 1 >= pre.queue@.len() {
                0
            } else {
                cur + 1
            };
            let ti = pre.queue@[fq];
            &&& post.queue_index == Option::Some(fq as usize)
            &&& post.list_selected == Option::Some(ti)
            &&& r == Option::Some(ti)
            &&& post.tracks == pre.tracks
            &&& post.queue == pre.queue
            &&& post.playing_index == pre.playing_index
            &&& post.player == pre.player
            &&& post.repeat_mode == pre.repeat_mode
            &&& post.shuffle == pre.shuffle
            &&& post.sort_mode == pre.sort_mode
            &&& post.show_help == pre.show_help
            &&& post.show_lyrics == pre.show_lyrics
            &&& post.status_message == pre.status_message
            &&& post.running == pre.running
        }
    }
}

/// How one completion check relates its before and after states, the sink
/// reading it was given, and the action it hands back.
pub open spec fn check_playback_rel(pre: App, post: App, sink_empty: bool, r: CompletionAction) -> bool {
    if !(sink_empty && pre.player.state == PlaybackState::Playing) {
        post == pre && r == CompletionAction::Idle
    } else {
        let cur = (match pre.playing_index {
            Option::Some(i) => i as int,
            Option::None => 0,
        });
        if !pre.shuffle && pre.repeat_mode == RepeatMode::Off && cur + 1 >= pre.tracks@.len() {
            &&& post.playing_index is None
            &&& post.player.state == PlaybackState::Stopped
            &&& post.player.current_track == pre.player.current_track
            &&& post.player.volume == pre.player.volume
            &&& post.player.muted == pre.player.muted
            &&& post.player.pre_mute_volume == pre.player.pre_mute_volume
            &&& same_except_playback(pre, post)
            &&& r == CompletionAction::Idle
        } else if pre.repeat_mode == RepeatMode::One {
            post == pre && r == CompletionAction::RestartCurrent
        } else {
            match r {
                CompletionAction::LoadTrack(i) => play_next_rel(pre, post, Option::Some(i)),
                CompletionAction::Idle => {
                    // the queue reported no next entry: an explicit stop
                    let cur_q = (match pre.queue_index {
                        Option::Some(q) => q as int,
                        Option::None => 0,
                    });
                    &&& (pre.tracks@.len() == 0 || (cur_q + 1 >= pre.queue@.len()
                        && pre.repeat_mode != RepeatMode::All))
                    &&& post.playing_index is None
                    &&& post.player.state == PlaybackState::Stopped
                    &&& post.player.current_track == pre.player.current_track
                    &&& post.player.volume == pre.player.volume
                    &&& post.player.muted == pre.player.muted
                    &&& post.player.pre_mute_volume == pre.player.pre_mute_volume
                    &&& same_except_playback(pre, post)
                },
                CompletionAction::RestartCurrent => false,
            }
        }
    }
}

/// How one shuffle toggle relates its before and after states: preferences,
/// catalog and playback are untouched, the queue stays a permutation, and
/// the cursor follows the playing track.
pub open spec fn toggle_shuffle_rel(pre: App, post: App) -> bool {
    &&& post.shuffle == !pre.shuffle
    &&& post.tracks == pre.tracks
    &&& post.player == pre.player
    &&& post.playing_index == pre.playing_index
    &&& post.list_selected == pre.list_selected
    &&& post.repeat_mode == pre.repeat_mode
    &&& post.sort_mode == pre.sort_mode
    &&& post.show_help == pre.show_help
    &&& post.show_lyrics == pre.show_lyrics
    &&& post.status_message == pre.status_message
    &&& post.running == pre.running
    &&& is_permutation(post.queue@, post.tracks@.len())
    &&& if post.shuffle {
        &&& (pre.playing_index matches Some(p) ==> (post.queue_index matches Some(q) && find_usize(
            post.queue@,
            p,
        ) == Option::Some(q as int)))
        &&& (pre.playing_index is None ==> post.queue_index == pre.queue_index)
    } else {
        &&& post.queue@ == identity_seq(pre.tracks@.len())
        &&& post.queue_index == pre.playing_index
    }
}

impl App {
    /// Builds the session core from the scanned catalog and the restored
    /// session state: selection, playing identity and queue cursor all come
    /// from relocating the remembered track by path.
    pub fn new(tracks: Vec<Track>, state: AppState) -> (app: App)
        requires
            state.wf(),
        ensures
            app.wf(),
            app.tracks == tracks,
            app.running,
            app.repeat_mode == state.repeat_mode,
            app.shuffle == state.shuffle,
            app.sort_mode == state.sort_mode,
            !app.show_help,
            !app.show_lyrics,
            app.status_message is None,
            app.player.state == PlaybackState::Stopped,
            app.player.current_track is None,
            app.player.volume == state.volume,
            !app.player.muted,
            tracks@.len() == 0 ==> (app.list_selected is None && app.playing_index is None
                && app.queue_index is None),
            tracks@.len() > 0 ==> app.list_selected == (match state.last_track_path {
                Option::Some(p) => (match find_path(tracks@, p@) {
                    Option::Some(i) => Option::Some(i as usize),
                    Option::None => Option::Some(0usize),
                }),
                Option::None => Option::Some(0usize),
            }),
            (match state.last_track_path {
                Option::Some(p) => tracks@.len() > 0 ==> (match find_path(tracks@, p@) {
                    Option::Some(i) => app.playing_index == Option::Some(i as usize),
                    Option::None => app.playing_index is None,
                }),
                Option::None => app.playing_index is None,
            }),
            is_permutation(app.queue@, tracks@.len()),
            !state.shuffle ==> app.queue@ == identity_seq(tracks@.len()),
            !state.shuffle ==> app.queue_index == app.playing_index,
            state.shuffle ==> (app.playing_index matches Some(ci) ==> (app.queue_index matches
                Some(q) && find_usize(app.queue@, ci) == Option::Some(q as int))),
            state.shuffle ==> (app.playing_index is None ==> app.queue_index is None),
    {
        let n = tracks.len();
        let last_pos: Option<usize> = match &state.last_track_path {
            Some(p) => position_by_path(&tracks, p.as_str()),
            None => None,
        };
        proof {
            match &state.last_track_path {
                Option::Some(p) => lemma_find_path_props(tracks@, p@),
                Option::None => {},
            }
        }
        let list_selected: Option<usize> = if n > 0 {
            match last_pos {
                Some(i) => Some(i),
                None => Some(0),
            }
        } else {
            None
        };
        let mut player = Player::new();
        player.set_volume(state.volume as i32);
        let playing_index: Option<usize> = if n > 0 {
            last_pos
        } else {
            None
        };
        let mut queue = identity_queue(n);
        let mut queue_index: Option<usize> = None;
        if n > 0 {
            if state.last_track_path.is_some() {
                if state.shuffle {
                    let ghost pre_q = queue@;
                    shuffle_in_place(&mut queue);
                    proof {
                        lemma_permutation_from_multiset(pre_q, queue@, n as nat);
                    }
                    if let Some(idx) = last_pos {
                        proof {
                            let ghost v = idx as int;
                            assert(0 <= v < tracks@.len());
                            assert(queue@.contains(v as usize));
                            assert(v as usize == idx);
                            lemma_find_usize_props(queue@, idx);
                        }
                        match position_of(&queue, idx) {
                            Some(pos) => {
                                queue_index = Some(pos);
                            },
                            None => {
                                proof {
                                    assert(false);
                                }
                            },
                        }
                    }
                } else {
                    queue_index = last_pos;
                }
            }
        }
        App {
            tracks,
            list_selected,
            player,
            playing_index,
            running: true,
            repeat_mode: state.repeat_mode,
            shuffle: state.shuffle,
            sort_mode: state.sort_mode,
            show_help: false,
            show_lyrics: false,
            status_message: None,
            queue,
            queue_index,
        }
    }

    /// Re-sorts the catalog under the current sort mode.  The playing track
    /// is re-located by path, so sorting never changes what is playing, and
    /// the queue is rebuilt to match the shuffle flag.
    pub fn sort_tracks(&mut self)
        requires
            old(self).wf(),
        ensures
            final(self).wf(),
            catalog_resort_rel(*old(self), *final(self), old(self).sort_mode),
            final(self).sort_mode == old(self).sort_mode,
    {
        let playing_path: Option<String> = match self.playing_index {
            Some(i) => Some(self.tracks[i].path.clone()),
            None => None,
        };
        let order = match self.sort_mode {
            SortMode::Filename => TrackOrder::Path,
            SortMode::Title => TrackOrder::Title,
            SortMode::Artist => TrackOrder::Artist,
        };
        sort_catalog(&mut self.tracks, order);
        match &playing_path {
            Some(path) => {
                proof {
                    match old(self).playing_index {
                        Option::Some(i) => {
                            let t = old(self).tracks@[i as int];
                            assert(path@ == t.path@);
                            old(self).tracks@.to_multiset_ensures();
                            self.tracks@.to_multiset_ensures();
                            assert(old(self).tracks@.contains(t));
                            assert(old(self).tracks@.to_multiset().count(t) > 0);
                            assert(self.tracks@.to_multiset().count(t) > 0);
                            assert(self.tracks@.contains(t));
                            lemma_find_path_props(self.tracks@, path@);
                            match find_path(self.tracks@, path@) {
                                Option::Some(j) => {},
                                Option::None => {
                                    let k = choose|k: int|
                                        0 <= k < self.tracks@.len() && self.tracks@[k] == t;
                                    assert(self.tracks@[k].path@ != path@);
                                    assert(false);
                                },
                            }
                        },
                        Option::None => {
                            assert(false);
                        },
                    }
                }
                let new_playing = position_by_path(&self.tracks, path.as_str());
                proof {
                    assert(new_playing is Some);
                }
                self.playing_index = new_playing;
            },
            None => {},
        }
        let n = self.tracks.len();
        if self.shuffle {
            let mut new_queue = identity_queue(n);
            shuffle_in_place(&mut new_queue);
            proof {
                lemma_permutation_from_multiset(identity_seq(n as nat), new_queue@, n as nat);
            }
            self.queue = new_queue;
            if let Some(ci) = self.playing_index {
                proof {
                    let ghost v = ci as int;
                    assert(0 <= v < self.tracks@.len());
                    assert(self.queue@.contains(v as usize));
                    assert(v as usize == ci);
                    lemma_find_usize_props(self.queue@, ci);
                }
                match position_of(&self.queue, ci) {
                    Some(pos) => {
                        self.queue_index = Some(pos);
                    },
                    None => {
                        proof {
                            assert(false);
                        }
                    },
                }
            }
        } else {
            self.queue = identity_queue(n);
            self.queue_index = self.playing_index;
        }
        if self.list_selected.is_none() && self.tracks.len() > 0 {
            self.list_selected = Some(0);
        }
    }

    /// Advances the sort mode through its cycle and re-sorts the catalog
    /// under the new mode.
    pub fn cycle_sort_mode(&mut self)
        requires
            old(self).wf(),
        ensures
            final(self).wf(),
            final(self).sort_mode == spec_next_sort(old(self).sort_mode),
            catalog_resort_rel(*old(self), *final(self), spec_next_sort(old(self).sort_mode)),
    {
        self.sort_mode = match self.sort_mode {
            SortMode::Filename => SortMode::Title,
            SortMode::Title => SortMode::Artist,
            SortMode::Artist => SortMode::Filename,
        };
        self.sort_tracks();
    }
}

/// How a catalog re-sort under `mode` relates its before and after states:
/// the catalog is re-ordered but keeps its contents, the playing track is
/// re-located by path, and the queue is rebuilt to match the shuffle flag.
pub open spec fn catalog_resort_rel(pre: App, post: App, mode: SortMode) -> bool {
    &&& post.tracks@.to_multiset() == pre.tracks@.to_multiset()
    &&& post.tracks@.len() == pre.tracks@.len()
    &&& sorted_by(post.tracks@, order_of(mode))
    &&& post.tracks@ == stable_sort(pre.tracks@, order_of(mode))
    &&& post.player == pre.player
    &&& post.repeat_mode == pre.repeat_mode
    &&& post.shuffle == pre.shuffle
    &&& post.show_help == pre.show_help
    &&& post.show_lyrics == pre.show_lyrics
    &&& post.status_message == pre.status_message
    &&& post.running == pre.running
    &&& is_permutation(post.queue@, post.tracks@.len())
    &&& (match pre.playing_index {
        Option::Some(i) => (post.playing_index matches Some(j) && find_path(
            post.tracks@,
            pre.tracks@[i as int].path@,
        ) == Option::Some(j as int)),
        Option::None => post.playing_index is None,
    })
    &&& if pre.shuffle {
        &&& (post.playing_index matches Some(ci) ==> (post.queue_index matches Some(q)
            && find_usize(post.queue@, ci) == Option::Some(q as int)))
        &&& (post.playing_index is None ==> post.queue_index == pre.queue_index)
    } else {
        &&& post.queue@ == identity_seq(post.tracks@.len())
        &&& post.queue_index == post.playing_index
    }
    &&& post.list_selected == (if pre.list_selected is None && post.tracks@.len() > 0 {
        Option::Some(0usize)
    } else {
        pre.list_selected
    })
}

/// Toggling shuffle on and then off restores the identity ordering and
/// leaves the cursor at the playing catalog index.
pub proof fn lemma_toggle_shuffle_round_trip(s0: App, s1: App, s2: App)
    requires
        !s0.shuffle,
        toggle_shuffle_rel(s0, s1),
        toggle_shuffle_rel(s1, s2),
    ensures
        !s2.shuffle,
        s2.queue@ == identity_seq(s0.tracks@.len()),
        s2.queue_index == s0.playing_index,
{
}

/// The signed seek delta applied to a position, floored at zero.
pub open spec fn spec_seek_by(pos: u64, delta: i64) -> int {
    if delta > 0 {
        pos + delta
    } else if pos > -delta {
        pos + delta
    } else {
        0
    }
}

/// The upcoming queue entry, wrapping under repeat-all.
pub open spec fn spec_next_track_index(a: App) -> Option<usize> {
    match a.queue_index {
        Option::Some(q) => if q + 1 < a.queue@.len() {
            Option::Some(a.queue@[q + 1])
        } else if a.repeat_mode == RepeatMode::All && a.queue@.len() > 0 {
            Option::Some(a.queue@[0])
        } else {
            Option::None
        },
        Option::None => Option::None,
    }
}

/// All fields equal but the list selection.
pub open spec fn same_except_selection(pre: App, post: App) -> bool {
    &&& post.tracks == pre.tracks
    &&& post.player == pre.player
    &&& post.playing_index == pre.playing_index
    &&& post.running == pre.running
    &&& post.repeat_mode == pre.repeat_mode
    &&& post.shuffle == pre.shuffle
    &&& post.sort_mode == pre.sort_mode
    &&& post.show_help == pre.show_help
    &&& post.show_lyrics == pre.show_lyrics
    &&& post.status_message == pre.status_message
    &&& post.queue == pre.queue
    &&& post.queue_index == pre.queue_index
}

/// All fields equal but the repeat mode.
pub open spec fn same_except_repeat(pre: App, post: App) -> bool {
    &&& post.tracks == pre.tracks
    &&& post.list_selected == pre.list_selected
    &&& post.player == pre.player
    &&& post.playing_index == pre.playing_index
    &&& post.running == pre.running
    &&& post.shuffle == pre.shuffle
    &&& post.sort_mode == pre.sort_mode
    &&& post.show_help == pre.show_help
    &&& post.show_lyrics == pre.show_lyrics
    &&& post.status_message == pre.status_message
    &&& post.queue == pre.queue
    &&& post.queue_index == pre.queue_index
}

/// All fields equal but the two overlay panes.
pub open spec fn same_except_panes(pre: App, post: App) -> bool {
    &&& post.tracks == pre.tracks
    &&& post.list_selected == pre.list_selected
    &&& post.player == pre.player
    &&& post.playing_index == pre.playing_index
    &&& post.running == pre.running
    &&& post.repeat_mode == pre.repeat_mode
    &&& post.shuffle == pre.shuffle
    &&& post.sort_mode == pre.sort_mode
    &&& post.status_message == pre.status_message
    &&& post.queue == pre.queue
    &&& post.queue_index == pre.queue_index
}

/// All fields equal but the player and the playing index.
pub open spec fn same_except_playback(pre: App, post: App) -> bool {
    &&& post.tracks == pre.tracks
    &&& post.list_selected == pre.list_selected
    &&& post.running == pre.running
    &&& post.repeat_mode == pre.repeat_mode
    &&& post.shuffle == pre.shuffle
    &&& post.sort_mode == pre.sort_mode
    &&& post.show_help == pre.show_help
    &&& post.show_lyrics == pre.show_lyrics
    &&& post.status_message == pre.status_message
    &&& post.queue == pre.queue
    &&& post.queue_index == pre.queue_index
}

/// All fields equal but the status message.
pub open spec fn same_except_status(pre: App, post: App) -> bool {
    &&& post.tracks == pre.tracks
    &&& post.list_selected == pre.list_selected
    &&& post.player == pre.player
    &&& post.playing_index == pre.playing_index
    &&& post.running == pre.running
    &&& post.repeat_mode == pre.repeat_mode
    &&& post.shuffle == pre.shuffle
    &&& post.sort_mode == pre.sort_mode
    &&& post.show_help == pre.show_help
    &&& post.show_lyrics == pre.show_lyrics
    &&& post.queue == pre.queue
    &&& post.queue_index == pre.queue_index
}

} // verus!
