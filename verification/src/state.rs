//! The session state that survives across runs: volume, shuffle, repeat and
//! sort preferences, and the last played track.
//!
//! The host reads and writes the on-disk form; a file that is missing or
//! malformed simply becomes `AppState::default()`.

use vstd::prelude::*;
use crate::app::{RepeatMode, SortMode};

verus! {

pub struct AppState {
    /// Volume in tenths of full scale, `0..=10`.
    pub volume: u8,
    pub shuffle: bool,
    pub repeat_mode: RepeatMode,
    pub sort_mode: SortMode,
    /// Path identity of the track that was playing when the session ended.
    pub last_track_path: Option<String>,
}

impl AppState {
    /// The volume field stays within the ten-tenths scale.
    pub open spec fn wf(self) -> bool {
        self.volume <= 10
    }
}

impl Default for AppState {
    /// The documented defaults: full volume, no shuffle, repeat off, sorted
    /// by filename, no remembered track.
    fn default() -> (r: Self)
        ensures
            r.volume == 10,
            !r.shuffle,
            r.repeat_mode == RepeatMode::Off,
            r.sort_mode == SortMode::Filename,
            r.last_track_path is None,
            r.wf(),
    {
        AppState {
            volume: 10,
            shuffle: false,
            repeat_mode: RepeatMode::Off,
            sort_mode: SortMode::Filename,
            last_track_path: None,
        }
    }
}

} // verus!
