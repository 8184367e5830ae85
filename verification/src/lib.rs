//! Core of a terminal music player: the playback state machine, the
//! queue/ordering engine over a track catalog, timestamped lyric
//! synchronization, and the session state that persists across runs.
//!
//! Everything here is pure logic over plain values.  The hosting program owns
//! the audio sink, the terminal and the filesystem; it feeds events (sink
//! emptiness, playback position, clock ticks, load results) into these types
//! and carries the returned actions out.

pub mod app;
pub mod config;
pub mod lyrics;
pub mod player;
pub mod queue;
pub mod state;
pub mod text;
pub mod track;
