//! The playback controller: a three-state machine plus volume and mute.
//!
//! Volume is kept in tenths, `0ths..=10` of full scale, the 0.1 resolution the
//! player quantizes to.  The audio device itself lives with the host; it
//! reports sink emptiness into `is_finished` and applies `volume` after each
//! change.

use vstd::prelude::*;

verus! {

#[derive(Clone, Copy, PartialEq, Eq, Structural, Debug)]
pub enum PlaybackState {
    Stopped,
    Playing,
    Paused,
}

pub struct Player {
    pub state: PlaybackState,
    pub current_track: Option<String>,
    /// Volume in tenths of full scale, always in `0..=10`.
    pub volume: u8,
    pub muted: bool,
    /// The volume to restore on unmute, in tenths.
    pub pre_mute_volume: u8,
}

/// Volume arguments clamped to the representable range of tenths.
pub open spec fn clamp_tenths(t: int) -> u8 {
    if t < 0 {
        0
    } else if t > 10 {
        10
    } else {
        t as u8
    }
}

/// What one mute toggle does: save the volume and silence, or restore the
/// saved volume.
pub open spec fn spec_toggle_mute(p: Player) -> Player {
    if p.muted {
        Player {
            state: p.state,
            current_track: p.current_track,
            volume: clamp_tenths(p.pre_mute_volume as int),
            muted: false,
            pre_mute_volume: p.pre_mute_volume,
        }
    } else {
        Player {
            state: p.state,
            current_track: p.current_track,
            volume: 0,
            muted: true,
            pre_mute_volume: p.volume,
        }
    }
}

impl Player {
    /// Volume fields stay within the ten-tenths scale.
    pub open spec fn wf(self) -> bool {
        self.volume <= 10 && self.pre_mute_volume <= 10
    }

    /// A freshly constructed controller: stopped, nothing loaded, full volume.
    pub fn new() -> (p: Player)
        ensures
            p.state == PlaybackState::Stopped,
            p.current_track is None,
            p.volume == 10,
            !p.muted,
            p.pre_mute_volume == 10,
            p.wf(),
    {
        Player {
            state: PlaybackState::Stopped,
            current_track: None,
            volume: 10,
            muted: false,
            pre_mute_volume: 10,
        }
    }

    /// The transition taken once a new source has been loaded into the sink:
    /// the named track is now playing.  Loading itself is the host's work.
    pub fn play(&mut self, track_name: &str)
        ensures
            final(self).state == PlaybackState::Playing,
            final(self).current_track matches Some(t) && t@ == track_name@,
            final(self).volume == old(self).volume,
            final(self).muted == old(self).muted,
            final(self).pre_mute_volume == old(self).pre_mute_volume,
    {
        self.state = PlaybackState::Playing;
        self.current_track = Some(track_name.to_owned());
    }

    /// Flips between playing and paused; stopped stays stopped.
    pub fn toggle_pause(&mut self)
        ensures
            final(self).state == (match old(self).state {
                PlaybackState::Playing => PlaybackState::Paused,
                PlaybackState::Paused => PlaybackState::Playing,
                PlaybackState::Stopped => PlaybackState::Stopped,
            }),
            final(self).current_track == old(self).current_track,
            final(self).volume == old(self).volume,
            final(self).muted == old(self).muted,
            final(self).pre_mute_volume == old(self).pre_mute_volume,
    {
        match self.state {
            PlaybackState::Playing => {
                self.state = PlaybackState::Paused;
            },
            PlaybackState::Paused => {
                self.state = PlaybackState::Playing;
            },
            PlaybackState::Stopped => {},
        }
    }

    /// Resets the machine to stopped with no loaded track, whatever the
    /// current state; volume settings survive.
    pub fn stop(&mut self)
        ensures
            final(self).state == PlaybackState::Stopped,
            final(self).current_track is None,
            final(self).volume == old(self).volume,
            final(self).muted == old(self).muted,
            final(self).pre_mute_volume == old(self).pre_mute_volume,
    {
        self.state = PlaybackState::Stopped;
        self.current_track = None;
    }

    /// Completion is an empty sink while the machine believes it is playing;
    /// an idle sink in any other state is not completion.
    pub fn is_finished(&self, sink_empty: bool) -> (r: bool)
        ensures
            r == (sink_empty && self.state == PlaybackState::Playing),
    {
        sink_empty && self.state == PlaybackState::Playing
    }

    /// Stores the given volume, clamped to `0..=10` tenths.
    pub fn set_volume(&mut self, tenths: i32)
        ensures
            final(self).volume == clamp_tenths(tenths as int),
            final(self).state == old(self).state,
            final(self).current_track == old(self).current_track,
            final(self).muted == old(self).muted,
            final(self).pre_mute_volume == old(self).pre_mute_volume,
            final(self).volume <= 10,
    {
        let clamped: u8 = if tenths < 0 {
            0
        } else if tenths > 10 {
            10
        } else {
            tenths as u8
        };
        self.volume = clamped;
    }

    /// One step louder: a tenth more, clamped at full scale.
    pub fn increase_volume(&mut self)
        ensures
            final(self).volume == clamp_tenths(old(self).volume + 1),
            final(self).state == old(self).state,
            final(self).current_track == old(self).current_track,
            final(self).muted == old(self).muted,
            final(self).pre_mute_volume == old(self).pre_mute_volume,
    {
        let v = self.volume as i32;
        self.set_volume(v + 1);
    }

    /// One step quieter: a tenth less, clamped at silence.
    pub fn decrease_volume(&mut self)
        ensures
            final(self).volume == clamp_tenths(old(self).volume - 1),
            final(self).state == old(self).state,
            final(self).current_track == old(self).current_track,
            final(self).muted == old(self).muted,
            final(self).pre_mute_volume == old(self).pre_mute_volume,
    {
        let v = self.volume as i32;
        self.set_volume(v - 1);
    }

    /// Muting saves the current volume and silences; unmuting restores it.
    pub fn toggle_mute(&mut self)
        ensures
            *final(self) == spec_toggle_mute(*old(self)),
    {
        if self.muted {
            let pv = self.pre_mute_volume;
            self.set_volume(pv as i32);
            self.muted = false;
        } else {
            self.pre_mute_volume = self.volume;
            self.set_volume(0);
            self.muted = true;
        }
    }
}

impl Default for Player {
    /// The same controller `new` builds.
    fn default() -> (p: Self)
        ensures
            p.state == PlaybackState::Stopped,
            p.current_track is None,
            p.volume == 10,
            !p.muted,
            p.pre_mute_volume == 10,
    {
        Player::new()
    }
}

/// Muting and unmuting in either order return the volume to where it stood:
/// a mute/unmute round trip is the identity on the stored volume.
pub proof fn lemma_toggle_mute_round_trip(p: Player)
    requires
        p.wf(),
        !p.muted,
    ensures
        spec_toggle_mute(spec_toggle_mute(p)).volume == p.volume,
        spec_toggle_mute(spec_toggle_mute(p)).muted == p.muted,
        spec_toggle_mute(spec_toggle_mute(p)).state == p.state,
{
}

} // verus!
