//! Audio settings and the playback state of a source. Mixing and
//! attenuation are floating point.
use vstd::prelude::*;

pub mod audio_system;
pub mod listener;

verus! {

/// How a source fades with distance.
#[derive(Debug, Clone, Copy, PartialEq, Eq, Structural)]
pub enum AudioRolloffMode {
    Linear,
    Logarithmic,
    Custom,
}

/// The audio back end.
#[derive(Debug, Clone, Copy, PartialEq, Eq, Structural)]
pub enum AudioBackend {
    Auto,
    Alsa,
    PulseAudio,
    Wasapi,
    DirectSound,
    CoreAudio,
}

/// Whether a source plays.
#[derive(Debug, Clone, Copy, PartialEq, Eq, Structural)]
pub enum PlaybackState {
    Stopped,
    Playing,
    Paused,
}

impl PlaybackState {
    /// After `stop`: stopped.
    pub fn stopped(self) -> (r: PlaybackState)
        ensures
            r == PlaybackState::Stopped,
    {
        PlaybackState::Stopped
    }

    /// After `pause`: paused, whatever the state was.
    pub fn paused(self) -> (r: PlaybackState)
        ensures
            r == PlaybackState::Paused,
    {
        PlaybackState::Paused
    }

    /// After `resume`: a paused source plays; any other keeps its state.
    pub fn resumed(self) -> (r: PlaybackState)
        ensures
            r == if self == PlaybackState::Paused { PlaybackState::Playing } else { self },
    {
        match self {
            PlaybackState::Paused => PlaybackState::Playing,
            _ => self,
        }
    }
}

/// Ready-made listener settings; they are floating point.
pub struct AudioListenerPresets;

/// Ready-made source settings; they are floating point.
pub struct AudioSourcePresets;

} // verus!
