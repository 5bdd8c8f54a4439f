//! The sound servers that a recording can be taken from.

use vstd::prelude::*;

verus! {

/// The sound server that a recording is taken from.
#[derive(Clone, Copy, Debug, PartialEq, Eq, Structural)]
pub enum SoundServer {
    Pulseaudio,
    Pipewire,
}

impl Default for SoundServer {
    fn default() -> (sound_server: SoundServer)
        ensures
            sound_server == SoundServer::Pulseaudio,
    {
        SoundServer::Pulseaudio
    }
}

} // verus!
