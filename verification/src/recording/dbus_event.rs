//! What the player reported while a session was recorded, and when.

use crate::song::Song;
use vstd::prelude::*;

verus! {

/// An instant of a session: the microseconds since its recording began.
#[derive(Clone, Copy, Debug, PartialEq, Eq, Structural)]
pub struct Timestamp {
    pub time_since_start_micros: u64,
}

impl Timestamp {
    /// The instant in microseconds as an `i64` holds them. An instant that
    /// is later than any `i64` counts as the latest one there is.
    pub open spec fn micros(self) -> int {
        if self.time_since_start_micros > i64::MAX {
            i64::MAX as int
        } else {
            self.time_since_start_micros as int
        }
    }

    /// `micros` computed.
    pub fn in_micros(&self) -> (micros: i64)
        ensures
            micros == self.micros(),
    {
        if self.time_since_start_micros > i64::MAX as u64 {
            i64::MAX
        } else {
            self.time_since_start_micros as i64
        }
    }
}

/// Whether the player is playing.
#[derive(Clone, Copy, Debug, PartialEq, Eq, Structural)]
pub enum PlaybackStatus {
    Playing,
    Paused,
    Stopped,
}

/// One report of the player.
#[derive(Debug)]
pub enum DbusEvent {
    /// A song began, and its tags could be read.
    NewSong(Song),
    /// A song began, and its tags could not be read.
    NewInvalidSong,
    StatusChanged(PlaybackStatus),
}

/// A report of the player and the instant at which it came.
#[derive(Debug)]
pub struct TimedDbusEvent {
    pub event: DbusEvent,
    pub timestamp: Timestamp,
}

} // verus!
