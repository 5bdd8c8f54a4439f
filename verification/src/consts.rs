//! Names and numbers that the whole crate agrees on.

use vstd::prelude::*;

verus! {

/// The name of the config file in the config directory of the user.
pub const CONFIG_FILE_NAME: &'static str = "config.yaml";

/// The name of the sink that a recording is taken from.
pub const STRIPUTARY_SINK_NAME: &'static str = "striputary";

/// The name of the recording in the directory of a session.
pub const DEFAULT_BUFFER_FILE: &'static str = "buffer.wav";

/// The name of the file in the directory of a session that holds its
/// songs and instants.
pub const DEFAULT_SESSION_FILE: &'static str = "session.yaml";

/// The name of the directory in the directory of a session that its songs
/// are cut into.
pub const DEFAULT_MUSIC_DIR: &'static str = "cut";

/// How long a recording goes on after the player has stopped, in seconds.
pub const TIME_AFTER_SESSION_END_SECS: u64 = 10;

/// The bit rate of the songs that are cut out, in bits per second.
pub const BITRATE: i64 = 192000;

} // verus!
