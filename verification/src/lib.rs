//! Cutting one long recording of a listening session into its songs.
//!
//! Every result in this crate is an exact integer. A position in a
//! recording counts whole picoseconds; what the player reports (the instants
//! of a session and the lengths of its songs) counts whole microseconds; a
//! volume counts whole billionths of full scale.

pub mod audio;
pub mod config;
pub mod consts;
pub mod gui;
pub mod recording;
pub mod recording_session;
pub mod session_manager;
pub mod song;
pub mod text;
