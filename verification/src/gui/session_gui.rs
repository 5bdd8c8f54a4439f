//! The plots of one session, one for each cut.

use super::plot::{clone_song, Plot};
use crate::audio::cutting_strategy::{length_times, CuttingStrategy, DbusLengthsStrategy};
use crate::audio::sample_reader::SampleReader;
use crate::audio::time::AudioTime;
use crate::recording_session::RecordingSession;
use crate::song::Song;
use vstd::prelude::*;

verus! {

/// The song that the plot of cut `i` shows before the cut: none at the
/// first cut, the last song at the last cut, and song `i` at a cut between.
pub open spec fn song_before_cut(songs: Seq<Song>, i: int) -> Option<Song> {
    if i == 0 {
        None
    } else if i == songs.len() {
        Some(songs[i - 1])
    } else {
        Some(songs[i])
    }
}

/// The song that the plot of cut `i` shows after the cut: song `i + 1`,
/// if there is one.
pub open spec fn song_after_cut(songs: Seq<Song>, i: int) -> Option<Song> {
    if i + 1 < songs.len() {
        Some(songs[i + 1])
    } else {
        None
    }
}

/// One plot for each cut of `session`, with the cuts where the lengths of
/// the songs put them. A session without songs has no plot.
pub fn load_plots<R: SampleReader>(reader: &mut R, session: &RecordingSession) -> (plots: Vec<Plot>)
    requires
        session.is_bracketed(),
    ensures
        final(reader).stream() == old(reader).stream(),
        final(reader).stream_spec() == old(reader).stream_spec(),
        session.songs@.len() == 0 ==> plots@.len() == 0,
        session.songs@.len() > 0 ==> plots@.len() == session.songs@.len() + 1,
        forall|i: int|
            0 <= i < plots@.len() ==> (#[trigger] plots@[i]).shows(
                old(reader).stream(),
                old(reader).stream_spec(),
                song_before_cut(session.songs@, i),
                song_after_cut(session.songs@, i),
                length_times(old(reader).stream_spec(), *session)[i],
            ),
{
    let ghost stream = reader.stream();
    let ghost spec = reader.stream_spec();
    // The first guess for the cut times
    let timestamps: Vec<AudioTime> = match DbusLengthsStrategy.get_timestamps(reader, session) {
        Ok(timestamps) => timestamps,
        Err(_) => {
            return Vec::new();
        },
    };
    let mut plots: Vec<Plot> = Vec::new();
    let mut i: usize = 0;
    while i < session.songs.len()
        invariant
            i <= session.songs.len(),
            stream == old(reader).stream(),
            spec == old(reader).stream_spec(),
            reader.stream() == stream,
            reader.stream_spec() == spec,
            timestamps@ == length_times(spec, *session),
            timestamps@.len() == session.songs@.len() + 1,
            plots@.len() == i,
            forall|k: int|
                0 <= k < i ==> (#[trigger] plots@[k]).shows(
                    stream,
                    spec,
                    song_before_cut(session.songs@, k),
                    song_after_cut(session.songs@, k),
                    timestamps@[k],
                ),
        decreases session.songs.len() - i,
    {
        let before: Option<Song> = if i == 0 {
            None
        } else {
            Some(session.songs[i].clone())
        };
        let after: Option<Song> = if i + 1 < session.songs.len() {
            Some(session.songs[i + 1].clone())
        } else {
            None
        };
        let timing: AudioTime = timestamps[i];
        plots.push(Plot::new(reader, before, after, timing));
        i = i + 1;
    }
    if session.songs.len() > 0 {
        let last: usize = session.songs.len() - 1;
        plots.push(
            Plot::new(
                reader,
                clone_song(Some(&session.songs[last])),
                None,
                timestamps[session.songs.len()],
            ),
        );
    }
    plots
}

} // verus!
