//! The volume of a recording around one cut, as the window plots it.

use crate::audio::cut::CutInfo;
use crate::audio::sample_reader::{get_volume_at, volume_at, SampleReader};
use crate::audio::time::{interpolate, AudioTime, StreamSpec};
use crate::song::Song;
use vstd::prelude::*;

verus! {

/// How many points a plot has.
pub const NUM_PLOT_POINTS: usize = 100;

/// How far a plot reaches to either side of its cut, in picoseconds.
pub const PLOT_REACH: i128 = 3_000_000_000_000;

/// The volume of a recording at evenly spaced times around one cut,
/// together with the songs on either side of the cut.
#[derive(Debug)]
pub struct Plot {
    /// The volume at each point, or zero where the recording has none.
    pub data: Vec<u64>,
    pub song_before: Option<Song>,
    pub song_after: Option<Song>,
    pub start: AudioTime,
    pub end: AudioTime,
    pub cut_time: AudioTime,
    pub finished_cut_before: bool,
    pub finished_cut_after: bool,
}

/// The cut was moved to `time`.
#[derive(Clone, Copy, Debug, PartialEq, Eq, Structural)]
pub struct PlotMarkerMoved {
    pub time: AudioTime,
}

/// The time of point `i` of a plot from `start` to `end`.
pub open spec fn point_time(start: AudioTime, end: AudioTime, i: int) -> AudioTime {
    start.plus(end.minus(start).scaled(i, NUM_PLOT_POINTS as int))
}

/// The volume that point `i` of a plot from `start` to `end` shows: that
/// of the recording at the time of the point, or zero where it has none.
pub open spec fn point_volume(
    stream: Seq<i16>,
    spec: StreamSpec,
    start: AudioTime,
    end: AudioTime,
    i: int,
) -> int {
    match volume_at(stream, spec, point_time(start, end, i)) {
        Some(volume) => volume,
        None => 0,
    }
}

/// The song is `wanted`, by all its fields.
pub open spec fn is_song(song: Option<Song>, wanted: Song) -> bool {
    song is Some && song->Some_0@ == wanted@
}

/// A copy of a song that may be missing.
pub fn clone_song(song: Option<&Song>) -> (copy: Option<Song>)
    ensures
        song is None ==> copy is None,
        song is Some ==> copy == Some(*song->Some_0),
{
    match song {
        Some(song) => Some(song.clone()),
        None => None,
    }
}

impl Plot {
    /// This is the fresh plot of the recording `stream` of format `spec`
    /// around the cut at `cut_time`, between `song_before` and
    /// `song_after`: it reaches equally far to either side of the cut,
    /// shows the volume at each of its points, and neither song counts as
    /// cut.
    pub open spec fn shows(
        &self,
        stream: Seq<i16>,
        spec: StreamSpec,
        song_before: Option<Song>,
        song_after: Option<Song>,
        cut_time: AudioTime,
    ) -> bool {
        &&& self.song_before == song_before
        &&& self.song_after == song_after
        &&& self.cut_time == cut_time
        &&& self.start == cut_time.minus(
            AudioTime::at_time(PLOT_REACH as int, cut_time.stream_spec()),
        )
        &&& self.end == cut_time.plus(AudioTime::at_time(PLOT_REACH as int, cut_time.stream_spec()))
        &&& !self.finished_cut_before
        &&& !self.finished_cut_after
        &&& self.data@.len() == NUM_PLOT_POINTS
        &&& forall|i: int|
            0 <= i < NUM_PLOT_POINTS ==> (#[trigger] self.data@[i]) as int == point_volume(
                stream,
                spec,
                self.start,
                self.end,
                i,
            )
    }

    /// The plot of the recording around the cut at `cut_time`, between
    /// `song_before` and `song_after`.
    pub fn new<R: SampleReader>(
        reader: &mut R,
        song_before: Option<Song>,
        song_after: Option<Song>,
        cut_time: AudioTime,
    ) -> (plot: Plot)
        requires
            cut_time.stream_spec() == old(reader).stream_spec(),
        ensures
            final(reader).stream() == old(reader).stream(),
            final(reader).stream_spec() == old(reader).stream_spec(),
            plot.shows(
                old(reader).stream(),
                old(reader).stream_spec(),
                song_before,
                song_after,
                cut_time,
            ),
    {
        let ghost stream = reader.stream();
        let ghost spec = reader.stream_spec();
        let delta: AudioTime = AudioTime::from_time_same_spec(PLOT_REACH, cut_time);
        let start: AudioTime = cut_time - delta;
        let end: AudioTime = cut_time + delta;
        let mut data: Vec<u64> = Vec::new();
        let mut i: usize = 0;
        while i < NUM_PLOT_POINTS
            invariant
                i <= NUM_PLOT_POINTS,
                stream == old(reader).stream(),
                spec == old(reader).stream_spec(),
                reader.stream() == stream,
                reader.stream_spec() == spec,
                start.stream_spec() == spec,
                end.stream_spec() == spec,
                data@.len() == i,
                forall|k: int|
                    0 <= k < i ==> (#[trigger] data@[k]) as int == point_volume(
                        stream,
                        spec,
                        start,
                        end,
                        k,
                    ),
            decreases NUM_PLOT_POINTS - i,
        {
            let time: AudioTime = interpolate(start, end, i as i64, NUM_PLOT_POINTS as i64);
            let vol: u64 = match get_volume_at(reader, time) {
                Ok(vol) => vol,
                Err(_) => 0,
            };
            data.push(vol);
            i = i + 1;
        }
        Plot {
            data,
            song_before,
            song_after,
            start,
            end,
            cut_time,
            finished_cut_before: false,
            finished_cut_after: false,
        }
    }

    /// The time at `numerator / denominator` of the way across the plot.
    pub fn pos_to_time(&self, numerator: i64, denominator: i64) -> (time: AudioTime)
        requires
            self.start.same_spec(self.end),
            0 < denominator,
        ensures
            time == self.start.plus(
                self.end.minus(self.start).scaled(numerator as int, denominator as int),
            ),
    {
        interpolate(self.start, self.end, numerator, denominator)
    }

    /// Point `i` is where the plot is parted in two: it is the first
    /// point later than the cut, or the last point of all where no point
    /// is later than the cut.
    pub open spec fn is_cutoff(&self, i: int) -> bool {
        &&& 0 <= i < self.data@.len()
        &&& forall|k: int| 0 <= k < i ==> point_time(self.start, self.end, k).time <= self.cut_time.time
        &&& (point_time(self.start, self.end, i).time > self.cut_time.time || i == self.data@.len() - 1)
    }

    /// The point at which the plot is parted in two, so that the part
    /// before the cut and the part after it can be drawn apart. Both parts
    /// hold this point.
    pub fn cutoff(&self) -> (cutoff: usize)
        requires
            self.start.same_spec(self.end),
            0 < self.data@.len() <= i64::MAX,
        ensures
            self.is_cutoff(cutoff as int),
    {
        let mut i: usize = 0;
        while i < self.data.len() - 1
            invariant
                i <= self.data@.len() - 1,
                0 < self.data@.len() <= i64::MAX,
                self.start.same_spec(self.end),
                forall|k: int|
                    0 <= k < i ==> point_time(self.start, self.end, k).time <= self.cut_time.time,
            decreases self.data@.len() - i,
        {
            let time: AudioTime = self.pos_to_time(i as i64, NUM_PLOT_POINTS as i64);
            if time.time > self.cut_time.time {
                return i;
            }
            i = i + 1;
        }
        i
    }

    /// Moves the cut. The songs on either side count as not cut again.
    pub fn set_cut_position(&mut self, time: AudioTime)
        ensures
            final(self).cut_time == time,
            !final(self).finished_cut_before,
            !final(self).finished_cut_after,
            final(self).data == old(self).data,
            final(self).song_before == old(self).song_before,
            final(self).song_after == old(self).song_after,
            final(self).start == old(self).start,
            final(self).end == old(self).end,
    {
        self.cut_time = time;
        self.finished_cut_before = false;
        self.finished_cut_after = false;
    }

    /// Takes note that `cut_song` has been cut: the song before this cut
    /// or the song after it counts as cut if it is that song, by all its
    /// fields.
    pub fn update_on_finished_cut(&mut self, cut_song: &CutInfo)
        ensures
            final(self).finished_cut_before == (old(self).finished_cut_before || is_song(
                old(self).song_before,
                cut_song.cut.song,
            )),
            final(self).finished_cut_after == (old(self).finished_cut_after || is_song(
                old(self).song_after,
                cut_song.cut.song,
            )),
            final(self).data == old(self).data,
            final(self).song_before == old(self).song_before,
            final(self).song_after == old(self).song_after,
            final(self).start == old(self).start,
            final(self).end == old(self).end,
            final(self).cut_time == old(self).cut_time,
    {
        let before: bool = match &self.song_before {
            Some(song) => *song == cut_song.cut.song,
            None => false,
        };
        if before {
            self.finished_cut_before = true;
        }
        let after: bool = match &self.song_after {
            Some(song) => *song == cut_song.cut.song,
            None => false,
        };
        if after {
            self.finished_cut_after = true;
        }
    }
}

} // verus!
