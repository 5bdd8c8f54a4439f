//! Reading windows of samples out of a stream, and how loud a stream is at a time.

use super::time::{AudioTime, StreamSpec};
use vstd::arithmetic::div_mod::{lemma_div_is_ordered, lemma_div_multiples_vanish};
use vstd::prelude::*;

verus! {

/// Interleaved samples that one volume estimate looks at: half of them
/// before the time in question, half after.
pub const NUM_SAMPLES_PER_AVERAGE_VOLUME: u32 = 4000;

/// A volume counts billionths of full scale: this is the volume of a
/// window in which every sample is as large as a sample can be, and no
/// volume is greater.
pub const VOLUME_SCALE: u64 = 1_000_000_000;

/// The largest magnitude that a sample has: that of `i16::MIN`.
pub const FULL_SCALE: u64 = 32768;

/// The window that was asked for is not wholly inside the stream.
#[derive(Clone, Copy, Debug, PartialEq, Eq, Structural)]
pub struct OutOfBoundsError;

/// The index of the first interleaved sample of a window that begins at `start`.
pub open spec fn window_start(channels: u16, start: AudioTime) -> int {
    start.frame_index() * channels as int
}

/// The number of interleaved samples between `start` and `end`.
pub open spec fn window_len(start: AudioTime, end: AudioTime) -> int {
    end.minus(start).interleaved_sample_num as int
}

/// The window from `start` to `end` lies wholly inside `stream`: it begins
/// no earlier than the stream and ends no later.
pub open spec fn window_in_bounds(
    stream: Seq<i16>,
    channels: u16,
    start: AudioTime,
    end: AudioTime,
) -> bool {
    0 <= start.time && window_start(channels, start) + window_len(start, end) <= stream.len()
}

/// The samples of `stream` from `start` to `end`.
pub open spec fn window(stream: Seq<i16>, channels: u16, start: AudioTime, end: AudioTime) -> Seq<
    i16,
> {
    stream.subrange(
        window_start(channels, start),
        window_start(channels, start) + window_len(start, end),
    )
}

/// A stream length as a sample index: the longest stream that has one is
/// `u32::MAX` samples long.
pub open spec fn last_sample_index(len: nat) -> u32 {
    if len > u32::MAX {
        u32::MAX
    } else {
        len as u32
    }
}

/// A finished recording that can hand out any window of its samples.
pub trait SampleReader {
    /// Every interleaved sample of the recording, in order.
    spec fn stream(&self) -> Seq<i16>;

    /// The format of the recording.
    spec fn stream_spec(&self) -> StreamSpec;

    /// The samples from `start` to `end`, all of them or none: a window
    /// that is not wholly inside the recording is an error, and never comes
    /// back shorter than it was asked for. The recording itself stays as
    /// it is.
    fn extract_audio(&mut self, start: AudioTime, end: AudioTime) -> (result: Result<
        Vec<i16>,
        OutOfBoundsError,
    >)
        requires
            start.same_spec(end),
        ensures
            final(self).stream() == old(self).stream(),
            final(self).stream_spec() == old(self).stream_spec(),
            result is Ok <==> window_in_bounds(
                old(self).stream(),
                old(self).stream_spec().channels,
                start,
                end,
            ),
            result is Ok ==> result->Ok_0@ == window(
                old(self).stream(),
                old(self).stream_spec().channels,
                start,
                end,
            ),
            result is Ok ==> result->Ok_0@.len() == end.minus(start).interleaved_sample_num,
    ;

    /// Where the recording begins.
    fn start(&self) -> (result: AudioTime)
        ensures
            result == AudioTime::at_time(0, self.stream_spec()),
    ;

    /// Where the recording ends.
    fn end(&self) -> (result: AudioTime)
        ensures
            result == AudioTime::at_sample(
                last_sample_index(self.stream().len()),
                self.stream_spec(),
            ),
    ;

    /// The format of the recording.
    fn spec(&self) -> (result: StreamSpec)
        ensures
            result == self.stream_spec(),
    ;
}

/// The magnitude of one sample.
pub open spec fn magnitude(sample: i16) -> int {
    if sample < 0 {
        -(sample as int)
    } else {
        sample as int
    }
}

/// The magnitudes of all of `samples`, added up.
pub open spec fn total_magnitude(samples: Seq<i16>) -> int
    decreases samples.len(),
{
    if samples.len() == 0 {
        0
    } else {
        total_magnitude(samples.drop_last()) + magnitude(samples.last())
    }
}

/// The mean magnitude of `samples`, in billionths of full scale and
/// rounded down. No samples at all are silence.
pub open spec fn mean_magnitude(samples: Seq<i16>) -> int {
    if samples.len() == 0 {
        0
    } else {
        total_magnitude(samples) * VOLUME_SCALE / (samples.len() * FULL_SCALE)
    }
}

/// Where the window of a volume estimate at `time` begins.
pub open spec fn volume_window_start(spec: StreamSpec, time: AudioTime) -> AudioTime {
    time.minus(AudioTime::at_sample((NUM_SAMPLES_PER_AVERAGE_VOLUME / 2) as u32, spec))
}

/// Where the window of a volume estimate at `time` ends.
pub open spec fn volume_window_end(spec: StreamSpec, time: AudioTime) -> AudioTime {
    time.plus(AudioTime::at_sample((NUM_SAMPLES_PER_AVERAGE_VOLUME / 2) as u32, spec))
}

/// How loud `stream` is around `time`: the mean magnitude of the samples
/// in the window centred there, or nothing where that window is not wholly
/// inside the stream.
pub open spec fn volume_at(stream: Seq<i16>, spec: StreamSpec, time: AudioTime) -> Option<int> {
    let start = volume_window_start(spec, time);
    let end = volume_window_end(spec, time);
    if window_in_bounds(stream, spec.channels, start, end) {
        Some(mean_magnitude(window(stream, spec.channels, start, end)))
    } else {
        None
    }
}

/// `magnitude` of every sample is at most 32768, so a total is at most
/// that many times the number of samples.
pub proof fn lemma_total_magnitude_bounds(samples: Seq<i16>)
    ensures
        0 <= total_magnitude(samples) <= 32768 * samples.len(),
    decreases samples.len(),
{
    if samples.len() > 0 {
        lemma_total_magnitude_bounds(samples.drop_last());
    }
}

/// A mean magnitude lies between silence and full scale.
pub proof fn lemma_mean_magnitude_bounds(samples: Seq<i16>)
    ensures
        0 <= mean_magnitude(samples) <= VOLUME_SCALE,
{
    lemma_total_magnitude_bounds(samples);
    if samples.len() > 0 {
        let total = total_magnitude(samples);
        let over = samples.len() * FULL_SCALE;
        assert(0 < over && 0 <= total * VOLUME_SCALE <= over * VOLUME_SCALE) by (nonlinear_arith)
            requires
                0 <= total <= 32768 * samples.len(),
                0 < samples.len(),
                over == samples.len() * 32768,
        ;
        lemma_div_is_ordered(0, total * VOLUME_SCALE, over as int);
        lemma_div_is_ordered(total * VOLUME_SCALE, over * VOLUME_SCALE, over as int);
        lemma_div_multiples_vanish(VOLUME_SCALE as int, over as int);
    }
}

/// A volume lies between silence and full scale.
pub proof fn lemma_volume_at_bounds(stream: Seq<i16>, spec: StreamSpec, time: AudioTime)
    ensures
        volume_at(stream, spec, time) is Some ==> 0 <= volume_at(stream, spec, time)->Some_0
            <= VOLUME_SCALE,
{
    lemma_mean_magnitude_bounds(
        window(
            stream,
            spec.channels,
            volume_window_start(spec, time),
            volume_window_end(spec, time),
        ),
    );
}

/// `total_magnitude` computed.
pub fn sum_magnitudes(samples: &Vec<i16>) -> (total: u128)
    ensures
        total == total_magnitude(samples@),
{
    let mut total: u128 = 0;
    let mut i: usize = 0;
    while i < samples.len()
        invariant
            i <= samples.len(),
            total == total_magnitude(samples@.take(i as int)),
            total <= 32768 * i,
        decreases samples.len() - i,
    {
        let sample: i16 = samples[i];
        let size: u128 = if sample < 0 {
            (-(sample as i32)) as u128
        } else {
            sample as u128
        };
        proof {
            assert(samples@.take(i + 1).drop_last() == samples@.take(i as int));
        }
        total = total + size;
        i = i + 1;
    }
    proof {
        assert(samples@.take(samples.len() as int) == samples@);
    }
    total
}

/// `mean_magnitude` computed.
pub fn mean_of_magnitudes(samples: &Vec<i16>) -> (mean: u64)
    ensures
        mean == mean_magnitude(samples@),
        mean <= VOLUME_SCALE,
{
    let total: u128 = sum_magnitudes(samples);
    proof {
        lemma_total_magnitude_bounds(samples@);
        lemma_mean_magnitude_bounds(samples@);
    }
    if samples.len() == 0 {
        0
    } else {
        assert(total * 1_000_000_000 <= 32768 * 0xffff_ffff_ffff_ffff * 1_000_000_000)
            by (nonlinear_arith)
            requires
                total <= 32768 * samples.len(),
                samples.len() <= 0xffff_ffff_ffff_ffff,
        ;
        let scaled: u128 = total * VOLUME_SCALE as u128;
        let over: u128 = samples.len() as u128 * FULL_SCALE as u128;
        (scaled / over) as u64
    }
}

/// How loud the recording is around `time`, in billionths of full scale
/// and never more than full scale, or an error where the recording does
/// not hold the whole window around `time`, as when `time` is too near to
/// either end.
pub fn get_volume_at<R: SampleReader>(r: &mut R, time: AudioTime) -> (result: Result<
    u64,
    OutOfBoundsError,
>)
    requires
        time.stream_spec() == old(r).stream_spec(),
    ensures
        final(r).stream() == old(r).stream(),
        final(r).stream_spec() == old(r).stream_spec(),
        result is Ok <==> volume_at(old(r).stream(), old(r).stream_spec(), time) is Some,
        result is Ok ==> result->Ok_0 as int == volume_at(
            old(r).stream(),
            old(r).stream_spec(),
            time,
        )->Some_0,
        result is Ok ==> result->Ok_0 <= VOLUME_SCALE,
{
    let half: AudioTime = AudioTime::from_sample_and_spec(NUM_SAMPLES_PER_AVERAGE_VOLUME / 2, r.spec());
    let start: AudioTime = time - half;
    let end: AudioTime = time + half;
    match r.extract_audio(start, end) {
        Err(e) => Err(e),
        Ok(samples) => Ok(mean_of_magnitudes(&samples)),
    }
}

} // verus!
