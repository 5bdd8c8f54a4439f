//! A whole recording held in memory.

use super::sample_reader::{
    get_volume_at, volume_at, OutOfBoundsError, SampleReader, VOLUME_SCALE,
};
use super::time::{AudioTime, StreamSpec};
use vstd::prelude::*;

verus! {

/// What hound reports when it cannot read or write a WAVE file.
#[verifier::external_type_specification]
#[verifier::external_body]
pub struct ExHoundError(hound::Error);

/// The channel count and the sample rate that `WavReader::new` of hound
/// finds in the header of the WAVE file `bytes`, or nothing where it
/// refuses the header.
pub uninterp spec fn wav_format(bytes: Seq<u8>) -> Option<(u16, u32)>;

/// The interleaved samples that `WavReader::into_samples` of hound reads
/// from the WAVE file `bytes` as 16-bit integers, or nothing where the file
/// has no header that hound takes or a sample of it cannot be read so.
pub uninterp spec fn wav_samples(bytes: Seq<u8>) -> Option<Seq<i16>>;

/// Calls `WavReader::new` of hound on a fresh cursor over `bytes`, and
/// `spec` on the reader: the format that the header states, or the error
/// with which hound refuses the header.
#[verifier::external_body]
fn read_wav_format(bytes: &Vec<u8>) -> (result: Result<StreamSpec, hound::Error>)
    ensures
        result is Ok <==> wav_format(bytes@) is Some,
        result is Ok ==> wav_format(bytes@) == Some(
            (result->Ok_0.channels, result->Ok_0.sample_rate),
        ),
{
    let reader = hound::WavReader::new(std::io::Cursor::new(bytes.as_slice()))?;
    let spec = reader.spec();
    Ok(StreamSpec { channels: spec.channels, sample_rate: spec.sample_rate })
}

/// Calls `WavReader::new` of hound on a fresh cursor over `bytes`, and
/// `into_samples` on the reader: all samples of the file as 16-bit
/// integers, in the order of the file, or the first error that hound
/// meets.
#[verifier::external_body]
fn read_wav_samples(bytes: &Vec<u8>) -> (result: Result<Vec<i16>, hound::Error>)
    ensures
        result is Ok <==> wav_samples(bytes@) is Some,
        result is Ok ==> wav_samples(bytes@) == Some(result->Ok_0@),
{
    let reader = hound::WavReader::new(std::io::Cursor::new(bytes.as_slice()))?;
    reader.into_samples::<i16>().collect()
}

/// Why bytes are no recording.
#[derive(Clone, Copy, Debug, PartialEq, Eq, Structural)]
pub enum WavError {
    /// The bytes do not begin with the header of a WAVE file.
    Header,
    /// The samples cannot all be read as 16-bit integers: they are wider,
    /// or are no integers, or the file ends before they do.
    Samples,
}

/// A recording: its format and all of its interleaved samples.
#[derive(Debug)]
pub struct Buffer {
    pub spec: StreamSpec,
    pub samples: Vec<i16>,
}

impl Buffer {
    /// The recording of format `spec` that holds `samples`.
    pub fn new(spec: StreamSpec, samples: Vec<i16>) -> (buffer: Buffer)
        ensures
            buffer.spec == spec,
            buffer.samples == samples,
    {
        Buffer { spec, samples }
    }

    /// The recording that the WAVE file `bytes` holds.
    pub fn from_wav(bytes: &Vec<u8>) -> (result: Result<Buffer, WavError>)
        ensures
            wav_format(bytes@) is None ==> result == Err::<Buffer, WavError>(WavError::Header),
            wav_format(bytes@) is Some && wav_samples(bytes@) is None ==> result == Err::<
                Buffer,
                WavError,
            >(WavError::Samples),
            wav_format(bytes@) is Some && wav_samples(bytes@) is Some ==> {
                &&& result is Ok
                &&& result->Ok_0.spec.channels == wav_format(bytes@)->Some_0.0
                &&& result->Ok_0.spec.sample_rate == wav_format(bytes@)->Some_0.1
                &&& result->Ok_0.samples@ == wav_samples(bytes@)->Some_0
            },
    {
        let spec: StreamSpec = match read_wav_format(bytes) {
            Ok(spec) => spec,
            Err(_) => {
                return Err(WavError::Header);
            },
        };
        match read_wav_samples(bytes) {
            Ok(samples) => Ok(Buffer::new(spec, samples)),
            Err(_) => Err(WavError::Samples),
        }
    }

    /// The format of the recording.
    pub fn spec(&self) -> (spec: StreamSpec)
        ensures
            spec == self.spec,
    {
        self.spec
    }

    /// How loud the recording is around `time`, in billionths of full
    /// scale and never more than full scale, or an error where the window
    /// around `time` is not wholly inside the recording.
    pub fn get_volume_at(&mut self, time: AudioTime) -> (result: Result<u64, OutOfBoundsError>)
        requires
            time.stream_spec() == old(self).spec,
        ensures
            final(self).samples@ == old(self).samples@,
            final(self).spec == old(self).spec,
            result is Ok <==> volume_at(old(self).samples@, old(self).spec, time) is Some,
            result is Ok ==> result->Ok_0 as int == volume_at(
                old(self).samples@,
                old(self).spec,
                time,
            )->Some_0,
            result is Ok ==> result->Ok_0 <= VOLUME_SCALE,
    {
        get_volume_at(self, time)
    }
}

impl SampleReader for Buffer {
    open spec fn stream(&self) -> Seq<i16> {
        self.samples@
    }

    open spec fn stream_spec(&self) -> StreamSpec {
        self.spec
    }

    fn extract_audio(&mut self, start: AudioTime, end: AudioTime) -> (result: Result<
        Vec<i16>,
        OutOfBoundsError,
    >)
        ensures
            *final(self) == *old(self),
    {
        if start.time < 0 {
            return Err(OutOfBoundsError);
        }
        let num_samples: u32 = (end - start).interleaved_sample_num;
        let frame: u32 = start.frame_num();
        assert(frame as int * self.spec.channels as int <= 0xffff_ffff * 0xffff) by (nonlinear_arith)
            requires
                frame <= 0xffff_ffff,
                self.spec.channels <= 0xffff,
        ;
        let first: u64 = frame as u64 * self.spec.channels as u64;
        let len: usize = self.samples.len();
        if first + num_samples as u64 > len as u64 {
            return Err(OutOfBoundsError);
        }
        let first: usize = first as usize;
        let count: usize = num_samples as usize;
        let mut samples_interleaved: Vec<i16> = Vec::with_capacity(count);
        let mut i: usize = 0;
        while i < count
            invariant
                i <= count,
                first + count <= self.samples.len(),
                samples_interleaved@ == self.samples@.subrange(first as int, first + i),
            decreases count - i,
        {
            samples_interleaved.push(self.samples[first + i]);
            proof {
                assert(self.samples@.subrange(first as int, first + i + 1)
                    == self.samples@.subrange(first as int, first + i).push(
                    self.samples@[first + i],
                ));
            }
            i = i + 1;
        }
        Ok(samples_interleaved)
    }

    fn start(&self) -> (result: AudioTime) {
        AudioTime::from_time_and_spec(0, self.spec)
    }

    fn end(&self) -> (result: AudioTime) {
        let len: usize = self.samples.len();
        let last: u32 = if len > u32::MAX as usize {
            u32::MAX
        } else {
            len as u32
        };
        AudioTime::from_sample_and_spec(last, self.spec)
    }

    fn spec(&self) -> (result: StreamSpec) {
        self.spec
    }
}

} // verus!
