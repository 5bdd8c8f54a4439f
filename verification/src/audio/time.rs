//! Positions in an audio stream, as a time and as a sample index.
//!
//! The time of a position counts whole picoseconds: a unit shorter than one
//! sample of any stream that passes up to `u32::MAX` samples a second, so
//! that a sample index survives the way to its time and back but for the
//! rounding of one sample. A time is never more than `TIME_END` away from
//! zero: where a sum or a product of times runs over, it stops there.

use vstd::arithmetic::div_mod::{
    lemma_div_is_ordered, lemma_div_multiples_vanish, lemma_fundamental_div_mod,
    lemma_fundamental_div_mod_converse,
};
use vstd::arithmetic::mul::lemma_mul_inequality;
use vstd::prelude::*;
use vstd::std_specs::ops::{AddSpecImpl, SubSpecImpl};

verus! {

/// Picoseconds in one second.
pub const PICOS_PER_SECOND: i128 = 1_000_000_000_000;

/// Picoseconds in one microsecond.
pub const PICOS_PER_MICRO: i128 = 1_000_000;

/// The latest time that there is, in picoseconds: 10^18 seconds. The
/// earliest time is as far before zero.
pub const TIME_END: i128 = 1_000_000_000_000_000_000_000_000_000_000;

/// Channel count and sample rate of a stream of interleaved samples.
#[derive(Clone, Copy, Debug, PartialEq, Eq, Structural)]
pub struct StreamSpec {
    pub channels: u16,
    /// Frames per second: one frame holds one sample of every channel.
    pub sample_rate: u32,
}

/// The time nearest to `t` that there is.
pub open spec fn clamp_time(t: int) -> int {
    if t < -TIME_END {
        -TIME_END
    } else if t > TIME_END {
        TIME_END as int
    } else {
        t
    }
}

/// The value nearest to `t` that an `i64` holds.
pub open spec fn clamp_micros(t: int) -> int {
    if t < i64::MIN {
        i64::MIN as int
    } else if t > i64::MAX {
        i64::MAX as int
    } else {
        t
    }
}

/// A count of microseconds as a time.
pub open spec fn micros_to_time(micros: int) -> int {
    micros * PICOS_PER_MICRO
}

/// How many whole units have gone by at `time` picoseconds when
/// `per_second` of them go by each second: nothing before time zero, and
/// never more than a `u32` holds.
pub open spec fn units_at(time: int, per_second: int) -> int {
    if time <= 0 {
        0
    } else if time * per_second / 1_000_000_000_000 > u32::MAX {
        u32::MAX as int
    } else {
        time * per_second / 1_000_000_000_000
    }
}

/// The whole picoseconds that `count` units take when `per_second` of them
/// go by each second. Where none goes by, any unit at all takes forever.
pub open spec fn picos_of_units(count: int, per_second: int) -> int {
    if count == 0 {
        0
    } else if per_second == 0 {
        TIME_END as int
    } else {
        count * 1_000_000_000_000 / per_second
    }
}

impl StreamSpec {
    /// Interleaved samples per second, over all channels.
    pub open spec fn samples_per_second(self) -> int {
        self.channels as int * self.sample_rate as int
    }

    /// `samples_per_second` computed.
    pub fn interleaved_rate(&self) -> (rate: u64)
        ensures
            rate == self.samples_per_second(),
    {
        assert(self.channels as int * self.sample_rate as int <= 0xffff * 0xffff_ffff)
            by (nonlinear_arith)
            requires
                self.channels <= 0xffff,
                self.sample_rate <= 0xffff_ffff,
        ;
        self.channels as u64 * self.sample_rate as u64
    }
}

/// The units of the whole seconds of a time and the units of the rest of
/// it, taken apart, are the units of all of it.
pub proof fn lemma_units_by_parts(time: int, per_second: int, unit: int)
    requires
        0 < unit,
    ensures
        time * per_second / unit == (time / unit) * per_second + ((time % unit) * per_second)
            / unit,
{
    let q = time / unit;
    let r = time % unit;
    let x = r * per_second;
    lemma_fundamental_div_mod(time, unit);
    lemma_fundamental_div_mod(x, unit);
    assert(time * per_second == (q * per_second + x / unit) * unit + x % unit)
        by (nonlinear_arith)
        requires
            time == unit * q + r,
            x == r * per_second,
            x == unit * (x / unit) + x % unit,
    ;
    lemma_fundamental_div_mod_converse(
        time * per_second,
        unit,
        q * per_second + x / unit,
        x % unit,
    );
}

/// `units_at` computed.
pub fn units_elapsed(time: i128, per_second: u64) -> (units: u32)
    ensures
        units == units_at(time as int, per_second as int),
{
    if time <= 0 {
        return 0;
    }
    if per_second == 0 {
        assert(time as int * 0 == 0);
        return 0;
    }
    let seconds: i128 = time / PICOS_PER_SECOND;
    let rest: i128 = time % PICOS_PER_SECOND;
    proof {
        lemma_units_by_parts(time as int, per_second as int, 1_000_000_000_000);
        lemma_fundamental_div_mod(time as int, 1_000_000_000_000);
        assert(0 <= (rest as int * per_second as int) / 1_000_000_000_000) by {
            assert(0 <= rest as int * per_second as int) by (nonlinear_arith)
                requires
                    0 <= rest,
                    0 <= per_second,
            ;
            lemma_div_is_ordered(0, rest as int * per_second as int, 1_000_000_000_000);
        }
    }
    if seconds >= 0x1_0000_0000 {
        assert(seconds as int * per_second as int >= 0x1_0000_0000) by (nonlinear_arith)
            requires
                seconds >= 0x1_0000_0000,
                per_second >= 1,
        ;
        return u32::MAX;
    }
    assert(seconds as int * per_second as int <= 0xffff_ffff * 0xffff_ffff_ffff_ffff)
        by (nonlinear_arith)
        requires
            0 <= seconds <= 0xffff_ffff,
            per_second <= 0xffff_ffff_ffff_ffff,
    ;
    assert(0 <= rest as int * per_second as int <= 999_999_999_999 * 0xffff_ffff_ffff_ffff)
        by (nonlinear_arith)
        requires
            0 <= rest <= 999_999_999_999,
            per_second <= 0xffff_ffff_ffff_ffff,
    ;
    assert(0 <= seconds as int * per_second as int) by (nonlinear_arith)
        requires
            0 <= seconds,
            0 <= per_second,
    ;
    let whole: u128 = seconds as u128 * per_second as u128;
    let part: u128 = (rest as u128 * per_second as u128) / 1_000_000_000_000;
    let raw: u128 = whole + part;
    if raw > u32::MAX as u128 {
        u32::MAX
    } else {
        raw as u32
    }
}

/// `clamp_time` computed.
pub fn saturate(t: i128) -> (time: i128)
    ensures
        time == clamp_time(t as int),
{
    if t < -TIME_END {
        -TIME_END
    } else if t > TIME_END {
        TIME_END
    } else {
        t
    }
}

/// `clamp_micros` computed.
pub fn saturate_micros(t: i128) -> (micros: i64)
    ensures
        micros == clamp_micros(t as int),
{
    if t < i64::MIN as i128 {
        i64::MIN
    } else if t > i64::MAX as i128 {
        i64::MAX
    } else {
        t as i64
    }
}

/// `micros_to_time` computed.
pub fn time_of_micros(micros: i64) -> (time: i128)
    ensures
        time == micros_to_time(micros as int),
        time == clamp_time(time as int),
{
    micros as i128 * PICOS_PER_MICRO
}

/// The sum of two times, stopped at the ends of time.
pub fn saturating_sum(a: i128, b: i128) -> (sum: i128)
    ensures
        sum == clamp_time(a + b),
{
    match a.checked_add(b) {
        Some(sum) => saturate(sum),
        None => if a > 0 {
            TIME_END
        } else {
            -TIME_END
        },
    }
}

/// The difference of two times, stopped at the ends of time.
pub fn saturating_difference(a: i128, b: i128) -> (difference: i128)
    ensures
        difference == clamp_time(a - b),
{
    match a.checked_sub(b) {
        Some(difference) => saturate(difference),
        None => if a >= 0 {
            TIME_END
        } else {
            -TIME_END
        },
    }
}

/// A position in a stream, held both as a time and as the index of the
/// interleaved sample that is due at that time.
#[derive(Clone, Copy, Debug, PartialEq, Eq, Structural)]
pub struct AudioTime {
    /// Picoseconds since the stream began.
    pub time: i128,
    pub interleaved_sample_num: u32,
    pub channels: u16,
    pub sample_rate: u32,
}

impl AudioTime {
    /// The stream format that this position belongs to.
    pub open spec fn stream_spec(self) -> StreamSpec {
        StreamSpec { channels: self.channels, sample_rate: self.sample_rate }
    }

    /// Both positions belong to streams of one format.
    pub open spec fn same_spec(self, other: AudioTime) -> bool {
        self.channels == other.channels && self.sample_rate == other.sample_rate
    }

    /// The sample index is the one that the time gives.
    pub open spec fn is_consistent(self) -> bool {
        self.interleaved_sample_num == units_at(
            self.time as int,
            self.stream_spec().samples_per_second(),
        )
    }

    /// The position at `time` picoseconds in a stream of format `spec`.
    pub open spec fn at_time(time: int, spec: StreamSpec) -> AudioTime {
        AudioTime {
            time: clamp_time(time) as i128,
            interleaved_sample_num: units_at(clamp_time(time), spec.samples_per_second()) as u32,
            channels: spec.channels,
            sample_rate: spec.sample_rate,
        }
    }

    /// The position of the interleaved sample `index` in a stream of format `spec`.
    pub open spec fn at_sample(index: u32, spec: StreamSpec) -> AudioTime {
        AudioTime {
            time: picos_of_units(index as int, spec.samples_per_second()) as i128,
            interleaved_sample_num: index,
            channels: spec.channels,
            sample_rate: spec.sample_rate,
        }
    }

    /// The position at `time` picoseconds in a stream of format `spec`.
    /// Its sample index is rounded down, is zero before the stream
    /// begins, and is never more than a `u32` holds.
    pub fn from_time_and_spec(time: i128, spec: StreamSpec) -> (result: AudioTime)
        ensures
            result == AudioTime::at_time(time as int, spec),
            result.time == clamp_time(time as int),
            result.is_consistent(),
    {
        let time: i128 = saturate(time);
        AudioTime {
            time,
            channels: spec.channels,
            sample_rate: spec.sample_rate,
            interleaved_sample_num: units_elapsed(time, spec.interleaved_rate()),
        }
    }

    /// The position of an interleaved sample in a stream of format `spec`.
    /// Its time is rounded down to a whole picosecond. The sample index
    /// that this time gives is never greater than the one given here, and
    /// is less by one at most in a stream that passes at least one and no
    /// more than `u32::MAX` interleaved samples a second.
    pub fn from_sample_and_spec(interleaved_sample_num: u32, spec: StreamSpec) -> (result:
        AudioTime)
        ensures
            result == AudioTime::at_sample(interleaved_sample_num, spec),
            0 <= result.time <= TIME_END,
            AudioTime::at_time(result.time as int, spec).interleaved_sample_num
                <= interleaved_sample_num,
            1 <= spec.samples_per_second() <= u32::MAX ==> interleaved_sample_num
                - AudioTime::at_time(result.time as int, spec).interleaved_sample_num <= 1,
    {
        proof {
            lemma_round_trip_loses_at_most_one(interleaved_sample_num, spec);
        }
        let rate: u64 = spec.interleaved_rate();
        let time: i128 = if interleaved_sample_num == 0 {
            0
        } else if rate == 0 {
            TIME_END
        } else {
            let scaled: u128 = interleaved_sample_num as u128 * 1_000_000_000_000;
            (scaled / rate as u128) as i128
        };
        AudioTime { time, channels: spec.channels, sample_rate: spec.sample_rate, interleaved_sample_num }
    }

    /// The position at `time` picoseconds in the stream that `audiotime`
    /// belongs to.
    pub fn from_time_same_spec(time: i128, audiotime: AudioTime) -> (result: AudioTime)
        ensures
            result == AudioTime::at_time(time as int, audiotime.stream_spec()),
            result.time == clamp_time(time as int),
            result.same_spec(audiotime),
            result.is_consistent(),
    {
        AudioTime::from_time_and_spec(
            time,
            StreamSpec { channels: audiotime.channels, sample_rate: audiotime.sample_rate },
        )
    }

    /// The frame that is due at this time: the sample index within one channel.
    pub open spec fn frame_index(self) -> int {
        units_at(self.time as int, self.sample_rate as int)
    }

    /// The index to seek to in a stream: the frame that is due at this time.
    pub fn frame_num(&self) -> (frame: u32)
        ensures
            frame == self.frame_index(),
    {
        units_elapsed(self.time, self.sample_rate as u64)
    }
}

/// The quotient of `numerator` by a positive `denominator`, rounded down.
pub fn floor_div(numerator: i128, denominator: i128) -> (quotient: i128)
    requires
        0 < denominator,
    ensures
        quotient == numerator as int / denominator as int,
{
    if numerator >= 0 {
        numerator / denominator
    } else {
        let below: i128 = -(numerator + 1);
        let q: i128 = below / denominator;
        let ghost r: int = below as int % denominator as int;
        proof {
            lemma_fundamental_div_mod(below as int, denominator as int);
            assert(numerator as int == (-1 - q) * denominator + (denominator - r - 1))
                by (nonlinear_arith)
                requires
                    below as int == denominator * q + r,
                    numerator as int == -(below as int) - 1,
            ;
            lemma_fundamental_div_mod_converse(
                numerator as int,
                denominator as int,
                -1 - q as int,
                denominator - r - 1,
            );
        }
        -1 - q
    }
}

impl AudioTime {
    /// The position `rhs.time` later than `self`, in the stream of `self`.
    /// The time stops at the ends of time.
    pub open spec fn plus(self, rhs: AudioTime) -> AudioTime {
        AudioTime::at_time(self.time + rhs.time, self.stream_spec())
    }

    /// The position `rhs.time` earlier than `self`, in the stream of `self`.
    /// The time stops at the ends of time.
    pub open spec fn minus(self, rhs: AudioTime) -> AudioTime {
        AudioTime::at_time(self.time - rhs.time, self.stream_spec())
    }

    /// The position at `numerator / denominator` of the time of `self`,
    /// rounded down to a whole picosecond.
    pub open spec fn scaled(self, numerator: int, denominator: int) -> AudioTime {
        AudioTime::at_time(
            clamp_time(self.time as int) * numerator / denominator,
            self.stream_spec(),
        )
    }

    /// `self + rhs` where both belong to streams of one format, and
    /// nothing where they do not.
    pub fn checked_add(self, rhs: AudioTime) -> (result: Option<AudioTime>)
        ensures
            self.same_spec(rhs) ==> result == Some(self.plus(rhs)),
            !self.same_spec(rhs) ==> result is None,
    {
        if self.channels == rhs.channels && self.sample_rate == rhs.sample_rate {
            Some(self + rhs)
        } else {
            None
        }
    }

    /// `self - rhs` where both belong to streams of one format, and
    /// nothing where they do not.
    pub fn checked_sub(self, rhs: AudioTime) -> (result: Option<AudioTime>)
        ensures
            self.same_spec(rhs) ==> result == Some(self.minus(rhs)),
            !self.same_spec(rhs) ==> result is None,
    {
        if self.channels == rhs.channels && self.sample_rate == rhs.sample_rate {
            Some(self - rhs)
        } else {
            None
        }
    }

    /// Stretches the time by the ratio `numerator / denominator`.
    pub fn scale(self, numerator: i64, denominator: i64) -> (result: AudioTime)
        requires
            0 < denominator,
        ensures
            result == self.scaled(numerator as int, denominator as int),
            result.same_spec(self),
            result.is_consistent(),
    {
        let time: i128 = saturate(self.time);
        let wholes: i128 = floor_div(time, denominator as i128);
        proof {
            lemma_fundamental_div_mod(time as int, denominator as int);
            lemma_units_by_parts(time as int, numerator as int, denominator as int);
            let lost: int = (time as int) % (denominator as int);
            assert(-TIME_END - 0x8000_0000_0000_0000 <= wholes as int * denominator as int
                <= TIME_END) by (nonlinear_arith)
                requires
                    time as int == denominator as int * wholes as int + lost,
                    0 <= lost,
                    lost < denominator,
                    denominator <= 0x7fff_ffff_ffff_ffff,
                    -TIME_END <= time <= TIME_END,
            ;
        }
        let rest: i128 = time - wholes * denominator as i128;
        assert(rest as int == (time as int) % (denominator as int)) by (nonlinear_arith)
            requires
                time as int == denominator as int * wholes as int + (time as int) % (
                denominator as int),
                rest as int == time as int - wholes as int * denominator as int,
        ;
        assert(-0x4000_0000_0000_0000_0000_0000_0000_0000 <= rest as int * numerator as int
            <= 0x4000_0000_0000_0000_0000_0000_0000_0000) by (nonlinear_arith)
            requires
                0 <= rest <= 0x7fff_ffff_ffff_ffff,
                -0x8000_0000_0000_0000 <= numerator <= 0x7fff_ffff_ffff_ffff,
        ;
        let part: i128 = floor_div(rest * numerator as i128, denominator as i128);
        proof {
            // the part lies between zero and the numerator
            if numerator >= 0 {
                assert(0 <= rest as int * numerator as int <= denominator as int
                    * numerator as int) by (nonlinear_arith)
                    requires
                        0 <= rest < denominator,
                        0 <= numerator,
                ;
                lemma_div_is_ordered(0, rest as int * numerator as int, denominator as int);
                lemma_div_is_ordered(
                    rest as int * numerator as int,
                    denominator as int * numerator as int,
                    denominator as int,
                );
                lemma_div_multiples_vanish(numerator as int, denominator as int);
            } else {
                assert(denominator as int * numerator as int <= rest as int * numerator as int
                    <= 0) by (nonlinear_arith)
                    requires
                        0 <= rest < denominator,
                        numerator < 0,
                ;
                lemma_div_is_ordered(rest as int * numerator as int, 0, denominator as int);
                lemma_div_is_ordered(
                    denominator as int * numerator as int,
                    rest as int * numerator as int,
                    denominator as int,
                );
                lemma_div_multiples_vanish(numerator as int, denominator as int);
            }
        }
        let ghost product: int = wholes as int * numerator as int;
        assert(clamp_time(self.time as int) * numerator as int / denominator as int == product
            + part);
        assert(-0x8000_0000_0000_0000 <= part <= 0x8000_0000_0000_0000);
        assert(wholes == 0 || numerator == 0 ==> product == 0) by (nonlinear_arith)
            requires
                product == wholes as int * numerator as int,
        ;
        let scaled: i128 = match wholes.checked_mul(numerator as i128) {
            Some(product) => match product.checked_add(part) {
                Some(sum) => saturate(sum),
                None => if product > 0 {
                    TIME_END
                } else {
                    -TIME_END
                },
            },
            None => {
                if (wholes > 0) == (numerator > 0) {
                    assert(product > 0) by (nonlinear_arith)
                        requires
                            product == wholes as int * numerator as int,
                            (wholes > 0) == (numerator > 0),
                            wholes != 0,
                            numerator != 0,
                    ;
                    TIME_END
                } else {
                    assert(product <= 0) by (nonlinear_arith)
                        requires
                            product == wholes as int * numerator as int,
                            (wholes > 0) != (numerator > 0),
                    ;
                    -TIME_END
                }
            },
        };
        AudioTime::from_time_same_spec(scaled, self)
    }
}

impl AddSpecImpl for AudioTime {
    open spec fn obeys_add_spec() -> bool {
        true
    }

    open spec fn add_req(self, rhs: AudioTime) -> bool {
        self.same_spec(rhs)
    }

    open spec fn add_spec(self, rhs: AudioTime) -> AudioTime {
        self.plus(rhs)
    }
}

impl std::ops::Add for AudioTime {
    type Output = AudioTime;

    /// Both operands must belong to streams of one format.
    fn add(self, rhs: AudioTime) -> (result: AudioTime)
        ensures
            result.same_spec(self),
            result.is_consistent(),
    {
        AudioTime::from_time_same_spec(saturating_sum(self.time, rhs.time), self)
    }
}

impl SubSpecImpl for AudioTime {
    open spec fn obeys_sub_spec() -> bool {
        true
    }

    open spec fn sub_req(self, rhs: AudioTime) -> bool {
        self.same_spec(rhs)
    }

    open spec fn sub_spec(self, rhs: AudioTime) -> AudioTime {
        self.minus(rhs)
    }
}

impl std::ops::Sub for AudioTime {
    type Output = AudioTime;

    /// Both operands must belong to streams of one format.
    fn sub(self, rhs: AudioTime) -> (result: AudioTime)
        ensures
            result.same_spec(self),
            result.is_consistent(),
    {
        AudioTime::from_time_same_spec(saturating_difference(self.time, rhs.time), self)
    }
}

/// The position at `numerator / denominator` of the way from `start` to `end`.
pub fn interpolate(start: AudioTime, end: AudioTime, numerator: i64, denominator: i64) -> (result:
    AudioTime)
    requires
        start.same_spec(end),
        0 < denominator,
    ensures
        result == start.plus(end.minus(start).scaled(numerator as int, denominator as int)),
        result.same_spec(start),
{
    start + (end - start).scale(numerator, denominator)
}

/// How far `x` lies on the way from `start` to `end`: the first number
/// divided by the second, which is zero where `start` and `end` are at
/// the same time.
pub fn interpolation_factor(start: AudioTime, end: AudioTime, x: AudioTime) -> (factor: (i128, i128))
    ensures
        factor.0 == clamp_time(x.time - start.time),
        factor.1 == clamp_time(end.time - start.time),
{
    (saturating_difference(x.time, start.time), saturating_difference(end.time, start.time))
}

/// A later time never has an earlier sample index.
pub proof fn lemma_units_at_monotonic(t1: int, t2: int, per_second: int)
    requires
        t1 <= t2,
        0 <= per_second,
    ensures
        units_at(t1, per_second) <= units_at(t2, per_second),
{
    if 0 < t1 {
        lemma_mul_inequality(t1, t2, per_second);
        lemma_div_is_ordered(t1 * per_second, t2 * per_second, 1_000_000_000_000);
    } else if 0 < t2 {
        assert(0 <= t2 * per_second) by (nonlinear_arith)
            requires
                0 < t2,
                0 <= per_second,
        ;
        lemma_div_is_ordered(0, t2 * per_second, 1_000_000_000_000);
    }
}

/// Of two times in streams of one format, the later one never gets the
/// smaller sample index.
pub proof fn lemma_from_time_monotonic(t1: i128, t2: i128, spec: StreamSpec)
    requires
        t1 < t2,
    ensures
        AudioTime::at_time(t1 as int, spec).interleaved_sample_num <= AudioTime::at_time(
            t2 as int,
            spec,
        ).interleaved_sample_num,
{
    assert(0 <= spec.samples_per_second()) by (nonlinear_arith)
        requires
            spec.samples_per_second() == spec.channels as int * spec.sample_rate as int,
    ;
    lemma_units_at_monotonic(
        clamp_time(t1 as int),
        clamp_time(t2 as int),
        spec.samples_per_second(),
    );
}

/// The time of `count` units and the units at that time, where at least
/// one unit and no more than `u32::MAX` of them go by each second: the way
/// there and back loses at most one unit and never gains one.
pub proof fn lemma_units_round_trip(count: int, per_second: int)
    requires
        0 <= count <= u32::MAX,
        1 <= per_second <= u32::MAX,
    ensures
        count - 1 <= units_at(picos_of_units(count, per_second), per_second) <= count,
{
    if count > 0 {
        let scaled = count * 1_000_000_000_000;
        let time = scaled / per_second;
        let lost = scaled % per_second;
        lemma_fundamental_div_mod(scaled, per_second);
        assert(0 <= time) by {
            lemma_div_is_ordered(0, scaled, per_second);
        }
        // count * 10^12 - per_second < time * per_second <= count * 10^12
        assert(time * per_second == scaled - lost) by (nonlinear_arith)
            requires
                scaled == per_second * time + lost,
        ;
        assert((count - 1) * 1_000_000_000_000 <= time * per_second) by {
            assert(lost < per_second <= 1_000_000_000_000);
        }
        lemma_div_is_ordered(
            (count - 1) * 1_000_000_000_000,
            time * per_second,
            1_000_000_000_000,
        );
        lemma_div_is_ordered(time * per_second, scaled, 1_000_000_000_000);
        lemma_div_multiples_vanish(count - 1, 1_000_000_000_000);
        lemma_div_multiples_vanish(count, 1_000_000_000_000);
        assert(1_000_000_000_000 * (count - 1) == (count - 1) * 1_000_000_000_000);
        assert(1_000_000_000_000 * count == scaled);
        let back = time * per_second / 1_000_000_000_000;
        assert(count - 1 <= back <= count);
        assert(picos_of_units(count, per_second) == time);
        if time == 0 {
            assert(time * per_second == 0) by (nonlinear_arith)
                requires
                    time == 0,
            ;
        }
    }
}

/// From a sample index to its time and back never gives a later sample,
/// and in a stream that passes at least one and no more than `u32::MAX`
/// interleaved samples a second it gives the same sample or the one before.
pub proof fn lemma_round_trip_loses_at_most_one(index: u32, spec: StreamSpec)
    ensures
        AudioTime::at_time(
            AudioTime::at_sample(index, spec).time as int,
            spec,
        ).interleaved_sample_num <= index,
        1 <= spec.samples_per_second() <= u32::MAX ==> index - AudioTime::at_time(
            AudioTime::at_sample(index, spec).time as int,
            spec,
        ).interleaved_sample_num <= 1,
{
    let per_second = spec.samples_per_second();
    assert(0 <= per_second <= 0xffff * 0xffff_ffff) by (nonlinear_arith)
        requires
            per_second == spec.channels as int * spec.sample_rate as int,
            0 <= spec.channels <= 0xffff,
            0 <= spec.sample_rate <= 0xffff_ffff,
    ;
    if index > 0 && per_second > 0 {
        let scaled = index as int * 1_000_000_000_000;
        let time = scaled / per_second;
        lemma_fundamental_div_mod(scaled, per_second);
        assert(0 <= time <= scaled) by (nonlinear_arith)
            requires
                0 <= scaled,
                0 < per_second,
                scaled == per_second * time + scaled % per_second,
                0 <= scaled % per_second < per_second,
        ;
        assert(time * per_second <= scaled) by (nonlinear_arith)
            requires
                scaled == per_second * time + scaled % per_second,
                0 <= scaled % per_second,
        ;
        lemma_div_is_ordered(time * per_second, scaled, 1_000_000_000_000);
        lemma_div_multiples_vanish(index as int, 1_000_000_000_000);
        assert(1_000_000_000_000 * index as int == scaled);
        if per_second <= u32::MAX {
            lemma_units_round_trip(index as int, per_second);
        }
    } else if index > 0 {
        assert(TIME_END as int * 0 == 0);
    }
}

/// Adding and subtracting positions of one stream format stays in that format.
pub proof fn lemma_arithmetic_keeps_spec(a: AudioTime, b: AudioTime)
    requires
        a.same_spec(b),
    ensures
        a.plus(b).same_spec(a),
        a.plus(b).same_spec(b),
        a.minus(b).same_spec(a),
        a.minus(b).same_spec(b),
{
}

} // verus!
