//! Ways to find the times at which a recording is cut into its songs.

use super::sample_reader::{get_volume_at, lemma_volume_at_bounds, volume_at, SampleReader};
use super::time::{
    clamp_micros, floor_div, micros_to_time, saturate_micros, time_of_micros, AudioTime, StreamSpec,
};
use crate::recording::dbus_event::Timestamp;
use crate::recording_session::RecordingSession;
use crate::song::Song;
use vstd::prelude::*;

verus! {

/// The earliest shift that the silence search tries by default, in microseconds.
pub const MIN_OFFSET: i64 = -3_000_000;

/// The end of the interval of shifts that the silence search tries by
/// default, in microseconds; the end itself is not tried.
pub const MAX_OFFSET: i64 = 3_000_000;

/// How many shifts the silence search tries by default.
pub const NUM_OFFSETS_TO_TRY: u32 = 10000;

/// Every shift of the guesses that was tried moves a cut so near to an end
/// of the recording that its volume cannot be had.
#[derive(Clone, Copy, Debug, PartialEq, Eq, Structural)]
pub struct NoSilenceCandidateError;

/// A way to find the cut times of a session: for N songs, N + 1 times.
pub trait CuttingStrategy {
    /// The cut times for `session` in the recording `stream` of format
    /// `spec`, or nothing where this strategy finds none.
    spec fn cut_times(
        &self,
        stream: Seq<i16>,
        spec: StreamSpec,
        session: RecordingSession,
    ) -> Option<Seq<AudioTime>>;

    /// One time for each cut, in order. The session must hold one instant
    /// more than it holds songs.
    fn get_timestamps<R: SampleReader>(&self, buffer: &mut R, session: &RecordingSession) -> (result:
        Result<Vec<AudioTime>, NoSilenceCandidateError>)
        requires
            session.is_bracketed(),
        ensures
            final(buffer).stream() == old(buffer).stream(),
            final(buffer).stream_spec() == old(buffer).stream_spec(),
            result is Ok <==> self.cut_times(
                old(buffer).stream(),
                old(buffer).stream_spec(),
                *session,
            ) is Some,
            result is Ok ==> result->Ok_0@ == self.cut_times(
                old(buffer).stream(),
                old(buffer).stream_spec(),
                *session,
            )->Some_0,
            result is Ok ==> result->Ok_0@.len() == session.songs.len() + 1,
    ;
}

/// The instants of a session as positions in a stream of format `spec`.
pub open spec fn event_times(spec: StreamSpec, timestamps: Seq<Timestamp>) -> Seq<AudioTime> {
    Seq::new(
        timestamps.len(),
        |i: int| AudioTime::at_time(micros_to_time(timestamps[i].micros()), spec),
    )
}

/// Cuts where the player reported a change.
#[derive(Clone, Copy, Debug, Default)]
pub struct DbusStrategy;

impl CuttingStrategy for DbusStrategy {
    open spec fn cut_times(
        &self,
        stream: Seq<i16>,
        spec: StreamSpec,
        session: RecordingSession,
    ) -> Option<Seq<AudioTime>> {
        Some(event_times(spec, session.timestamps@))
    }

    fn get_timestamps<R: SampleReader>(&self, buffer: &mut R, session: &RecordingSession) -> (result:
        Result<Vec<AudioTime>, NoSilenceCandidateError>) {
        let spec: StreamSpec = buffer.spec();
        let mut times: Vec<AudioTime> = Vec::new();
        let mut i: usize = 0;
        while i < session.timestamps.len()
            invariant
                i <= session.timestamps.len(),
                times@ == event_times(spec, session.timestamps@.take(i as int)),
            decreases session.timestamps.len() - i,
        {
            times.push(
                AudioTime::from_time_and_spec(
                    time_of_micros(session.timestamps[i].in_micros()),
                    spec,
                ),
            );
            proof {
                assert(times@ =~= event_times(spec, session.timestamps@.take(i + 1)));
            }
            i = i + 1;
        }
        proof {
            assert(session.timestamps@.take(session.timestamps.len() as int)
                == session.timestamps@);
        }
        Ok(times)
    }
}

/// The time of cut `i` when the first cut is at `first` and every song
/// plays for as long as it says: the time of the cut before, and the
/// length of the song between the two, in microseconds. A time stops at
/// the ends of `i64`.
pub open spec fn boundary_micros(first: int, songs: Seq<Song>, i: nat) -> int
    decreases i,
{
    if i == 0 {
        first
    } else {
        clamp_micros(boundary_micros(first, songs, (i - 1) as nat) + songs[i - 1].length)
    }
}

/// The times of all cuts of `songs`, the first of them at `first`.
pub open spec fn boundaries(first: int, songs: Seq<Song>) -> Seq<int> {
    Seq::new(songs.len() + 1, |i: int| boundary_micros(first, songs, i as nat))
}

/// The time at which the first song begins, and then the time at which
/// each song ends if it plays for as long as it says.
pub fn get_cut_timestamps_from_song_lengths(songs: &[Song], estimated_time_first_song: i64) -> (times:
    Vec<i64>)
    ensures
        times@.map_values(|t: i64| t as int) == boundaries(
            estimated_time_first_song as int,
            songs@,
        ),
        times@.len() == songs@.len() + 1,
{
    let mut times: Vec<i64> = Vec::new();
    let mut acc: i64 = estimated_time_first_song;
    times.push(acc);
    let mut i: usize = 0;
    while i < songs.len()
        invariant
            i <= songs.len(),
            times@.len() == i + 1,
            acc as int == boundary_micros(estimated_time_first_song as int, songs@, i as nat),
            forall|k: int|
                0 <= k <= i ==> times@[k] as int == boundary_micros(
                    estimated_time_first_song as int,
                    songs@,
                    k as nat,
                ),
        decreases songs.len() - i,
    {
        acc = saturate_micros(acc as i128 + songs[i].length as i128);
        times.push(acc);
        i = i + 1;
    }
    proof {
        assert(times@.map_values(|t: i64| t as int) =~= boundaries(
            estimated_time_first_song as int,
            songs@,
        ));
    }
    times
}

/// The times of all cuts of `session` as positions in a stream of format
/// `spec`, going by the first instant and by the lengths of the songs.
pub open spec fn length_times(spec: StreamSpec, session: RecordingSession) -> Seq<AudioTime> {
    Seq::new(
        session.songs@.len() + 1,
        |i: int|
            AudioTime::at_time(
                micros_to_time(
                    boundary_micros(session.timestamps@[0].micros(), session.songs@, i as nat),
                ),
                spec,
            ),
    )
}

/// The first cut where the player reported the first change, every later
/// cut as much later as the song before it is long.
#[derive(Clone, Copy, Debug, Default)]
pub struct DbusLengthsStrategy;

impl CuttingStrategy for DbusLengthsStrategy {
    open spec fn cut_times(
        &self,
        stream: Seq<i16>,
        spec: StreamSpec,
        session: RecordingSession,
    ) -> Option<Seq<AudioTime>> {
        Some(length_times(spec, session))
    }

    fn get_timestamps<R: SampleReader>(&self, buffer: &mut R, session: &RecordingSession) -> (result:
        Result<Vec<AudioTime>, NoSilenceCandidateError>) {
        let spec: StreamSpec = buffer.spec();
        let first_timestamp: &Timestamp = &session.timestamps[0];
        let micros: Vec<i64> = get_cut_timestamps_from_song_lengths(
            session.songs.as_slice(),
            first_timestamp.in_micros(),
        );
        let ghost wanted = length_times(spec, *session);
        let ghost all = boundaries(first_timestamp.micros(), session.songs@);
        let mut times: Vec<AudioTime> = Vec::new();
        let mut i: usize = 0;
        while i < micros.len()
            invariant
                i <= micros.len(),
                micros@.len() == wanted.len(),
                micros@.map_values(|t: i64| t as int) == all,
                all == boundaries(session.timestamps@[0].micros(), session.songs@),
                wanted == length_times(spec, *session),
                times@ == wanted.take(i as int),
            decreases micros.len() - i,
        {
            proof {
                assert(micros@.map_values(|t: i64| t as int)[i as int] == all[i as int]);
            }
            times.push(AudioTime::from_time_and_spec(time_of_micros(micros[i]), spec));
            proof {
                assert(times@ =~= wanted.take(i + 1));
            }
            i = i + 1;
        }
        proof {
            assert(wanted.take(wanted.len() as int) == wanted);
        }
        Ok(times)
    }
}

/// The volumes at the first `n` of `guesses`, each moved by `offset`, added
/// up; or nothing if one of those volumes cannot be had. A sum of some of
/// the volumes never stands for the sum of all.
pub open spec fn total_volume(
    stream: Seq<i16>,
    spec: StreamSpec,
    guesses: Seq<AudioTime>,
    offset: AudioTime,
    n: nat,
) -> Option<int>
    decreases n,
{
    if n == 0 {
        Some(0)
    } else {
        match (
            total_volume(stream, spec, guesses, offset, (n - 1) as nat),
            volume_at(stream, spec, guesses[n - 1].plus(offset)),
        ) {
            (Some(before), Some(volume)) => Some(before + volume),
            _ => None,
        }
    }
}

/// A total of `n` volumes is never negative and never more than `n` times
/// what a `u64` holds.
pub proof fn lemma_total_volume_bounds(
    stream: Seq<i16>,
    spec: StreamSpec,
    guesses: Seq<AudioTime>,
    offset: AudioTime,
    n: nat,
)
    ensures
        total_volume(stream, spec, guesses, offset, n) is Some ==> 0 <= total_volume(
            stream,
            spec,
            guesses,
            offset,
            n,
        )->Some_0 <= n * u64::MAX,
    decreases n,
{
    if n > 0 {
        lemma_total_volume_bounds(stream, spec, guesses, offset, (n - 1) as nat);
        lemma_volume_at_bounds(stream, spec, guesses[n - 1].plus(offset));
        assert((n - 1) * u64::MAX + u64::MAX == n * u64::MAX) by (nonlinear_arith);
    }
}

/// Once a volume cannot be had, no longer total can be had either.
pub proof fn lemma_total_volume_stays_none(
    stream: Seq<i16>,
    spec: StreamSpec,
    guesses: Seq<AudioTime>,
    offset: AudioTime,
    m: nat,
    n: nat,
)
    requires
        m <= n,
        total_volume(stream, spec, guesses, offset, m) is None,
    ensures
        total_volume(stream, spec, guesses, offset, n) is None,
    decreases n,
{
    if m < n {
        lemma_total_volume_stays_none(stream, spec, guesses, offset, m, (n - 1) as nat);
    }
}

/// The volumes at all of `guesses`, each moved by `offset`, added up, or
/// nothing if one of the moved guesses lies too near to an end of the
/// recording.
pub fn sum_volumes<R: SampleReader>(buffer: &mut R, guesses: &[AudioTime], offset: AudioTime) -> (total:
    Option<u128>)
    requires
        offset.stream_spec() == old(buffer).stream_spec(),
        forall|k: int|
            0 <= k < guesses@.len() ==> (#[trigger] guesses@[k]).stream_spec() == old(buffer).stream_spec(),
    ensures
        final(buffer).stream() == old(buffer).stream(),
        final(buffer).stream_spec() == old(buffer).stream_spec(),
        total is Some <==> total_volume(
            old(buffer).stream(),
            old(buffer).stream_spec(),
            guesses@,
            offset,
            guesses@.len(),
        ) is Some,
        total is Some ==> total->Some_0 as int == total_volume(
            old(buffer).stream(),
            old(buffer).stream_spec(),
            guesses@,
            offset,
            guesses@.len(),
        )->Some_0,
{
    let ghost stream = buffer.stream();
    let ghost spec = buffer.stream_spec();
    let mut total: u128 = 0;
    let mut i: usize = 0;
    while i < guesses.len()
        invariant
            i <= guesses.len(),
            stream == old(buffer).stream(),
            spec == old(buffer).stream_spec(),
            buffer.stream() == stream,
            buffer.stream_spec() == spec,
            offset.stream_spec() == spec,
            forall|k: int|
                0 <= k < guesses@.len() ==> (#[trigger] guesses@[k]).stream_spec() == spec,
            total_volume(stream, spec, guesses@, offset, i as nat) == Some(total as int),
        decreases guesses.len() - i,
    {
        let moved: AudioTime = guesses[i] + offset;
        match get_volume_at(buffer, moved) {
            Err(_) => {
                proof {
                    lemma_total_volume_stays_none(
                        stream,
                        spec,
                        guesses@,
                        offset,
                        (i + 1) as nat,
                        guesses@.len(),
                    );
                }
                return None;
            },
            Ok(volume) => {
                proof {
                    lemma_total_volume_bounds(stream, spec, guesses@, offset, i as nat);
                    assert(i * u64::MAX + u64::MAX <= 0xffff_ffff_ffff_ffff * 0xffff_ffff_ffff_ffff)
                        by (nonlinear_arith)
                        requires
                            i < 0xffff_ffff_ffff_ffff,
                    ;
                }
                total = total + volume as u128;
            },
        }
        i = i + 1;
    }
    Some(total)
}

/// The shifts that a silence search tries: `num_offsets` of them, evenly
/// spaced from `min_offset` on and ending before `max_offset`, all in
/// microseconds.
#[derive(Clone, Copy, Debug, PartialEq, Eq, Structural)]
pub struct SilenceOptimizer {
    pub min_offset: i64,
    pub max_offset: i64,
    pub num_offsets: u32,
}

/// The shift that a silence search settled on.
#[derive(Clone, Copy, Debug, PartialEq, Eq, Structural)]
pub struct OffsetChoice {
    /// Which of the shifts it is, counted from zero in the order they were tried.
    pub index: u32,
    pub offset: AudioTime,
    /// The volumes at all guesses moved by this shift, added up.
    pub total_volume: u128,
    /// The total spread over the guesses, rounded down: the lower, the
    /// surer it is that the cuts lie in silence.
    pub cut_quality_estimate: u128,
}

impl SilenceOptimizer {
    /// Shift number `i`, in microseconds.
    pub open spec fn candidate_micros(self, i: int) -> int {
        clamp_micros(
            self.min_offset + i * (self.max_offset - self.min_offset) / (self.num_offsets as int),
        )
    }

    /// Shift number `i` as a position in a stream of format `spec`.
    pub open spec fn candidate(self, spec: StreamSpec, i: int) -> AudioTime {
        AudioTime::at_time(micros_to_time(self.candidate_micros(i)), spec)
    }

    /// The volumes at all of `guesses` moved by shift number `i`, added up,
    /// or nothing if one of them cannot be had.
    pub open spec fn candidate_total(
        self,
        stream: Seq<i16>,
        spec: StreamSpec,
        guesses: Seq<AudioTime>,
        i: int,
    ) -> Option<int> {
        total_volume(stream, spec, guesses, self.candidate(spec, i), guesses.len())
    }

    /// Shift number `j` is the one to take: its total can be had, no shift
    /// has a smaller total, and every shift before it has a greater one.
    pub open spec fn is_first_quietest(
        self,
        stream: Seq<i16>,
        spec: StreamSpec,
        guesses: Seq<AudioTime>,
        j: int,
    ) -> bool {
        &&& 0 <= j < self.num_offsets
        &&& self.candidate_total(stream, spec, guesses, j) is Some
        &&& forall|k: int|
            0 <= k < self.num_offsets && (#[trigger] self.candidate_total(
                stream,
                spec,
                guesses,
                k,
            )) is Some ==> self.candidate_total(stream, spec, guesses, j)->Some_0
                <= self.candidate_total(stream, spec, guesses, k)->Some_0
        &&& forall|k: int|
            0 <= k < j && (#[trigger] self.candidate_total(stream, spec, guesses, k)) is Some
                ==> self.candidate_total(stream, spec, guesses, j)->Some_0 < self.candidate_total(
                stream,
                spec,
                guesses,
                k,
            )->Some_0
    }

    /// No shift can be taken: not one of them has a total.
    pub open spec fn has_no_candidate(
        self,
        stream: Seq<i16>,
        spec: StreamSpec,
        guesses: Seq<AudioTime>,
    ) -> bool {
        forall|k: int|
            0 <= k < self.num_offsets ==> (#[trigger] self.candidate_total(
                stream,
                spec,
                guesses,
                k,
            )) is None
    }

    /// `candidate_micros` computed.
    pub fn candidate_offset(&self, i: u32) -> (micros: i64)
        requires
            i < self.num_offsets,
        ensures
            micros == self.candidate_micros(i as int),
    {
        let span: i128 = self.max_offset as i128 - self.min_offset as i128;
        assert(-0x1_0000_0000_0000_0000_0000_0000 <= i as int * span as int
            <= 0x1_0000_0000_0000_0000_0000_0000) by (nonlinear_arith)
            requires
                0 <= i <= 0xffff_ffff,
                -0x1_0000_0000_0000_0000 <= span <= 0x1_0000_0000_0000_0000,
        ;
        let steps: i128 = floor_div(i as i128 * span, self.num_offsets as i128);
        assert(-0x1_0000_0000_0000_0000_0000_0000 <= steps <= 0x1_0000_0000_0000_0000_0000_0000)
            by (nonlinear_arith)
            requires
                steps == (i as int * span as int) / (self.num_offsets as int),
                0 < self.num_offsets,
                -0x1_0000_0000_0000_0000_0000_0000 <= i as int * span as int
                    <= 0x1_0000_0000_0000_0000_0000_0000,
        ;
        saturate_micros(self.min_offset as i128 + steps)
    }
}

impl Default for SilenceOptimizer {
    fn default() -> (search: SilenceOptimizer)
        ensures
            search == (SilenceOptimizer {
                min_offset: MIN_OFFSET,
                max_offset: MAX_OFFSET,
                num_offsets: NUM_OFFSETS_TO_TRY,
            }),
    {
        SilenceOptimizer {
            min_offset: MIN_OFFSET,
            max_offset: MAX_OFFSET,
            num_offsets: NUM_OFFSETS_TO_TRY,
        }
    }
}

/// At most one shift is the one to take.
pub proof fn lemma_first_quietest_is_unique(
    search: SilenceOptimizer,
    stream: Seq<i16>,
    spec: StreamSpec,
    guesses: Seq<AudioTime>,
    j1: int,
    j2: int,
)
    requires
        search.is_first_quietest(stream, spec, guesses, j1),
        search.is_first_quietest(stream, spec, guesses, j2),
    ensures
        j1 == j2,
{
}

/// Where one shift has a total below that of every other shift that has
/// one, that shift is the one to take.
pub proof fn lemma_unique_minimum_wins(
    search: SilenceOptimizer,
    stream: Seq<i16>,
    spec: StreamSpec,
    guesses: Seq<AudioTime>,
    quietest: int,
    taken: int,
)
    requires
        0 <= quietest < search.num_offsets,
        search.candidate_total(stream, spec, guesses, quietest) is Some,
        forall|k: int|
            0 <= k < search.num_offsets && k != quietest && (#[trigger] search.candidate_total(
                stream,
                spec,
                guesses,
                k,
            )) is Some ==> search.candidate_total(stream, spec, guesses, quietest)->Some_0
                < search.candidate_total(stream, spec, guesses, k)->Some_0,
        search.is_first_quietest(stream, spec, guesses, taken),
    ensures
        taken == quietest,
{
}

/// Finds the one shift that, applied to all of `guesses` alike, puts them
/// where the recording is quietest: of the shifts whose total volume can be
/// had, the one with the smallest total, and of several such the first. A
/// shift that moves any guess too near to an end of the recording is left
/// out altogether. Where that leaves no shift, the guesses are beyond
/// repair and the search fails.
pub fn optimize_cut_offset<R: SampleReader>(
    buffer: &mut R,
    guesses: &[AudioTime],
    search: &SilenceOptimizer,
) -> (result: Result<OffsetChoice, NoSilenceCandidateError>)
    requires
        forall|k: int|
            0 <= k < guesses@.len() ==> (#[trigger] guesses@[k]).stream_spec() == old(buffer).stream_spec(),
    ensures
        final(buffer).stream() == old(buffer).stream(),
        final(buffer).stream_spec() == old(buffer).stream_spec(),
        result is Err <==> search.has_no_candidate(
            old(buffer).stream(),
            old(buffer).stream_spec(),
            guesses@,
        ),
        result is Ok ==> ({
            let choice = result->Ok_0;
            &&& search.is_first_quietest(
                old(buffer).stream(),
                old(buffer).stream_spec(),
                guesses@,
                choice.index as int,
            )
            &&& choice.offset == search.candidate(old(buffer).stream_spec(), choice.index as int)
            &&& Some(choice.total_volume as int) == search.candidate_total(
                old(buffer).stream(),
                old(buffer).stream_spec(),
                guesses@,
                choice.index as int,
            )
            &&& choice.cut_quality_estimate == (if guesses@.len() == 0 {
                0
            } else {
                choice.total_volume as int / guesses@.len() as int
            })
        }),
{
    let ghost stream = buffer.stream();
    let spec: StreamSpec = buffer.spec();
    let mut min: Option<(u128, u32, AudioTime)> = None;
    let mut i: u32 = 0;
    while i < search.num_offsets
        invariant
            i <= search.num_offsets,
            stream == old(buffer).stream(),
            spec == old(buffer).stream_spec(),
            buffer.stream() == stream,
            buffer.stream_spec() == spec,
            forall|k: int|
                0 <= k < guesses@.len() ==> (#[trigger] guesses@[k]).stream_spec() == spec,
            min is None ==> forall|k: int|
                0 <= k < i ==> (#[trigger] search.candidate_total(stream, spec, guesses@, k))
                    is None,
            min is Some ==> ({
                let (min_volume, index, offset) = min->Some_0;
                &&& index < i
                &&& offset == search.candidate(spec, index as int)
                &&& search.candidate_total(stream, spec, guesses@, index as int) == Some(
                    min_volume as int,
                )
                &&& forall|k: int|
                    0 <= k < i && (#[trigger] search.candidate_total(stream, spec, guesses@, k))
                        is Some ==> min_volume <= search.candidate_total(
                        stream,
                        spec,
                        guesses@,
                        k,
                    )->Some_0
                &&& forall|k: int|
                    0 <= k < index && (#[trigger] search.candidate_total(
                        stream,
                        spec,
                        guesses@,
                        k,
                    )) is Some ==> min_volume < search.candidate_total(
                        stream,
                        spec,
                        guesses@,
                        k,
                    )->Some_0
            }),
        decreases search.num_offsets - i,
    {
        let offset: AudioTime = AudioTime::from_time_and_spec(
            time_of_micros(search.candidate_offset(i)),
            spec,
        );
        let total_volume: Option<u128> = sum_volumes(buffer, guesses, offset);
        if let Some(total_volume) = total_volume {
            if let Some((min_volume, _, _)) = min {
                if total_volume < min_volume {
                    min = Some((total_volume, i, offset));
                }
            } else {
                min = Some((total_volume, i, offset));
            }
        }
        i = i + 1;
    }
    match min {
        None => Err(NoSilenceCandidateError),
        Some((total_volume, index, offset)) => {
            let cut_quality_estimate: u128 = if guesses.len() == 0 {
                0
            } else {
                total_volume / guesses.len() as u128
            };
            Ok(OffsetChoice { index, offset, total_volume, cut_quality_estimate })
        },
    }
}

/// `guesses`, each moved by `offset`.
pub open spec fn shifted(guesses: Seq<AudioTime>, offset: AudioTime) -> Seq<AudioTime> {
    Seq::new(guesses.len(), |i: int| guesses[i].plus(offset))
}

impl CuttingStrategy for SilenceOptimizer {
    /// The cuts that the lengths of the songs give, all moved by the one
    /// shift that puts them where the recording is quietest.
    open spec fn cut_times(
        &self,
        stream: Seq<i16>,
        spec: StreamSpec,
        session: RecordingSession,
    ) -> Option<Seq<AudioTime>> {
        let guesses = length_times(spec, session);
        if exists|j: int| self.is_first_quietest(stream, spec, guesses, j) {
            let j = choose|j: int| self.is_first_quietest(stream, spec, guesses, j);
            Some(shifted(guesses, self.candidate(spec, j)))
        } else {
            None
        }
    }

    fn get_timestamps<R: SampleReader>(&self, buffer: &mut R, session: &RecordingSession) -> (result:
        Result<Vec<AudioTime>, NoSilenceCandidateError>) {
        let ghost stream = buffer.stream();
        let ghost spec = buffer.stream_spec();
        let guesses: Vec<AudioTime> = match DbusLengthsStrategy.get_timestamps(buffer, session) {
            Ok(guesses) => guesses,
            Err(e) => {
                return Err(e);
            },
        };
        let choice: OffsetChoice = match optimize_cut_offset(buffer, guesses.as_slice(), self) {
            Ok(choice) => choice,
            Err(e) => {
                proof {
                    assert forall|j: int| !self.is_first_quietest(stream, spec, guesses@, j) by {
                        if 0 <= j < self.num_offsets {
                            assert(self.candidate_total(stream, spec, guesses@, j) is None);
                        }
                    }
                }
                return Err(e);
            },
        };
        proof {
            let j = choose|j: int| self.is_first_quietest(stream, spec, guesses@, j);
            lemma_first_quietest_is_unique(*self, stream, spec, guesses@, j, choice.index as int);
        }
        let ghost wanted = shifted(guesses@, choice.offset);
        let mut times: Vec<AudioTime> = Vec::new();
        let mut i: usize = 0;
        while i < guesses.len()
            invariant
                i <= guesses.len(),
                choice.offset.stream_spec() == spec,
                forall|k: int|
                    0 <= k < guesses@.len() ==> (#[trigger] guesses@[k]).stream_spec() == spec,
                wanted == shifted(guesses@, choice.offset),
                times@ == wanted.take(i as int),
            decreases guesses.len() - i,
        {
            times.push(guesses[i] + choice.offset);
            proof {
                assert(times@ =~= wanted.take(i + 1));
            }
            i = i + 1;
        }
        proof {
            assert(wanted.take(wanted.len() as int) == wanted);
        }
        Ok(times)
    }
}

} // verus!
