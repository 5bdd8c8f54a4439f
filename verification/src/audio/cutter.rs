//! From a recorded session to the songs that are cut out of it: which part
//! of the session has audio at all, which cuts to make, and in what order
//! to run them.

use super::cut::{cut_of, CutInfo};
use super::cutting_strategy::{CuttingStrategy, NoSilenceCandidateError};
use super::sample_reader::{get_volume_at, volume_at, SampleReader};
use super::time::{micros_to_time, time_of_micros, AudioTime, StreamSpec};
use crate::recording::dbus_event::Timestamp;
use crate::recording_session::{RecordingSession, RecordingSessionWithPath};
use crate::song::Song;
use vstd::multiset::Multiset;
use vstd::prelude::*;
use vstd::seq_lib::{to_multiset_build, to_multiset_remove};

verus! {

/// How many cuts run at the same time unless the caller says otherwise.
pub const MAX_NUM_PROCESSES: usize = 10;

/// The recording has audio at no instant of the session, or at the first
/// one only, so that not one song lies between two instants with audio.
#[derive(Clone, Copy, Debug, PartialEq, Eq, Structural)]
pub struct NoValidDataError {
    /// How many instants have audio: none or one.
    pub valid_timestamps: usize,
}

/// Why a session cannot be cut.
#[derive(Clone, Copy, Debug, PartialEq, Eq, Structural)]
pub enum CutError {
    /// Most likely a faulty recording: there is nothing to cut.
    NoValidData(NoValidDataError),
    /// The cuts cannot be moved into silence; they need a correction by hand.
    NoSilenceCandidate,
    /// What is left of the session does not hold one instant more than it
    /// holds songs.
    UnmatchedTimestamps,
}

/// The recording has audio around the instant `timestamp`.
pub open spec fn has_audio_at(stream: Seq<i16>, spec: StreamSpec, timestamp: Timestamp) -> bool {
    volume_at(
        stream,
        spec,
        AudioTime::at_time(micros_to_time(timestamp.micros()), spec),
    ) is Some
}

/// How many of `timestamps`, counted from the first on, have audio before
/// the first one that has none.
pub open spec fn valid_prefix_len(stream: Seq<i16>, spec: StreamSpec, timestamps: Seq<Timestamp>) -> nat
    decreases timestamps.len(),
{
    if timestamps.len() == 0 || !has_audio_at(stream, spec, timestamps[0]) {
        0
    } else {
        1 + valid_prefix_len(stream, spec, timestamps.drop_first())
    }
}

/// The valid instants are the first ones: each of them has audio, and the
/// one after them, if there is one, has none.
pub proof fn lemma_valid_prefix(stream: Seq<i16>, spec: StreamSpec, timestamps: Seq<Timestamp>)
    ensures
        valid_prefix_len(stream, spec, timestamps) <= timestamps.len(),
        forall|i: int|
            0 <= i < valid_prefix_len(stream, spec, timestamps) ==> has_audio_at(
                stream,
                spec,
                #[trigger] timestamps[i],
            ),
        valid_prefix_len(stream, spec, timestamps) < timestamps.len() ==> !has_audio_at(
            stream,
            spec,
            timestamps[valid_prefix_len(stream, spec, timestamps) as int],
        ),
    decreases timestamps.len(),
{
    if timestamps.len() > 0 && has_audio_at(stream, spec, timestamps[0]) {
        let rest = timestamps.drop_first();
        lemma_valid_prefix(stream, spec, rest);
        assert forall|i: int|
            0 <= i < valid_prefix_len(stream, spec, timestamps) implies has_audio_at(
            stream,
            spec,
            #[trigger] timestamps[i],
        ) by {
            if i > 0 {
                assert(timestamps[i] == rest[i - 1]);
            }
        }
        if valid_prefix_len(stream, spec, timestamps) < timestamps.len() {
            assert(timestamps[valid_prefix_len(stream, spec, timestamps) as int]
                == rest[valid_prefix_len(stream, spec, rest) as int]);
        }
    }
}

/// Where instant `k` has no audio and all before it have, `k` instants are valid.
pub proof fn lemma_valid_prefix_is(
    stream: Seq<i16>,
    spec: StreamSpec,
    timestamps: Seq<Timestamp>,
    k: nat,
)
    requires
        k <= timestamps.len(),
        forall|i: int| 0 <= i < k ==> has_audio_at(stream, spec, #[trigger] timestamps[i]),
        k < timestamps.len() ==> !has_audio_at(stream, spec, timestamps[k as int]),
    ensures
        valid_prefix_len(stream, spec, timestamps) == k,
    decreases timestamps.len(),
{
    if k > 0 {
        let rest = timestamps.drop_first();
        assert forall|i: int| 0 <= i < k - 1 implies has_audio_at(
            stream,
            spec,
            #[trigger] rest[i],
        ) by {
            assert(rest[i] == timestamps[i + 1]);
        }
        lemma_valid_prefix_is(stream, spec, rest, (k - 1) as nat);
    }
}

/// Counts the instants of a session that the recording has audio for, up
/// to the first one that it has none for.
pub fn count_valid_timestamps<R: SampleReader>(reader: &mut R, timestamps: &[Timestamp]) -> (count:
    usize)
    ensures
        final(reader).stream() == old(reader).stream(),
        final(reader).stream_spec() == old(reader).stream_spec(),
        count == valid_prefix_len(old(reader).stream(), old(reader).stream_spec(), timestamps@),
{
    let ghost stream = reader.stream();
    let spec: StreamSpec = reader.spec();
    let mut i: usize = 0;
    while i < timestamps.len()
        invariant
            i <= timestamps.len(),
            stream == old(reader).stream(),
            spec == old(reader).stream_spec(),
            reader.stream() == stream,
            reader.stream_spec() == spec,
            forall|k: int| 0 <= k < i ==> has_audio_at(stream, spec, #[trigger] timestamps@[k]),
        decreases timestamps.len() - i,
    {
        let time: AudioTime = AudioTime::from_time_and_spec(
            time_of_micros(timestamps[i].in_micros()),
            spec,
        );
        if get_volume_at(reader, time).is_err() {
            proof {
                lemma_valid_prefix_is(stream, spec, timestamps@, i as nat);
            }
            return i;
        }
        i = i + 1;
    }
    proof {
        lemma_valid_prefix_is(stream, spec, timestamps@, i as nat);
    }
    i
}

/// Cuts off the end of a session that the recording has no audio for, as
/// when the recording was interrupted. With `k` valid instants, the first
/// `k` instants stay, and the first `k - 1` songs, since instant `k` ends
/// song `k - 1`; the songs that go are handed back. With fewer than two
/// valid instants no song has audio from its beginning to its end: that is
/// an error, and the session stays as it is.
pub fn filter_invalid_songs<R: SampleReader>(reader: &mut R, session: &mut RecordingSession) -> (result:
    Result<Vec<Song>, NoValidDataError>)
    ensures
        final(reader).stream() == old(reader).stream(),
        final(reader).stream_spec() == old(reader).stream_spec(),
        ({
            let k = valid_prefix_len(
                old(reader).stream(),
                old(reader).stream_spec(),
                old(session).timestamps@,
            );
            let kept = if k - 1 <= old(session).songs@.len() {
                k - 1
            } else {
                old(session).songs@.len() as int
            };
            &&& k < 2 ==> result == Err::<Vec<Song>, NoValidDataError>(
                NoValidDataError { valid_timestamps: k as usize },
            ) && *final(session) == *old(session)
            &&& k >= 2 ==> {
                &&& result is Ok
                &&& final(session).timestamps@ == old(session).timestamps@.take(k as int)
                &&& final(session).timestamps@.len() == k
                &&& final(session).songs@ == old(session).songs@.take(kept)
                &&& final(session).songs@.len() == kept
                &&& result->Ok_0@ == old(session).songs@.skip(kept)
            }
            &&& k >= 2 && k <= old(session).songs@.len() + 1 ==> {
                &&& final(session).songs@.len() == k - 1
                &&& final(session).is_bracketed()
            }
        }),
{
    let valid: usize = count_valid_timestamps(reader, session.timestamps.as_slice());
    proof {
        lemma_valid_prefix(reader.stream(), reader.stream_spec(), session.timestamps@);
    }
    if valid < 2 {
        return Err(NoValidDataError { valid_timestamps: valid });
    }
    let kept: usize = if valid - 1 <= session.songs.len() {
        valid - 1
    } else {
        session.songs.len()
    };
    let drained_songs: Vec<Song> = session.songs.split_off(kept);
    session.timestamps.truncate(valid);
    proof {
        assert(session.songs@ =~= old(session).songs@.take(kept as int));
        assert(session.timestamps@ =~= old(session).timestamps@.take(valid as int));
        assert(drained_songs@ =~= old(session).songs@.skip(kept as int));
    }
    Ok(drained_songs)
}

/// What is left of a session after its end without audio is cut off has
/// audio at every instant: cutting it off once more changes nothing.
pub proof fn lemma_valid_prefix_is_stable(
    stream: Seq<i16>,
    spec: StreamSpec,
    timestamps: Seq<Timestamp>,
)
    ensures
        valid_prefix_len(
            stream,
            spec,
            timestamps.take(valid_prefix_len(stream, spec, timestamps) as int),
        ) == valid_prefix_len(stream, spec, timestamps),
{
    lemma_valid_prefix(stream, spec, timestamps);
    let k = valid_prefix_len(stream, spec, timestamps);
    lemma_valid_prefix_is(stream, spec, timestamps.take(k as int), k);
}

/// The cuts of `songs` in the session that lives in `path`: song `i` from
/// time `i` to time `i + 1`.
pub open spec fn planned_cuts(path: Seq<char>, songs: Seq<Song>, times: Seq<AudioTime>) -> Seq<
    super::cut::CutInfoView,
> {
    Seq::new(songs.len(), |i: int| cut_of(path, songs[i]@, times[i], times[i + 1]))
}

/// What a list of cuts says, one plain value for each.
pub open spec fn cut_views(cuts: Seq<CutInfo>) -> Seq<super::cut::CutInfoView> {
    cuts.map_values(|cut: CutInfo| cut@)
}

/// Pairs each song with the time at which it begins and the time at which
/// the next one begins.
pub fn plan_cuts(session: &RecordingSessionWithPath, timestamps: &[AudioTime]) -> (cuts: Vec<CutInfo>)
    requires
        timestamps@.len() == session.session.songs@.len() + 1,
    ensures
        cut_views(cuts@) == planned_cuts(session.path.0@, session.session.songs@, timestamps@),
        cuts@.len() == session.session.songs@.len(),
{
    let ghost wanted = planned_cuts(session.path.0@, session.session.songs@, timestamps@);
    let mut cuts: Vec<CutInfo> = Vec::new();
    let mut i: usize = 0;
    while i < session.session.songs.len()
        invariant
            i <= session.session.songs.len(),
            timestamps@.len() == session.session.songs@.len() + 1,
            wanted == planned_cuts(session.path.0@, session.session.songs@, timestamps@),
            cut_views(cuts@) == wanted.take(i as int),
            cuts@.len() == i,
        decreases session.session.songs.len() - i,
    {
        cuts.push(
            CutInfo::new(session, &session.session.songs[i], timestamps[i], timestamps[i + 1]),
        );
        proof {
            assert(cut_views(cuts@) =~= wanted.take(i + 1));
        }
        i = i + 1;
    }
    proof {
        assert(wanted.take(wanted.len() as int) == wanted);
    }
    cuts
}

/// Plans the cuts of a session: cuts off the end of the session that the
/// recording has no audio for, asks `strategy` for the cut times of what is
/// left, and pairs each song that is left with its two times.
pub fn get_cuts<R: SampleReader, S: CuttingStrategy>(
    session: &mut RecordingSessionWithPath,
    reader: &mut R,
    strategy: &S,
) -> (result: Result<Vec<CutInfo>, CutError>)
    ensures
        final(reader).stream() == old(reader).stream(),
        final(reader).stream_spec() == old(reader).stream_spec(),
        final(session).path == old(session).path,
        ({
            let stream = old(reader).stream();
            let spec = old(reader).stream_spec();
            let k = valid_prefix_len(stream, spec, old(session).session.timestamps@);
            let left = final(session).session;
            if k < 2 {
                &&& result == Err::<Vec<CutInfo>, CutError>(
                    CutError::NoValidData(NoValidDataError { valid_timestamps: k as usize }),
                )
                &&& left == old(session).session
            } else {
                &&& left.timestamps@ == old(session).session.timestamps@.take(k as int)
                &&& left.songs@ == old(session).session.songs@.take(left.songs@.len() as int)
                &&& if k > old(session).session.songs@.len() + 1 {
                    &&& left.songs@ == old(session).session.songs@
                    &&& result == Err::<Vec<CutInfo>, CutError>(CutError::UnmatchedTimestamps)
                } else {
                    &&& left.songs@.len() == k - 1
                    &&& match strategy.cut_times(stream, spec, left) {
                        None => result == Err::<Vec<CutInfo>, CutError>(
                            CutError::NoSilenceCandidate,
                        ),
                        Some(times) => {
                            &&& result is Ok
                            &&& result->Ok_0@.len() == k - 1
                            &&& cut_views(result->Ok_0@) == planned_cuts(
                                old(session).path.0@,
                                left.songs@,
                                times,
                            )
                        },
                    }
                }
            }
        }),
{
    match filter_invalid_songs(reader, &mut session.session) {
        Err(e) => {
            return Err(CutError::NoValidData(e));
        },
        Ok(_) => {},
    }
    if session.session.timestamps.len() - 1 != session.session.songs.len() {
        return Err(CutError::UnmatchedTimestamps);
    }
    let timestamps: Vec<AudioTime> = match strategy.get_timestamps(reader, &session.session) {
        Ok(timestamps) => timestamps,
        Err(_) => {
            return Err(CutError::NoSilenceCandidate);
        },
    };
    Ok(plan_cuts(session, timestamps.as_slice()))
}

/// What a look at one running cut finds.
#[derive(Clone, Copy, Debug, PartialEq, Eq, Structural)]
pub enum ProcessStatus {
    /// The process has not ended yet.
    Running,
    /// The process has ended and reports success.
    Succeeded,
    /// The process has ended and reports failure.
    Failed,
}

/// The process of a cut has failed. No further cut is started after that.
#[derive(Debug)]
pub struct ExternalProcessError {
    /// The cut whose process failed.
    pub cut: CutInfo,
}

/// Those of the first `n` of `jobs` whose status is `wanted`, in order.
pub open spec fn jobs_with_status(
    jobs: Seq<CutInfo>,
    statuses: Seq<ProcessStatus>,
    wanted: ProcessStatus,
    n: nat,
) -> Seq<CutInfo>
    decreases n,
{
    if n == 0 {
        Seq::empty()
    } else if statuses[n - 1] == wanted {
        jobs_with_status(jobs, statuses, wanted, (n - 1) as nat).push(jobs[n - 1])
    } else {
        jobs_with_status(jobs, statuses, wanted, (n - 1) as nat)
    }
}

/// Picking some of `n` jobs gives no more than `n`.
pub proof fn lemma_jobs_with_status_len(
    jobs: Seq<CutInfo>,
    statuses: Seq<ProcessStatus>,
    wanted: ProcessStatus,
    n: nat,
)
    ensures
        jobs_with_status(jobs, statuses, wanted, n).len() <= n,
    decreases n,
{
    if n > 0 {
        lemma_jobs_with_status_len(jobs, statuses, wanted, (n - 1) as nat);
    }
}

/// A look that finds no failure loses no job and doubles none: each of the
/// first `n` jobs is among those that have succeeded or among those that
/// still run, as often as it was among the `n`.
pub proof fn lemma_poll_keeps_every_job(
    jobs: Seq<CutInfo>,
    statuses: Seq<ProcessStatus>,
    n: nat,
)
    requires
        n <= jobs.len(),
        n <= statuses.len(),
        forall|j: int| 0 <= j < n ==> statuses[j] != ProcessStatus::Failed,
    ensures
        jobs_with_status(jobs, statuses, ProcessStatus::Succeeded, n).to_multiset().add(
            jobs_with_status(jobs, statuses, ProcessStatus::Running, n).to_multiset(),
        ) == jobs.take(n as int).to_multiset(),
    decreases n,
{
    if n == 0 {
        broadcast use vstd::multiset::group_multiset_axioms;

        let none = Seq::<CutInfo>::empty();
        assert(jobs.take(0) =~= none);
        vstd::seq_lib::to_multiset_len(none);
        vstd::multiset::lemma_multiset_empty_len(none.to_multiset());
        assert(none.to_multiset() =~= Multiset::<CutInfo>::empty());
        assert(none.to_multiset().add(none.to_multiset()) =~= none.to_multiset());
    } else {
        let before = (n - 1) as nat;
        lemma_poll_keeps_every_job(jobs, statuses, before);
        let done = jobs_with_status(jobs, statuses, ProcessStatus::Succeeded, before);
        let going = jobs_with_status(jobs, statuses, ProcessStatus::Running, before);
        let job = jobs[n - 1];
        assert(jobs.take(n as int) =~= jobs.take(before as int).push(job));
        to_multiset_build(jobs.take(before as int), job);
        to_multiset_build(done, job);
        to_multiset_build(going, job);
        if statuses[n - 1] == ProcessStatus::Succeeded {
            assert(done.push(job).to_multiset().add(going.to_multiset()) =~= done.to_multiset().add(
                going.to_multiset(),
            ).insert(job));
        } else {
            assert(done.to_multiset().add(going.push(job).to_multiset()) =~= done.to_multiset().add(
                going.to_multiset(),
            ).insert(job));
        }
    }
}

/// `i` is the first of `statuses` that is a failure.
pub open spec fn is_first_failure(statuses: Seq<ProcessStatus>, i: int) -> bool {
    &&& 0 <= i < statuses.len()
    &&& statuses[i] == ProcessStatus::Failed
    &&& forall|j: int| 0 <= j < i ==> statuses[j] != ProcessStatus::Failed
}

/// Runs the cuts of a session, a few at a time. The cutter decides which
/// cut to start and which cuts are done; its caller starts the processes
/// and looks at them. There are never more cuts running than may run at
/// the same time. No step loses a cut or doubles one: as long as no
/// process fails, every cut that the cutter was made with is waiting,
/// running or handed back as done, and only one of the three. So when the
/// cutter is finished and nothing has failed, every cut has been started
/// once and handed back once.
pub struct Cutter {
    cuts: Vec<CutInfo>,
    started: usize,
    handles: Vec<CutInfo>,
    max_num_processes: usize,
    failed: bool,
}

/// A copy of `jobs`.
fn clone_jobs(jobs: &Vec<CutInfo>) -> (copy: Vec<CutInfo>)
    ensures
        copy@ == jobs@,
{
    let mut copy: Vec<CutInfo> = Vec::new();
    let mut i: usize = 0;
    while i < jobs.len()
        invariant
            i <= jobs.len(),
            copy@ == jobs@.take(i as int),
        decreases jobs.len() - i,
    {
        copy.push(jobs[i].clone());
        assert(copy@ =~= jobs@.take(i + 1));
        i = i + 1;
    }
    assert(jobs@.take(jobs@.len() as int) == jobs@);
    copy
}

impl Cutter {
    #[verifier::type_invariant]
    spec fn within_limit(self) -> bool {
        self.handles@.len() <= self.max_num_processes && self.started <= self.cuts@.len()
    }

    /// The cuts that have not been started, in the order in which they are to start.
    pub closed spec fn pending(&self) -> Seq<CutInfo> {
        self.cuts@.skip(self.started as int)
    }

    /// The cuts that have been started and are not known to have ended, in
    /// the order in which they were started.
    pub closed spec fn running(&self) -> Seq<CutInfo> {
        self.handles@
    }

    /// How many cuts may run at the same time.
    pub closed spec fn limit(&self) -> usize {
        self.max_num_processes
    }

    /// A process has failed, or could not be started.
    pub closed spec fn has_failed(&self) -> bool {
        self.failed
    }

    /// A cutter that has `cuts` to run, at most `max_num_processes` of
    /// them at the same time.
    pub fn new(cuts: Vec<CutInfo>, max_num_processes: usize) -> (cutter: Cutter)
        ensures
            cutter.pending() == cuts@,
            cutter.running() == Seq::<CutInfo>::empty(),
            cutter.limit() == max_num_processes,
            !cutter.has_failed(),
    {
        assert(cuts@.skip(0) =~= cuts@);
        Cutter { cuts, started: 0, handles: Vec::new(), max_num_processes, failed: false }
    }

    /// How many cuts are running: never more than may run at the same time.
    pub fn num_running(&self) -> (n: usize)
        ensures
            n == self.running().len(),
            n <= self.limit(),
    {
        proof {
            use_type_invariant(self);
        }
        self.handles.len()
    }

    /// How many cuts wait to be started.
    pub fn num_pending(&self) -> (n: usize)
        ensures
            n == self.pending().len(),
    {
        proof {
            use_type_invariant(self);
        }
        self.cuts.len() - self.started
    }

    /// There is nothing left to do: no cut waits and none runs, or a
    /// process has failed.
    pub fn is_finished(&self) -> (finished: bool)
        ensures
            finished == (self.has_failed() || (self.pending().len() == 0 && self.running().len()
                == 0)),
    {
        proof {
            use_type_invariant(self);
        }
        self.failed || (self.started == self.cuts.len() && self.handles.len() == 0)
    }

    fn pop_front(&mut self) -> (front: Option<CutInfo>)
        ensures
            final(self).running() == old(self).running(),
            final(self).limit() == old(self).limit(),
            final(self).has_failed() == old(self).has_failed(),
            old(self).pending().len() == 0 ==> front is None && final(self).pending() == old(self).pending(),
            old(self).pending().len() > 0 ==> front == Some(old(self).pending()[0]) && final(self).pending() == old(self).pending().drop_first(),
    {
        proof {
            use_type_invariant(&*self);
        }
        if self.started == self.cuts.len() {
            None
        } else {
            let front: CutInfo = self.cuts[self.started].clone();
            self.started = self.started + 1;
            assert(self.cuts@.skip(self.started as int) =~= old(self).cuts@.skip(
                old(self).started as int,
            ).drop_first());
            Some(front)
        }
    }

    /// A cut may be started now: no process has failed, fewer cuts run
    /// than may, and a cut waits.
    pub open spec fn can_start(&self) -> bool {
        !self.has_failed() && self.running().len() < self.limit() && self.pending().len() > 0
    }

    /// The next cut to start, if one may be started now: the one that has
    /// waited longest. It counts as running from now on, and the caller
    /// has to start its process. After a failure no cut is ever started.
    pub fn start_next(&mut self) -> (next: Option<CutInfo>)
        ensures
            final(self).limit() == old(self).limit(),
            final(self).has_failed() == old(self).has_failed(),
            final(self).running().len() <= final(self).limit(),
            final(self).pending().to_multiset().add(final(self).running().to_multiset()) == old(self).pending().to_multiset().add(old(self).running().to_multiset()),
            old(self).can_start() ==> {
                &&& next == Some(old(self).pending()[0])
                &&& final(self).pending() == old(self).pending().drop_first()
                &&& final(self).running() == old(self).running().push(old(self).pending()[0])
            },
            !old(self).can_start() ==> {
                &&& next is None
                &&& final(self).pending() == old(self).pending()
                &&& final(self).running() == old(self).running()
            },
    {
        proof {
            use_type_invariant(&*self);
        }
        if self.failed || self.handles.len() >= self.max_num_processes {
            return None;
        }
        match self.pop_front() {
            None => None,
            Some(cut) => {
                proof {
                    use_type_invariant(&*self);
                    let waiting = old(self).pending();
                    let going = old(self).running();
                    assert(waiting.drop_first() =~= waiting.remove(0));
                    to_multiset_remove(waiting, 0);
                    to_multiset_build(going, waiting[0]);
                    assert(waiting.to_multiset().count(waiting[0]) > 0) by {
                        vstd::seq_lib::to_multiset_contains(waiting, waiting[0]);
                        assert(waiting.contains(waiting[0]));
                    }
                    assert(waiting.to_multiset().remove(waiting[0]).add(
                        going.to_multiset().insert(waiting[0]),
                    ) =~= waiting.to_multiset().add(going.to_multiset()));
                }
                let mut handles: Vec<CutInfo> = clone_jobs(&self.handles);
                handles.push(cut.clone());
                self.handles = handles;
                Some(cut)
            },
        }
    }

    /// Takes note that the process of the cut that was started last could
    /// not be started, or that the cuts are given up for another reason.
    /// No cut is started after that.
    pub fn abort(&mut self)
        ensures
            final(self).has_failed(),
            final(self).pending() == old(self).pending(),
            final(self).running() == old(self).running(),
            final(self).limit() == old(self).limit(),
            final(self).running().len() <= final(self).limit(),
    {
        proof {
            use_type_invariant(&*self);
        }
        self.failed = true;
    }

    /// Takes note of what a look at every running cut found: `statuses`
    /// holds one status for each running cut, in the order in which the
    /// cuts were started. Where a process has failed, that is an error
    /// that names the first such cut, and nothing else changes; no cut is
    /// started after that. Otherwise the cuts that have succeeded stop
    /// running and are handed back, and the others keep running.
    pub fn record_poll(&mut self, statuses: &[ProcessStatus]) -> (result: Result<
        Vec<CutInfo>,
        ExternalProcessError,
    >)
        requires
            statuses@.len() == old(self).running().len(),
        ensures
            final(self).limit() == old(self).limit(),
            final(self).pending() == old(self).pending(),
            final(self).running().len() <= final(self).limit(),
            old(self).has_failed() ==> final(self).has_failed(),
            result is Err <==> exists|i: int| is_first_failure(statuses@, i),
            result is Err ==> {
                &&& final(self).has_failed()
                &&& final(self).running() == old(self).running()
                &&& exists|i: int|
                    is_first_failure(statuses@, i) && result->Err_0.cut == old(self).running()[i]
            },
            result is Ok ==> {
                &&& final(self).has_failed() == old(self).has_failed()
                &&& result->Ok_0@ == jobs_with_status(
                    old(self).running(),
                    statuses@,
                    ProcessStatus::Succeeded,
                    statuses@.len(),
                )
                &&& final(self).running() == jobs_with_status(
                    old(self).running(),
                    statuses@,
                    ProcessStatus::Running,
                    statuses@.len(),
                )
                &&& result->Ok_0@.to_multiset().add(final(self).running().to_multiset()) == old(self).running().to_multiset()
            },
    {
        proof {
            use_type_invariant(&*self);
        }
        let mut finished: Vec<CutInfo> = Vec::new();
        let mut still_running: Vec<CutInfo> = Vec::new();
        let mut i: usize = 0;
        while i < statuses.len()
            invariant
                i <= statuses.len(),
                statuses@.len() == self.handles@.len(),
                self.handles@ == old(self).handles@,
                self.cuts@ == old(self).cuts@,
                self.started == old(self).started,
                self.started <= self.cuts@.len(),
                self.max_num_processes == old(self).max_num_processes,
                self.failed == old(self).failed,
                self.handles@.len() <= self.max_num_processes,
                forall|j: int| 0 <= j < i ==> statuses@[j] != ProcessStatus::Failed,
                finished@ == jobs_with_status(
                    self.handles@,
                    statuses@,
                    ProcessStatus::Succeeded,
                    i as nat,
                ),
                still_running@ == jobs_with_status(
                    self.handles@,
                    statuses@,
                    ProcessStatus::Running,
                    i as nat,
                ),
            decreases statuses.len() - i,
        {
            match statuses[i] {
                ProcessStatus::Failed => {
                    let cut: CutInfo = self.handles[i].clone();
                    self.failed = true;
                    assert(is_first_failure(statuses@, i as int));
                    return Err(ExternalProcessError { cut });
                },
                ProcessStatus::Succeeded => {
                    finished.push(self.handles[i].clone());
                },
                ProcessStatus::Running => {
                    still_running.push(self.handles[i].clone());
                },
            }
            i = i + 1;
        }
        proof {
            lemma_jobs_with_status_len(
                self.handles@,
                statuses@,
                ProcessStatus::Running,
                statuses@.len(),
            );
            lemma_poll_keeps_every_job(self.handles@, statuses@, statuses@.len());
            assert(self.handles@.take(statuses@.len() as int) =~= self.handles@);
        }
        self.handles = still_running;
        Ok(finished)
    }
}

} // verus!
