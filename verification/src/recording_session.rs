//! A recorded session: its songs, the instants at which they changed, and
//! the files that belong to it.

use crate::consts;
use crate::recording::dbus_event::{DbusEvent, TimedDbusEvent, Timestamp};
use crate::song::Song;
use crate::text::{join_path, joined};
use vstd::prelude::*;

verus! {

/// The songs of a session in the order in which they played, and the
/// instants at which the player reported a change.
#[derive(Debug)]
pub struct RecordingSession {
    pub songs: Vec<Song>,
    pub timestamps: Vec<Timestamp>,
}

/// The songs that `events` announce, in order.
pub open spec fn songs_of(events: Seq<TimedDbusEvent>) -> Seq<Song>
    decreases events.len(),
{
    if events.len() == 0 {
        Seq::empty()
    } else {
        match events.last().event {
            DbusEvent::NewSong(song) => songs_of(events.drop_last()).push(song),
            _ => songs_of(events.drop_last()),
        }
    }
}

/// The instants of those of `events` that mark a change: a new song whose
/// tags could be read, or a change of the playback status.
pub open spec fn timestamps_of(events: Seq<TimedDbusEvent>) -> Seq<Timestamp>
    decreases events.len(),
{
    if events.len() == 0 {
        Seq::empty()
    } else {
        match events.last().event {
            DbusEvent::NewInvalidSong => timestamps_of(events.drop_last()),
            _ => timestamps_of(events.drop_last()).push(events.last().timestamp),
        }
    }
}

/// There is never a song without the instant at which it began.
pub proof fn lemma_songs_have_timestamps(events: Seq<TimedDbusEvent>)
    ensures
        songs_of(events).len() <= timestamps_of(events).len(),
    decreases events.len(),
{
    if events.len() > 0 {
        lemma_songs_have_timestamps(events.drop_last());
    }
}

impl Clone for RecordingSession {
    fn clone(&self) -> (copy: RecordingSession)
        ensures
            copy.songs@ == self.songs@,
            copy.timestamps@ == self.timestamps@,
    {
        let mut songs: Vec<Song> = Vec::new();
        let mut i: usize = 0;
        while i < self.songs.len()
            invariant
                i <= self.songs.len(),
                songs@ == self.songs@.take(i as int),
            decreases self.songs.len() - i,
        {
            songs.push(self.songs[i].clone());
            assert(songs@ =~= self.songs@.take(i + 1));
            i = i + 1;
        }
        let mut timestamps: Vec<Timestamp> = Vec::new();
        let mut j: usize = 0;
        while j < self.timestamps.len()
            invariant
                j <= self.timestamps.len(),
                songs@ == self.songs@.take(self.songs@.len() as int),
                timestamps@ == self.timestamps@.take(j as int),
            decreases self.timestamps.len() - j,
        {
            timestamps.push(self.timestamps[j]);
            assert(timestamps@ =~= self.timestamps@.take(j + 1));
            j = j + 1;
        }
        assert(self.songs@.take(self.songs@.len() as int) == self.songs@);
        assert(self.timestamps@.take(self.timestamps@.len() as int) == self.timestamps@);
        RecordingSession { songs, timestamps }
    }
}

impl RecordingSession {
    /// N songs lie between N + 1 instants.
    pub open spec fn is_bracketed(&self) -> bool {
        self.timestamps.len() == self.songs.len() + 1
    }

    /// The session that `events` tell of: every song that was announced
    /// with tags that could be read, and the instant of every new song of
    /// that kind and of every change of the playback status. A song whose
    /// tags could not be read leaves no trace.
    pub fn from_events(events: &[TimedDbusEvent]) -> (session: RecordingSession)
        ensures
            session.songs@ == songs_of(events@),
            session.timestamps@ == timestamps_of(events@),
            session.songs.len() <= session.timestamps.len(),
    {
        let mut songs: Vec<Song> = Vec::new();
        let mut timestamps: Vec<Timestamp> = Vec::new();
        let mut i: usize = 0;
        while i < events.len()
            invariant
                i <= events.len(),
                songs@ == songs_of(events@.take(i as int)),
                timestamps@ == timestamps_of(events@.take(i as int)),
            decreases events.len() - i,
        {
            proof {
                assert(events@.take(i + 1).drop_last() == events@.take(i as int));
            }
            match &events[i].event {
                DbusEvent::NewSong(song) => {
                    songs.push(song.clone());
                    timestamps.push(events[i].timestamp);
                },
                DbusEvent::NewInvalidSong => {},
                DbusEvent::StatusChanged(_) => {
                    timestamps.push(events[i].timestamp);
                },
            }
            i = i + 1;
        }
        proof {
            assert(events@.take(events.len() as int) == events@);
            lemma_songs_have_timestamps(events@);
        }
        RecordingSession { songs, timestamps }
    }
}

/// The directory of one session.
#[derive(Debug)]
pub struct SessionPath(pub String);

impl Clone for SessionPath {
    fn clone(&self) -> (copy: SessionPath)
        ensures
            copy == *self,
    {
        SessionPath(self.0.clone())
    }
}

impl SessionPath {
    /// The file that holds the songs and instants of the session.
    pub fn get_yaml_file(&self) -> (file: String)
        ensures
            file@ == joined(self.0@, consts::DEFAULT_SESSION_FILE@),
    {
        join_path(self.0.as_str(), consts::DEFAULT_SESSION_FILE)
    }

    /// The file that holds the recording.
    pub fn get_buffer_file(&self) -> (file: String)
        ensures
            file@ == joined(self.0@, consts::DEFAULT_BUFFER_FILE@),
    {
        join_path(self.0.as_str(), consts::DEFAULT_BUFFER_FILE)
    }

    /// The directory that the songs are cut into.
    pub fn get_music_dir(&self) -> (dir: String)
        ensures
            dir@ == joined(self.0@, consts::DEFAULT_MUSIC_DIR@),
    {
        join_path(self.0.as_str(), consts::DEFAULT_MUSIC_DIR)
    }
}

/// A session together with the directory that it lives in.
#[derive(Debug)]
pub struct RecordingSessionWithPath {
    pub session: RecordingSession,
    pub path: SessionPath,
}

impl Clone for RecordingSessionWithPath {
    fn clone(&self) -> (copy: RecordingSessionWithPath)
        ensures
            copy.session.songs@ == self.session.songs@,
            copy.session.timestamps@ == self.session.timestamps@,
            copy.path == self.path,
    {
        RecordingSessionWithPath { session: self.session.clone(), path: self.path.clone() }
    }
}

/// A name of one file or directory: it holds no `/`.
pub open spec fn is_plain_name(name: Seq<char>) -> bool {
    forall|i: int| 0 <= i < name.len() ==> name[i] != '/'
}

/// Calls `Local::now` and `DateTime::format` of chrono: the date and the
/// time of day of this moment in the time zone of the machine, written as
/// year, month, day, hour, minute and second with a `-` between them.
/// Which text that is depends on the clock; all that is claimed of it is
/// that it holds no `/`, since the format asks for numbers and `-` only.
/// On a machine whose clock stands before the year 1970, or whose time
/// zone cannot be applied, chrono does not return at all.
#[verifier::external_body]
fn now_text() -> (text: String)
    ensures
        is_plain_name(text@),
{
    chrono::Local::now().format("%Y-%m-%d-%H-%M-%S").to_string()
}

/// The directory `dir` lies in `output_dir`, one level down: it is
/// `output_dir`, a `/` unless `output_dir` is empty or ends with one, and
/// then a name without a `/`.
pub open spec fn lies_in(dir: Seq<char>, output_dir: Seq<char>) -> bool {
    exists|name: Seq<char>|
        is_plain_name(name) && (#[trigger] joined(output_dir, name)) == dir && dir.len()
            >= output_dir.len() && dir.take(output_dir.len() as int) == output_dir
}

/// A directory for a session that begins now: it lies in `output_dir` and
/// is named after this moment.
pub fn get_new_name(output_dir: &str) -> (dir: String)
    ensures
        lies_in(dir@, output_dir@),
{
    let date_string: String = now_text();
    let dir: String = join_path(output_dir, date_string.as_str());
    proof {
        let name = date_string@;
        if name.len() > 0 {
            assert(name[0] != '/');
        }
        assert(joined(output_dir@, name).take(output_dir@.len() as int) =~= output_dir@);
    }
    dir
}

} // verus!
