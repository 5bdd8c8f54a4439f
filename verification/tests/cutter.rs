use striputary::audio::cut::{get_cut_command, Cut, CutInfo};
use striputary::audio::cutter::{
    count_valid_timestamps, filter_invalid_songs, get_cuts, plan_cuts, CutError, Cutter,
    NoValidDataError, ProcessStatus, MAX_NUM_PROCESSES,
};
use striputary::audio::{
    AudioTime, Buffer, DbusLengthsStrategy, DbusStrategy, SilenceOptimizer, StreamSpec,
};
use striputary::recording::Timestamp;
use striputary::recording_session::{RecordingSession, RecordingSessionWithPath, SessionPath};
use striputary::song::Song;

const MONO: StreamSpec = StreamSpec {
    channels: 1,
    sample_rate: 1000,
};

/// The position at `micros` microseconds.
fn at(micros: i64) -> AudioTime {
    AudioTime::from_time_and_spec(micros as i128 * 1_000_000, MONO)
}

fn song(title: &str, length: i64) -> Song {
    Song {
        title: Some(title.into()),
        album: None,
        artist: None,
        track_number: None,
        length,
    }
}

fn stamp(seconds: u64) -> Timestamp {
    Timestamp {
        time_since_start_micros: seconds * 1_000_000,
    }
}

/// Four songs of ten seconds each, the first from second 5 on.
fn four_songs() -> RecordingSession {
    RecordingSession {
        songs: vec![
            song("one", 10_000_000),
            song("two", 10_000_000),
            song("three", 10_000_000),
            song("four", 10_000_000),
        ],
        timestamps: vec![stamp(5), stamp(15), stamp(25), stamp(35), stamp(45)],
    }
}

/// A silent recording of `seconds` seconds.
fn recording(seconds: usize) -> Buffer {
    Buffer::new(MONO, vec![0; seconds * 1000])
}

fn titles(songs: &[Song]) -> Vec<String> {
    songs.iter().map(|s| s.title.clone().unwrap()).collect()
}

fn job(title: &str) -> CutInfo {
    CutInfo {
        buffer_file: "session/buffer.wav".into(),
        music_dir: "session/cut".into(),
        cut: Cut {
            start_time: 0,
            end_time: 1_000_000_000_000,
            song: song(title, 1_000_000),
        },
    }
}

fn job_titles(jobs: &[CutInfo]) -> Vec<String> {
    jobs.iter().map(|j| j.cut.song.title.clone().unwrap()).collect()
}

#[test]
fn counts_the_timestamps_with_audio() {
    let session = four_songs();
    assert_eq!(count_valid_timestamps(&mut recording(60), &session.timestamps), 5);
    assert_eq!(count_valid_timestamps(&mut recording(47), &session.timestamps), 5);
    assert_eq!(count_valid_timestamps(&mut recording(46), &session.timestamps), 4);
    assert_eq!(count_valid_timestamps(&mut recording(30), &session.timestamps), 3);
    assert_eq!(count_valid_timestamps(&mut recording(10), &session.timestamps), 1);
    assert_eq!(count_valid_timestamps(&mut recording(6), &session.timestamps), 0);
    assert_eq!(count_valid_timestamps(&mut recording(60), &[]), 0);
}

#[test]
fn counting_stops_at_the_first_timestamp_without_audio() {
    // the second instant lies beyond the recording, the third inside it
    let timestamps = vec![stamp(5), stamp(500), stamp(25)];
    assert_eq!(count_valid_timestamps(&mut recording(60), &timestamps), 1);
}

#[test]
fn filter_keeps_a_whole_session() {
    let mut session = four_songs();
    let dropped = filter_invalid_songs(&mut recording(60), &mut session).unwrap();
    assert!(dropped.is_empty());
    assert_eq!(session.songs.len(), 4);
    assert_eq!(session.timestamps.len(), 5);
}

#[test]
fn filter_cuts_off_the_end_without_audio() {
    let mut session = four_songs();
    // audio for the first three instants only
    let dropped = filter_invalid_songs(&mut recording(30), &mut session).unwrap();
    assert_eq!(session.timestamps, vec![stamp(5), stamp(15), stamp(25)]);
    assert_eq!(titles(&session.songs), vec!["one", "two"]);
    assert_eq!(titles(&dropped), vec!["three", "four"]);
    assert_eq!(session.songs.len(), 3 - 1);
    assert_eq!(session.timestamps.len(), 3);
}

#[test]
fn filter_with_two_valid_timestamps_keeps_one_song() {
    let mut session = four_songs();
    let dropped = filter_invalid_songs(&mut recording(20), &mut session).unwrap();
    assert_eq!(session.timestamps, vec![stamp(5), stamp(15)]);
    assert_eq!(titles(&session.songs), vec!["one"]);
    assert_eq!(titles(&dropped), vec!["two", "three", "four"]);
}

#[test]
fn filter_with_one_valid_timestamp_is_an_error() {
    let mut session = four_songs();
    let result = filter_invalid_songs(&mut recording(10), &mut session);
    assert_eq!(
        result,
        Err(NoValidDataError {
            valid_timestamps: 1
        })
    );
    assert_eq!(session.songs.len(), 4);
    assert_eq!(session.timestamps.len(), 5);
}

#[test]
fn filter_without_valid_timestamp_is_an_error() {
    let mut session = four_songs();
    let result = filter_invalid_songs(&mut recording(1), &mut session);
    assert_eq!(
        result,
        Err(NoValidDataError {
            valid_timestamps: 0
        })
    );
    assert_eq!(titles(&session.songs), vec!["one", "two", "three", "four"]);
    assert_eq!(session.timestamps.len(), 5);

    let mut empty = RecordingSession {
        songs: vec![],
        timestamps: vec![],
    };
    assert_eq!(
        filter_invalid_songs(&mut recording(60), &mut empty),
        Err(NoValidDataError {
            valid_timestamps: 0
        })
    );
}

#[test]
fn filter_twice_is_filter_once() {
    let mut session = four_songs();
    let mut buffer = recording(30);
    filter_invalid_songs(&mut buffer, &mut session).unwrap();
    let dropped = filter_invalid_songs(&mut buffer, &mut session).unwrap();
    assert!(dropped.is_empty());
    assert_eq!(session.timestamps, vec![stamp(5), stamp(15), stamp(25)]);
    assert_eq!(titles(&session.songs), vec!["one", "two"]);
}

#[test]
fn filter_with_fewer_songs_than_valid_timestamps() {
    // one song only, and three instants with audio: the song stays
    let mut session = RecordingSession {
        songs: vec![song("only", 10_000_000)],
        timestamps: vec![stamp(5), stamp(15), stamp(25), stamp(500)],
    };
    let dropped = filter_invalid_songs(&mut recording(60), &mut session).unwrap();
    assert!(dropped.is_empty());
    assert_eq!(titles(&session.songs), vec!["only"]);
    assert_eq!(session.timestamps, vec![stamp(5), stamp(15), stamp(25)]);
}

fn in_dir(session: RecordingSession) -> RecordingSessionWithPath {
    RecordingSessionWithPath {
        session,
        path: SessionPath("recordings/today".into()),
    }
}

#[test]
fn plan_pairs_each_song_with_two_times() {
    let session = in_dir(four_songs());
    let times = vec![at(1), at(2), at(3), at(4), at(5)];
    let cuts = plan_cuts(&session, &times);
    assert_eq!(cuts.len(), 4);
    for (i, cut) in cuts.iter().enumerate() {
        assert_eq!(cut.buffer_file, "recordings/today/buffer.wav");
        assert_eq!(cut.music_dir, "recordings/today/cut");
        assert_eq!(cut.cut.start_time, (i as i128 + 1) * 1_000_000);
        assert_eq!(cut.cut.end_time, (i as i128 + 2) * 1_000_000);
        assert!(cut.cut.song == session.session.songs[i]);
    }
}

#[test]
fn cut_info_new() {
    let session = in_dir(four_songs());
    let info = CutInfo::new(&session, &session.session.songs[1], at(15_000_000), at(25_500_000));
    assert_eq!(info.buffer_file, "recordings/today/buffer.wav");
    assert_eq!(info.music_dir, "recordings/today/cut");
    assert_eq!(info.cut.start_time, 15_000_000_000_000);
    assert_eq!(info.cut.end_time, 25_500_000_000_000);
    assert_eq!(info.cut.song.title.as_deref(), Some("two"));
    let copy = info.clone();
    assert_eq!(copy.buffer_file, info.buffer_file);
    assert_eq!(copy.music_dir, info.music_dir);
    assert_eq!(copy.cut.start_time, info.cut.start_time);
    assert_eq!(copy.cut.end_time, info.cut.end_time);
    assert!(copy.cut.song == info.cut.song);
}

#[test]
fn get_cuts_of_a_whole_session() {
    let mut session = in_dir(four_songs());
    let cuts = get_cuts(&mut session, &mut recording(60), &DbusLengthsStrategy).unwrap();
    assert_eq!(job_titles(&cuts), vec!["one", "two", "three", "four"]);
    let starts: Vec<i128> = cuts.iter().map(|c| c.cut.start_time).collect();
    let ends: Vec<i128> = cuts.iter().map(|c| c.cut.end_time).collect();
    assert_eq!(
        starts,
        vec![
            5_000_000_000_000,
            15_000_000_000_000,
            25_000_000_000_000,
            35_000_000_000_000
        ]
    );
    assert_eq!(
        ends,
        vec![
            15_000_000_000_000,
            25_000_000_000_000,
            35_000_000_000_000,
            45_000_000_000_000
        ]
    );
    assert_eq!(cuts[0].buffer_file, "recordings/today/buffer.wav");
}

#[test]
fn get_cuts_leaves_out_songs_without_audio() {
    let mut session = in_dir(four_songs());
    let cuts = get_cuts(&mut session, &mut recording(30), &DbusStrategy).unwrap();
    assert_eq!(job_titles(&cuts), vec!["one", "two"]);
    assert_eq!(cuts[1].cut.start_time, 15_000_000_000_000);
    assert_eq!(cuts[1].cut.end_time, 25_000_000_000_000);
    assert_eq!(session.session.songs.len(), 2);
    assert_eq!(session.session.timestamps.len(), 3);
}

#[test]
fn get_cuts_of_a_faulty_recording() {
    let mut session = in_dir(four_songs());
    let result = get_cuts(&mut session, &mut recording(10), &DbusStrategy);
    assert_eq!(
        result.unwrap_err(),
        CutError::NoValidData(NoValidDataError {
            valid_timestamps: 1
        })
    );
    assert_eq!(session.session.songs.len(), 4);
}

#[test]
fn get_cuts_without_silence_candidate() {
    let mut session = in_dir(four_songs());
    // audio for all instants, but the songs claim to be much longer, so
    // that the guesses lie beyond the recording
    for song in session.session.songs.iter_mut() {
        song.length = 100_000_000;
    }
    let search = SilenceOptimizer {
        min_offset: -3_000_000,
        max_offset: 3_000_000,
        num_offsets: 12,
    };
    let result = get_cuts(&mut session, &mut recording(60), &search);
    assert_eq!(result.unwrap_err(), CutError::NoSilenceCandidate);
}

#[test]
fn get_cuts_with_more_timestamps_than_songs_need() {
    let mut session = in_dir(RecordingSession {
        songs: vec![song("only", 10_000_000)],
        timestamps: vec![stamp(5), stamp(15), stamp(25)],
    });
    let result = get_cuts(&mut session, &mut recording(60), &DbusStrategy);
    assert_eq!(result.unwrap_err(), CutError::UnmatchedTimestamps);
}

#[test]
fn get_cuts_with_silence_optimizer() {
    let mut session = in_dir(RecordingSession {
        songs: vec![song("one", 10_000_000), song("two", 10_000_000)],
        timestamps: vec![stamp(5), stamp(16), stamp(24)],
    });
    // quiet at 6, 16 and 26 seconds: one second after each guess
    let samples: Vec<i16> = (0..40_000i64)
        .map(|i| {
            let distance = [6000i64, 16_000, 26_000]
                .iter()
                .map(|q| (i - q).abs())
                .min()
                .unwrap();
            (distance * 5) as i16
        })
        .collect();
    let mut buffer = Buffer::new(MONO, samples);
    let search = SilenceOptimizer {
        min_offset: -3_000_000,
        max_offset: 3_000_000,
        num_offsets: 12,
    };
    let cuts = get_cuts(&mut session, &mut buffer, &search).unwrap();
    assert_eq!(job_titles(&cuts), vec!["one", "two"]);
    assert_eq!(cuts[0].cut.start_time, 6_000_000_000_000);
    assert_eq!(cuts[0].cut.end_time, 16_000_000_000_000);
    assert_eq!(cuts[1].cut.start_time, 16_000_000_000_000);
    assert_eq!(cuts[1].cut.end_time, 26_000_000_000_000);
}

#[test]
fn cut_command_with_all_tags() {
    let info = CutInfo {
        buffer_file: "recordings/today/buffer.wav".into(),
        music_dir: "recordings/today/cut".into(),
        cut: Cut {
            start_time: 12_345_000_000_000,
            end_time: 200_000_000_000_000,
            song: Song {
                title: Some("Blue in Green".into()),
                album: Some("Kind of Blue".into()),
                artist: Some("Miles Davis".into()),
                track_number: Some(3),
                length: 337_000_000,
            },
        },
    };
    let command = get_cut_command(&info);
    assert_eq!(command.program, "ffmpeg");
    assert_eq!(
        command.args,
        vec![
            "-ss",
            "12.345",
            "-t",
            "187.655",
            "-i",
            "recordings/today/buffer.wav",
            "-c:a",
            "libopus",
            "-b:a",
            "192000",
            "-metadata",
            "title='Blue in Green'",
            "-metadata",
            "album='Kind of Blue'",
            "-metadata",
            "artist='Miles Davis'",
            "-metadata",
            "albumartist='Miles Davis'",
            "-metadata",
            "track=3",
            "-y",
            "recordings/today/cut/Miles Davis/Kind of Blue/Blue in Green.opus",
        ]
    );
    assert_eq!(
        command.target_file,
        "recordings/today/cut/Miles Davis/Kind of Blue/Blue in Green.opus"
    );
}

#[test]
fn cut_command_without_tags() {
    let info = CutInfo {
        buffer_file: "buffer.wav".into(),
        music_dir: "cut".into(),
        cut: Cut {
            start_time: 5_000_000_000_000,
            end_time: 5_000_001_000_000,
            song: Song {
                title: None,
                album: None,
                artist: None,
                track_number: None,
                length: 0,
            },
        },
    };
    let command = get_cut_command(&info);
    assert_eq!(
        command.args,
        vec![
            "-ss",
            "5",
            "-t",
            "0.000001",
            "-i",
            "buffer.wav",
            "-c:a",
            "libopus",
            "-b:a",
            "192000",
            "-y",
            "cut/Unknown/Unknown/Unknown.opus",
        ]
    );
}

#[test]
fn cut_command_with_some_tags() {
    let mut info = job("So What");
    info.cut.song.track_number = Some(-1);
    info.cut.start_time = 10_000_000_000_000;
    info.cut.end_time = 9_500_000_000_000;
    let command = get_cut_command(&info);
    assert_eq!(
        command.args,
        vec![
            "-ss",
            "10",
            "-t",
            "-0.5",
            "-i",
            "session/buffer.wav",
            "-c:a",
            "libopus",
            "-b:a",
            "192000",
            "-metadata",
            "title='So What'",
            "-metadata",
            "track=-1",
            "-y",
            "session/cut/Unknown/Unknown/So What.opus",
        ]
    );
}

#[test]
fn dispatcher_never_runs_more_than_it_may() {
    let jobs: Vec<CutInfo> = ["1", "2", "3", "4", "5"].iter().map(|t| job(t)).collect();
    let mut cutter = Cutter::new(jobs, 2);
    let mut started: Vec<String> = Vec::new();
    let mut completed: Vec<String> = Vec::new();
    let mut rounds = 0;
    while !cutter.is_finished() {
        if let Some(cut) = cutter.start_next() {
            started.push(cut.cut.song.title.clone().unwrap());
        }
        assert!(cutter.num_running() <= 2);
        // every other round, the cut that has run longest ends
        let statuses: Vec<ProcessStatus> = (0..cutter.num_running())
            .map(|i| {
                if i == 0 && rounds % 2 == 1 {
                    ProcessStatus::Succeeded
                } else {
                    ProcessStatus::Running
                }
            })
            .collect();
        let finished = cutter.record_poll(&statuses).unwrap();
        completed.extend(job_titles(&finished));
        assert!(cutter.num_running() <= 2);
        rounds += 1;
        assert!(rounds < 100);
    }
    assert_eq!(started, vec!["1", "2", "3", "4", "5"]);
    assert_eq!(completed, vec!["1", "2", "3", "4", "5"]);
    assert_eq!(cutter.num_pending(), 0);
    assert_eq!(cutter.num_running(), 0);
}

#[test]
fn dispatcher_waits_while_the_limit_is_reached() {
    let jobs: Vec<CutInfo> = ["1", "2", "3"].iter().map(|t| job(t)).collect();
    let mut cutter = Cutter::new(jobs, 2);
    assert_eq!(job_titles(&[cutter.start_next().unwrap()]), vec!["1"]);
    assert_eq!(job_titles(&[cutter.start_next().unwrap()]), vec!["2"]);
    assert!(cutter.start_next().is_none());
    assert!(cutter.start_next().is_none());
    assert_eq!(cutter.num_running(), 2);
    assert_eq!(cutter.num_pending(), 1);
    // the second cut ends before the first
    let finished = cutter
        .record_poll(&[ProcessStatus::Running, ProcessStatus::Succeeded])
        .unwrap();
    assert_eq!(job_titles(&finished), vec!["2"]);
    assert_eq!(cutter.num_running(), 1);
    assert_eq!(job_titles(&[cutter.start_next().unwrap()]), vec!["3"]);
    let finished = cutter
        .record_poll(&[ProcessStatus::Succeeded, ProcessStatus::Succeeded])
        .unwrap();
    assert_eq!(job_titles(&finished), vec!["1", "3"]);
    assert!(cutter.is_finished());
}

#[test]
fn dispatcher_starts_nothing_after_a_failure() {
    let jobs: Vec<CutInfo> = ["1", "2", "3", "4", "5"].iter().map(|t| job(t)).collect();
    let mut cutter = Cutter::new(jobs, 2);
    let mut started: Vec<String> = Vec::new();
    started.push(cutter.start_next().unwrap().cut.song.title.unwrap());
    assert!(cutter.record_poll(&[ProcessStatus::Running]).unwrap().is_empty());
    started.push(cutter.start_next().unwrap().cut.song.title.unwrap());
    // the second cut fails while the first still runs
    let error = cutter
        .record_poll(&[ProcessStatus::Running, ProcessStatus::Failed])
        .unwrap_err();
    assert_eq!(error.cut.cut.song.title.as_deref(), Some("2"));
    assert!(cutter.is_finished());
    for _ in 0..10 {
        assert!(cutter.start_next().is_none());
    }
    assert_eq!(started, vec!["1", "2"]);
    assert_eq!(cutter.num_pending(), 3);
    // the first cut is left running
    assert_eq!(cutter.num_running(), 1 + 1);
}

#[test]
fn dispatcher_reports_the_first_failure() {
    let jobs: Vec<CutInfo> = ["1", "2", "3"].iter().map(|t| job(t)).collect();
    let mut cutter = Cutter::new(jobs, 3);
    cutter.start_next();
    cutter.start_next();
    cutter.start_next();
    let error = cutter
        .record_poll(&[
            ProcessStatus::Succeeded,
            ProcessStatus::Failed,
            ProcessStatus::Failed,
        ])
        .unwrap_err();
    assert_eq!(error.cut.cut.song.title.as_deref(), Some("2"));
    // nothing else changes on a failure
    assert_eq!(cutter.num_running(), 3);
}

#[test]
fn dispatcher_abort() {
    let jobs: Vec<CutInfo> = ["1", "2"].iter().map(|t| job(t)).collect();
    let mut cutter = Cutter::new(jobs, MAX_NUM_PROCESSES);
    assert!(!cutter.is_finished());
    assert!(cutter.start_next().is_some());
    cutter.abort();
    assert!(cutter.is_finished());
    assert!(cutter.start_next().is_none());
    assert_eq!(cutter.num_pending(), 1);
}

#[test]
fn dispatcher_without_jobs_is_finished() {
    let mut cutter = Cutter::new(Vec::new(), 10);
    assert!(cutter.is_finished());
    assert!(cutter.start_next().is_none());
    assert!(cutter.record_poll(&[]).unwrap().is_empty());
    assert_eq!(MAX_NUM_PROCESSES, 10);
}

#[test]
fn dispatcher_that_may_run_nothing() {
    let mut cutter = Cutter::new(vec![job("1")], 0);
    assert!(cutter.start_next().is_none());
    assert!(!cutter.is_finished());
    assert_eq!(cutter.num_running(), 0);
}

#[test]
fn cut_command_stops_at_the_ends_of_time() {
    let mut info = job("So What");
    info.cut.start_time = i128::MIN;
    info.cut.end_time = i128::MAX;
    let command = get_cut_command(&info);
    assert_eq!(command.args[1], "-1000000000000000000");
    assert_eq!(command.args[3], "1000000000000000000");
    info.cut.start_time = 22_675_736_961;
    info.cut.end_time = 22_675_736_962;
    let command = get_cut_command(&info);
    assert_eq!(command.args[1], "0.022675736961");
    assert_eq!(command.args[3], "0.000000000001");
}

#[test]
fn dispatcher_hands_back_every_cut_once() {
    let jobs: Vec<CutInfo> = ["1", "2", "3", "4", "5"].iter().map(|t| job(t)).collect();
    let mut cutter = Cutter::new(jobs, 2);
    let mut started: Vec<String> = Vec::new();
    let mut completed: Vec<String> = Vec::new();
    let mut rounds = 0;
    while !cutter.is_finished() {
        if let Some(cut) = cutter.start_next() {
            started.push(cut.cut.song.title.clone().unwrap());
        }
        let before = cutter.num_pending() + cutter.num_running() + completed.len();
        // the cut that was started last ends first, two rounds after its start
        let running = cutter.num_running();
        let statuses: Vec<ProcessStatus> = (0..running)
            .map(|i| {
                if i + 1 == running && rounds % 3 == 2 {
                    ProcessStatus::Succeeded
                } else {
                    ProcessStatus::Running
                }
            })
            .collect();
        completed.extend(job_titles(&cutter.record_poll(&statuses).unwrap()));
        assert_eq!(
            cutter.num_pending() + cutter.num_running() + completed.len(),
            before
        );
        assert_eq!(before, 5);
        rounds += 1;
        assert!(rounds < 100);
    }
    assert_eq!(started, vec!["1", "2", "3", "4", "5"]);
    completed.sort();
    assert_eq!(completed, vec!["1", "2", "3", "4", "5"]);
}
