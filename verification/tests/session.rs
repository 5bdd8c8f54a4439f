use striputary::consts;
use striputary::gui::SessionSelector;
use striputary::recording::{DbusEvent, PlaybackStatus, TimedDbusEvent, Timestamp};
use striputary::recording_session::{get_new_name, RecordingSession, SessionPath};
use striputary::session_manager::{comes_no_later, SessionIdentifier, SessionManager};
use striputary::song::{same_text, tag_name, Song};
use striputary::text::{decimal_text, join_path, seconds_text, to_file_name};

fn song(title: &str) -> Song {
    Song {
        title: Some(title.into()),
        album: Some("Album".into()),
        artist: Some("Artist".into()),
        track_number: Some(1),
        length: 60_000_000,
    }
}

fn event(event: DbusEvent, micros: u64) -> TimedDbusEvent {
    TimedDbusEvent {
        event,
        timestamp: Timestamp {
            time_since_start_micros: micros,
        },
    }
}

#[test]
fn session_from_events() {
    let events = vec![
        event(DbusEvent::StatusChanged(PlaybackStatus::Playing), 10),
        event(DbusEvent::NewSong(song("one")), 20),
        event(DbusEvent::NewInvalidSong, 30),
        event(DbusEvent::NewSong(song("two")), 40),
        event(DbusEvent::StatusChanged(PlaybackStatus::Paused), 50),
    ];
    let session = RecordingSession::from_events(&events);
    let titles: Vec<String> = session
        .songs
        .iter()
        .map(|s| s.title.clone().unwrap())
        .collect();
    assert_eq!(titles, vec!["one", "two"]);
    let micros: Vec<u64> = session
        .timestamps
        .iter()
        .map(|t| t.time_since_start_micros)
        .collect();
    assert_eq!(micros, vec![10, 20, 40, 50]);
    assert!(session.songs[0] == song("one"));
}

#[test]
fn session_from_no_events() {
    let session = RecordingSession::from_events(&[]);
    assert!(session.songs.is_empty());
    assert!(session.timestamps.is_empty());
    let session = RecordingSession::from_events(&[event(DbusEvent::NewInvalidSong, 5)]);
    assert!(session.songs.is_empty());
    assert!(session.timestamps.is_empty());
}

#[test]
fn session_files() {
    let path = SessionPath("recordings/2024-01-02-03-04-05".into());
    assert_eq!(
        path.get_yaml_file(),
        "recordings/2024-01-02-03-04-05/session.yaml"
    );
    assert_eq!(
        path.get_buffer_file(),
        "recordings/2024-01-02-03-04-05/buffer.wav"
    );
    assert_eq!(path.get_music_dir(), "recordings/2024-01-02-03-04-05/cut");
    assert_eq!(consts::DEFAULT_SESSION_FILE, "session.yaml");
    assert_eq!(consts::DEFAULT_BUFFER_FILE, "buffer.wav");
    assert_eq!(consts::DEFAULT_MUSIC_DIR, "cut");
}

#[test]
fn join_path_cases() {
    assert_eq!(join_path("a", "b"), "a/b");
    assert_eq!(join_path("a/", "b"), "a/b");
    assert_eq!(join_path("", "b"), "b");
    assert_eq!(join_path("a", "/b"), "/b");
    assert_eq!(join_path("a", ""), "a/");
    assert_eq!(join_path("/", "b"), "/b");
    assert_eq!(join_path("données", "été"), "données/été");
}

#[test]
fn join_path_agrees_with_the_standard_library() {
    for (base, leaf) in [("a", "b"), ("a/", "b"), ("", "b"), ("a", "/b"), ("a/b", "c/d")] {
        let expected = std::path::Path::new(base).join(leaf);
        assert_eq!(std::path::Path::new(&join_path(base, leaf)), expected);
    }
}

#[test]
fn new_name_lies_in_the_output_dir() {
    let name = get_new_name("recordings");
    let date = name.strip_prefix("recordings/").unwrap();
    assert!(!date.contains('/'));
    assert!(!get_new_name("recordings/")
        .strip_prefix("recordings/")
        .unwrap()
        .contains('/'));
    let parts: Vec<&str> = date.split('-').collect();
    assert_eq!(parts.len(), 6);
    assert!(parts
        .iter()
        .all(|p| !p.is_empty() && p.chars().all(|c| c.is_ascii_digit())));
}

#[test]
fn newest_session_comes_first() {
    let manager = SessionManager::new(vec![
        "out/2023-05-01-10-00-00".into(),
        "out/2024-01-01-09-00-00".into(),
        "out/2022-12-31-23-59-59".into(),
        "out/2024-01-01-10-00-00".into(),
    ]);
    assert_eq!(
        manager.dirs,
        vec![
            "out/2024-01-01-10-00-00",
            "out/2024-01-01-09-00-00",
            "out/2023-05-01-10-00-00",
            "out/2022-12-31-23-59-59",
        ]
    );
}

#[test]
fn sorting_keeps_every_session() {
    let dirs: Vec<String> = vec!["b".into(), "a".into(), "b".into(), "".into(), "ab".into()];
    let manager = SessionManager::new(dirs.clone());
    assert_eq!(manager.dirs, vec!["b", "b", "ab", "a", ""]);
    let mut expected = dirs;
    expected.sort();
    expected.reverse();
    assert_eq!(manager.dirs, expected);
    assert!(SessionManager::new(Vec::new()).dirs.is_empty());
}

#[test]
fn sessions_with_indices() {
    let manager = SessionManager::new(vec!["x/1".into(), "x/3".into(), "x/2".into()]);
    assert_eq!(
        manager.iter_relative_paths_with_indices(),
        vec![
            (SessionIdentifier(0), "x/3".to_string()),
            (SessionIdentifier(1), "x/2".to_string()),
            (SessionIdentifier(2), "x/1".to_string()),
        ]
    );
}

#[test]
fn session_selector_lists_newest_first() {
    let selector = SessionSelector::new(vec!["x/1".into(), "x/3".into(), "x/2".into()]);
    assert_eq!(
        selector.sessions,
        vec![
            (SessionIdentifier(0), "x/3".to_string()),
            (SessionIdentifier(1), "x/2".to_string()),
            (SessionIdentifier(2), "x/1".to_string()),
        ]
    );
}

#[test]
fn dictionary_order() {
    assert!(comes_no_later("", ""));
    assert!(comes_no_later("", "a"));
    assert!(!comes_no_later("a", ""));
    assert!(comes_no_later("a", "a"));
    assert!(comes_no_later("a", "ab"));
    assert!(!comes_no_later("ab", "a"));
    assert!(comes_no_later("ab", "b"));
    assert!(!comes_no_later("b", "ab"));
    assert!(comes_no_later("Z", "a"));
    assert!(comes_no_later("z", "é"));
    for (a, b) in [("x/10", "x/9"), ("été", "etc"), ("2024-01", "2024-01-01")] {
        assert_eq!(comes_no_later(a, b), a <= b);
        assert_eq!(comes_no_later(b, a), b <= a);
    }
}

#[test]
fn songs_are_equal_by_their_fields() {
    let a = song("one");
    assert!(a == song("one"));
    assert!(a == a.clone());
    assert!(a != song("two"));
    let mut b = song("one");
    b.length += 1;
    assert!(a != b);
    let mut c = song("one");
    c.track_number = None;
    assert!(a != c);
    let mut d = song("one");
    d.artist = None;
    assert!(a != d);
    let mut e = song("one");
    e.album = Some("Other".into());
    assert!(a != e);
    assert!(same_text(&None, &None));
    assert!(!same_text(&Some("".into()), &None));
}

#[test]
fn target_file_of_a_song() {
    assert_eq!(
        song("one").get_target_file("music"),
        "music/Artist/Album/one.opus"
    );
    let untagged = Song {
        title: None,
        album: None,
        artist: None,
        track_number: None,
        length: 0,
    };
    assert_eq!(
        untagged.get_target_file("music/"),
        "music/Unknown/Unknown/Unknown.opus"
    );
    let mut slashed = song("7/4 Shoreline");
    slashed.artist = Some("/etc".into());
    slashed.album = Some("AC/DC".into());
    assert_eq!(
        slashed.get_target_file("music"),
        "music/_etc/AC_DC/7_4 Shoreline.opus"
    );
    assert_eq!(tag_name(&Some("a/b".into())), "a_b");
    assert_eq!(tag_name(&None), "Unknown");
}

#[test]
fn file_names_hold_no_slash() {
    assert_eq!(to_file_name(""), "");
    assert_eq!(to_file_name("plain"), "plain");
    assert_eq!(to_file_name("/a//b/"), "_a__b_");
    assert_eq!(to_file_name("Motörhead / Live"), "Motörhead _ Live");
}

#[test]
fn decimal_text_exact() {
    assert_eq!(decimal_text(0), "0");
    assert_eq!(decimal_text(7), "7");
    assert_eq!(decimal_text(10), "10");
    assert_eq!(decimal_text(192_000), "192000");
    assert_eq!(decimal_text(-45), "-45");
    assert_eq!(decimal_text(i64::MAX), "9223372036854775807");
    assert_eq!(decimal_text(i64::MIN), "-9223372036854775808");
}

#[test]
fn seconds_text_exact() {
    assert_eq!(seconds_text(0), "0");
    assert_eq!(seconds_text(5_000_000_000_000), "5");
    assert_eq!(seconds_text(12_345_000_000_000), "12.345");
    assert_eq!(seconds_text(1), "0.000000000001");
    assert_eq!(seconds_text(1_000_000), "0.000001");
    assert_eq!(seconds_text(999_999_999_999), "0.999999999999");
    assert_eq!(seconds_text(1_500_000_000_000), "1.5");
    assert_eq!(seconds_text(100_000_000_000), "0.1");
    assert_eq!(seconds_text(60_000_500_000_000), "60.0005");
    assert_eq!(seconds_text(22_675_736_961), "0.022675736961");
    assert_eq!(seconds_text(-500_000_000_000), "-0.5");
    assert_eq!(seconds_text(-3_000_000_000_000), "-3");
    assert_eq!(seconds_text(i64::MAX as i128), "9223372.036854775807");
    assert_eq!(seconds_text(10i128.pow(30)), "1000000000000000000");
    assert_eq!(
        seconds_text(i64::MIN as i128 - i64::MAX as i128),
        "-18446744.073709551615"
    );
}
