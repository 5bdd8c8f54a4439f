//! One song to cut out of a recording, and the command that cuts it.

use super::time::{clamp_time, saturate, saturating_difference, AudioTime};
use crate::consts;
use crate::recording_session::RecordingSessionWithPath;
use crate::song::{target_file, text_of, Song, SongView};
use crate::text::{decimal_text, joined, seconds, seconds_text, signed_decimal};
use vstd::prelude::*;
use vstd::string::StringExecFns;

verus! {

/// Where in the recording one song lies, in picoseconds.
#[derive(Debug)]
pub struct Cut {
    pub start_time: i128,
    pub end_time: i128,
    pub song: Song,
}

/// One song to cut: the recording to cut it from, the directory to cut it
/// into, and where in the recording it lies.
#[derive(Debug)]
pub struct CutInfo {
    pub buffer_file: String,
    pub music_dir: String,
    pub cut: Cut,
}

/// A song to cut, as plain values.
pub struct CutInfoView {
    pub buffer_file: Seq<char>,
    pub music_dir: Seq<char>,
    pub start_time: i128,
    pub end_time: i128,
    pub song: SongView,
}

impl View for CutInfo {
    type V = CutInfoView;

    open spec fn view(&self) -> CutInfoView {
        CutInfoView {
            buffer_file: self.buffer_file@,
            music_dir: self.music_dir@,
            start_time: self.cut.start_time,
            end_time: self.cut.end_time,
            song: self.cut.song@,
        }
    }
}

impl Clone for CutInfo {
    fn clone(&self) -> (copy: CutInfo)
        ensures
            copy == *self,
    {
        CutInfo {
            buffer_file: self.buffer_file.clone(),
            music_dir: self.music_dir.clone(),
            cut: Cut {
                start_time: self.cut.start_time,
                end_time: self.cut.end_time,
                song: self.cut.song.clone(),
            },
        }
    }
}

/// The cut of `song` from `start_time` to `end_time` in the session that
/// lives in the directory `path`.
pub open spec fn cut_of(path: Seq<char>, song: SongView, start_time: AudioTime, end_time: AudioTime) -> CutInfoView {
    CutInfoView {
        buffer_file: joined(path, consts::DEFAULT_BUFFER_FILE@),
        music_dir: joined(path, consts::DEFAULT_MUSIC_DIR@),
        start_time: start_time.time,
        end_time: end_time.time,
        song,
    }
}

impl CutInfo {
    /// The cut of `song` from `start_time` to `end_time` out of the
    /// recording of `session`.
    pub fn new(
        session: &RecordingSessionWithPath,
        song: &Song,
        start_time: AudioTime,
        end_time: AudioTime,
    ) -> (info: CutInfo)
        ensures
            info@ == cut_of(session.path.0@, song@, start_time, end_time),
            info.cut.song == *song,
    {
        let buffer_file: String = session.path.get_buffer_file();
        let music_dir: String = session.path.get_music_dir();
        CutInfo {
            buffer_file,
            music_dir,
            cut: Cut { start_time: start_time.time, song: song.clone(), end_time: end_time.time },
        }
    }
}

/// The two arguments that hand a tag to the encoder, or none where the
/// song lacks the tag. The value of the tag stands between `before` and `after`.
pub open spec fn metadata_args(before: Seq<char>, value: Option<Seq<char>>, after: Seq<char>) -> Seq<
    Seq<char>,
> {
    match value {
        Some(text) => seq!["-metadata"@, before + text + after],
        None => Seq::empty(),
    }
}

/// A track number as the value of a tag.
pub open spec fn track_text(track_number: Option<i64>) -> Option<Seq<char>> {
    match track_number {
        Some(n) => Some(signed_decimal(n as int)),
        None => None,
    }
}

/// The arguments with which the encoder cuts `info`: where to begin and
/// for how long, in seconds, neither beyond the ends of time; the recording; the codec and the bit rate;
/// the tags that the song has; and the file to write, whether or not it
/// is there already.
pub open spec fn cut_args(info: CutInfoView) -> Seq<Seq<char>> {
    seq![
        "-ss"@,
        seconds(clamp_time(info.start_time as int)),
        "-t"@,
        seconds(clamp_time(info.end_time - info.start_time)),
        "-i"@,
        info.buffer_file,
        "-c:a"@,
        "libopus"@,
        "-b:a"@,
        signed_decimal(consts::BITRATE as int),
    ] + metadata_args("title='"@, info.song.title, "'"@) + metadata_args(
        "album='"@,
        info.song.album,
        "'"@,
    ) + metadata_args("artist='"@, info.song.artist, "'"@) + metadata_args(
        "albumartist='"@,
        info.song.artist,
        "'"@,
    ) + metadata_args("track="@, track_text(info.song.track_number), ""@) + seq![
        "-y"@,
        target_file(info.song, info.music_dir),
    ]
}

/// What a list of arguments says, one text for each.
pub open spec fn texts(args: Seq<String>) -> Seq<Seq<char>> {
    args.map_values(|arg: String| arg@)
}

/// A command for the encoder, ready to be run.
#[derive(Debug)]
pub struct CutCommand {
    pub program: String,
    pub args: Vec<String>,
    /// The file that the command writes. Its directory has to be there
    /// before the command runs.
    pub target_file: String,
}

fn push_arg(args: &mut Vec<String>, arg: &str)
    ensures
        texts(final(args)@) == texts(old(args)@).push(arg@),
{
    args.push(String::from_str(arg));
    assert(texts(args@) =~= texts(old(args)@).push(arg@));
}

fn add_metadata_arg_if_present(args: &mut Vec<String>, before: &str, val: &Option<String>, after: &str)
    ensures
        texts(final(args)@) == texts(old(args)@) + metadata_args(before@, text_of(*val), after@),
{
    if let Some(val) = val {
        push_arg(args, "-metadata");
        let mut arg: String = String::from_str(before);
        arg.append(val.as_str());
        arg.append(after);
        push_arg(args, arg.as_str());
        assert(texts(args@) =~= texts(old(args)@) + metadata_args(
            before@,
            text_of(Some(*val)),
            after@,
        ));
    } else {
        assert(texts(args@) =~= texts(old(args)@) + metadata_args(before@, None, after@));
    }
}

/// The command that cuts `info` out of its recording.
pub fn get_cut_command(info: &CutInfo) -> (command: CutCommand)
    ensures
        command.program@ == "ffmpeg"@,
        texts(command.args@) == cut_args(info@),
        command.target_file@ == target_file(info.cut.song@, info.music_dir@),
{
    let difference: i128 = saturating_difference(info.cut.end_time, info.cut.start_time);
    let target_file: String = info.cut.song.get_target_file(info.music_dir.as_str());
    let mut args: Vec<String> = Vec::new();
    assert(texts(args@) =~= Seq::empty());
    push_arg(&mut args, "-ss");
    push_arg(&mut args, seconds_text(saturate(info.cut.start_time)).as_str());
    push_arg(&mut args, "-t");
    push_arg(&mut args, seconds_text(difference).as_str());
    push_arg(&mut args, "-i");
    push_arg(&mut args, info.buffer_file.as_str());
    push_arg(&mut args, "-c:a");
    push_arg(&mut args, "libopus");
    push_arg(&mut args, "-b:a");
    push_arg(&mut args, decimal_text(consts::BITRATE).as_str());
    let ghost fixed = texts(args@);
    assert(fixed =~= seq![
        "-ss"@,
        seconds(clamp_time(info.cut.start_time as int)),
        "-t"@,
        seconds(clamp_time(info.cut.end_time - info.cut.start_time)),
        "-i"@,
        info.buffer_file@,
        "-c:a"@,
        "libopus"@,
        "-b:a"@,
        signed_decimal(consts::BITRATE as int),
    ]);
    add_metadata_arg_if_present(&mut args, "title='", &info.cut.song.title, "'");
    add_metadata_arg_if_present(&mut args, "album='", &info.cut.song.album, "'");
    add_metadata_arg_if_present(&mut args, "artist='", &info.cut.song.artist, "'");
    add_metadata_arg_if_present(&mut args, "albumartist='", &info.cut.song.artist, "'");
    let track: Option<String> = match info.cut.song.track_number {
        Some(n) => Some(decimal_text(n)),
        None => None,
    };
    add_metadata_arg_if_present(&mut args, "track=", &track, "");
    push_arg(&mut args, "-y");
    push_arg(&mut args, target_file.as_str());
    assert(texts(args@) =~= cut_args(info@));
    CutCommand { program: String::from_str("ffmpeg"), args, target_file }
}

} // verus!
