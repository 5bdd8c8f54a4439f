//! What is known of one song of a session.

use crate::text::{file_name_of, join_path, joined, to_file_name};
use vstd::prelude::*;
use vstd::string::StringExecFns;

verus! {

/// The text of a field that may be missing.
pub open spec fn text_of(field: Option<String>) -> Option<Seq<char>> {
    match field {
        Some(text) => Some(text@),
        None => None,
    }
}

/// A copy of a field that may be missing.
pub fn clone_text(field: &Option<String>) -> (copy: Option<String>)
    ensures
        copy == *field,
{
    match field {
        Some(text) => Some(text.clone()),
        None => None,
    }
}

/// Whether two fields that may be missing hold the same text, or both none.
pub fn same_text(a: &Option<String>, b: &Option<String>) -> (same: bool)
    ensures
        same == (text_of(*a) == text_of(*b)),
{
    match (a, b) {
        (Some(x), Some(y)) => *x == *y,
        (None, None) => true,
        _ => false,
    }
}

/// The tags of a song and how long it plays.
#[derive(Debug)]
pub struct Song {
    pub title: Option<String>,
    pub album: Option<String>,
    pub artist: Option<String>,
    pub track_number: Option<i64>,
    /// The playing time in microseconds, as the player announced it.
    pub length: i64,
}

/// A song as plain values.
pub struct SongView {
    pub title: Option<Seq<char>>,
    pub album: Option<Seq<char>>,
    pub artist: Option<Seq<char>>,
    pub track_number: Option<i64>,
    pub length: i64,
}

impl View for Song {
    type V = SongView;

    open spec fn view(&self) -> SongView {
        SongView {
            title: text_of(self.title),
            album: text_of(self.album),
            artist: text_of(self.artist),
            track_number: self.track_number,
            length: self.length,
        }
    }
}

impl Clone for Song {
    fn clone(&self) -> (copy: Song)
        ensures
            copy == *self,
    {
        Song {
            title: clone_text(&self.title),
            album: clone_text(&self.album),
            artist: clone_text(&self.artist),
            track_number: self.track_number,
            length: self.length,
        }
    }
}

impl vstd::std_specs::cmp::PartialEqSpecImpl for Song {
    open spec fn obeys_eq_spec() -> bool {
        true
    }

    open spec fn eq_spec(&self, other: &Song) -> bool {
        self@ == other@
    }
}

impl PartialEq for Song {
    /// Two songs are the same song when all their fields agree.
    fn eq(&self, other: &Song) -> (same: bool) {
        same_text(&self.title, &other.title) && same_text(&self.album, &other.album) && same_text(
            &self.artist,
            &other.artist,
        ) && self.track_number == other.track_number && self.length == other.length
    }
}

/// The name that a tag gives to a file or directory. A song without the
/// tag goes under `Unknown`.
pub open spec fn name_of_tag(tag: Option<Seq<char>>) -> Seq<char> {
    match tag {
        Some(text) => file_name_of(text),
        None => "Unknown"@,
    }
}

/// `name_of_tag` computed.
pub fn tag_name(tag: &Option<String>) -> (name: String)
    ensures
        name@ == name_of_tag(text_of(*tag)),
{
    match tag {
        Some(text) => to_file_name(text.as_str()),
        None => String::from_str("Unknown"),
    }
}

/// The file that `song` is cut into, below `music_dir`: a directory for
/// the artist, in it one for the album, in it the title with `.opus`.
pub open spec fn target_file(song: SongView, music_dir: Seq<char>) -> Seq<char> {
    joined(
        joined(joined(music_dir, name_of_tag(song.artist)), name_of_tag(song.album)),
        name_of_tag(song.title) + ".opus"@,
    )
}

impl Song {
    /// The file that this song is cut into, below `music_dir`.
    pub fn get_target_file(&self, music_dir: &str) -> (file: String)
        ensures
            file@ == target_file(self@, music_dir@),
    {
        let artist_dir: String = join_path(music_dir, tag_name(&self.artist).as_str());
        let album_dir: String = join_path(artist_dir.as_str(), tag_name(&self.album).as_str());
        let mut file_name: String = tag_name(&self.title);
        file_name.append(".opus");
        join_path(album_dir.as_str(), file_name.as_str())
    }
}

} // verus!
