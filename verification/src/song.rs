//! A track of the library and how its fields are derived from its file name
//! and its embedded metadata.

use vstd::prelude::*;
use crate::paths;
use crate::paths::text_of;
use crate::text;

verus! {

/// What the metadata embedded in a file says of it. Any field may be absent.
#[derive(Debug, PartialEq, Eq)]
pub struct Metadata {
    pub title: Option<String>,
    pub artist: Option<String>,
    pub album: Option<String>,
    pub genre: Option<String>,
}

/// The mathematical value of a [`Metadata`].
pub struct MetadataView {
    pub title: Option<Seq<char>>,
    pub artist: Option<Seq<char>>,
    pub album: Option<Seq<char>>,
    pub genre: Option<Seq<char>>,
}

impl View for Metadata {
    type V = MetadataView;

    open spec fn view(&self) -> MetadataView {
        MetadataView {
            title: text_of(self.title),
            artist: text_of(self.artist),
            album: text_of(self.album),
            genre: text_of(self.genre),
        }
    }
}

/// The view of optional metadata.
pub open spec fn metadata_of(tag: Option<Metadata>) -> Option<MetadataView> {
    match tag {
        Some(m) => Some(m@),
        None => None,
    }
}

/// One indexed audio file. A song is made once, when its file is discovered,
/// and never changed afterwards.
#[derive(Debug, PartialEq, Eq)]
pub struct Song {
    pub path: String,
    pub title: String,
    pub artist: String,
    pub album: String,
    pub genre: String,
}

/// The mathematical value of a [`Song`].
pub struct SongView {
    pub path: Seq<char>,
    pub title: Seq<char>,
    pub artist: Seq<char>,
    pub album: Seq<char>,
    pub genre: Seq<char>,
}

impl View for Song {
    type V = SongView;

    open spec fn view(&self) -> SongView {
        SongView {
            path: self.path@,
            title: self.title@,
            artist: self.artist@,
            album: self.album@,
            genre: self.genre@,
        }
    }
}

/// The views of a sequence of songs.
pub open spec fn views(songs: Seq<Song>) -> Seq<SongView> {
    songs.map_values(|s: Song| s@)
}

/// An artist's name with `&`, `feat.` and `featuring` set between spaces,
/// runs of spaces reduced to one space, and the white space at both ends
/// removed.
pub open spec fn normalized_artist(raw: Seq<char>) -> Seq<char> {
    let spaced = text::replaced(
        text::replaced(text::replaced(raw, "&"@, " & "@), "feat."@, " feat. "@),
        "featuring"@,
        " featuring "@,
    );
    text::trimmed(text::collapsed(spaced))
}

/// The artist that a file's base name gives: what stands before the first
/// `" - "`, normalized, or `"Unknown Artist"` where there is no `" - "`.
pub open spec fn artist_of_stem(stem: Seq<char>) -> Seq<char> {
    match text::first_occurrence(stem, " - "@) {
        Some(at) => normalized_artist(stem.take(at)),
        None => "Unknown Artist"@,
    }
}

/// The title that a file's base name gives: what stands after the first
/// `" - "`, or the whole base name where there is no `" - "`.
pub open spec fn title_of_stem(stem: Seq<char>) -> Seq<char> {
    match text::first_occurrence(stem, " - "@) {
        Some(at) => stem.skip(at + " - "@.len()),
        None => stem,
    }
}

/// The base name of the file at `path`: its file stem, or the empty text
/// where the path has no file name.
pub open spec fn base_name(path: Seq<char>) -> Seq<char> {
    match paths::file_stem(path) {
        Some(stem) => stem,
        None => Seq::empty(),
    }
}

/// `given` where it is there, else `fallback`.
pub open spec fn or_else(given: Option<Seq<char>>, fallback: Seq<char>) -> Seq<char> {
    match given {
        Some(t) => t,
        None => fallback,
    }
}

/// The song made of the file at `path` whose metadata, if it could be read,
/// is `tag`. Title and artist come from the base name, album and genre are
/// unknown, and each field that the metadata holds replaces the one derived;
/// an artist taken from the metadata is normalized too.
pub open spec fn song_of(path: Seq<char>, tag: Option<MetadataView>) -> SongView {
    let stem = base_name(path);
    let found = match tag {
        Some(m) => m,
        None => MetadataView { title: None, artist: None, album: None, genre: None },
    };
    SongView {
        path,
        title: or_else(found.title, title_of_stem(stem)),
        artist: match found.artist {
            Some(a) => normalized_artist(a),
            None => artist_of_stem(stem),
        },
        album: or_else(found.album, "Unknown Album"@),
        genre: or_else(found.genre, "Unknown Genre"@),
    }
}

/// Normalizes an artist's name.
pub fn normalize_artist(raw: &str) -> (artist: String)
    ensures
        artist@ == normalized_artist(raw@),
{
    let chars = text::chars_of(raw);
    let a = text::replace_all(&chars, &text::chars_of("&"), &text::chars_of(" & "));
    let b = text::replace_all(&a, &text::chars_of("feat."), &text::chars_of(" feat. "));
    let c = text::replace_all(&b, &text::chars_of("featuring"), &text::chars_of(" featuring "));
    text::string_of(&text::trim(&text::collapse_spaces(&c)))
}

/// Splits a file's base name into artist and title.
pub fn split_stem(stem: &str) -> (parts: (String, String))
    ensures
        parts.0@ == artist_of_stem(stem@),
        parts.1@ == title_of_stem(stem@),
{
    let chars = text::chars_of(stem);
    let separator = text::chars_of(" - ");
    match text::find(&chars, &separator) {
        Some(at) => {
            assert(at + separator.len() <= chars.len());
            let left = text::slice(&chars, 0, at);
            let right = text::slice(&chars, at + separator.len(), chars.len());
            let artist = normalize_artist(text::string_of(&left).as_str());
            (artist, text::string_of(&right))
        },
        None => ("Unknown Artist".to_owned(), text::string_of(&chars)),
    }
}

impl Song {
    /// Makes the song of the file at `path`. `tag` is the metadata embedded in
    /// the file, or `None` where none could be read.
    pub fn new(path: String, tag: Option<Metadata>) -> (song: Song)
        ensures
            song@ == song_of(path@, metadata_of(tag)),
    {
        let stem = match paths::file_stem_of(path.as_str()) {
            Some(s) => s,
            None => String::new(),
        };
        let (mut artist, mut title) = split_stem(stem.as_str());
        let mut album = "Unknown Album".to_owned();
        let mut genre = "Unknown Genre".to_owned();
        if let Some(found) = tag {
            if let Some(t) = found.title {
                title = t;
            }
            if let Some(a) = found.artist {
                artist = normalize_artist(a.as_str());
            }
            if let Some(a) = found.album {
                album = a;
            }
            if let Some(g) = found.genre {
                genre = g;
            }
        }
        Song { path, title, artist, album, genre }
    }
}

} // verus!
