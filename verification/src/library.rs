//! Which of the files found by a directory walk become tracks of the library.

use vstd::prelude::*;
use crate::paths;
use crate::song::{metadata_of, song_of, views, Metadata, MetadataView, Song, SongView};
use crate::text;

verus! {

/// A file that a directory walk came upon, with the metadata embedded in it
/// where any could be read.
#[derive(Debug, PartialEq, Eq)]
pub struct Candidate {
    pub path: String,
    pub tag: Option<Metadata>,
}

/// The mathematical value of a [`Candidate`].
pub struct CandidateView {
    pub path: Seq<char>,
    pub tag: Option<MetadataView>,
}

impl View for Candidate {
    type V = CandidateView;

    open spec fn view(&self) -> CandidateView {
        CandidateView { path: self.path@, tag: metadata_of(self.tag) }
    }
}

/// The views of a sequence of candidates.
pub open spec fn candidate_views(found: Seq<Candidate>) -> Seq<CandidateView> {
    found.map_values(|c: Candidate| c@)
}

/// How the walk of one directory ended.
#[derive(Debug, PartialEq, Eq)]
pub enum Walk {
    /// The directory does not exist.
    Missing,
    /// The directory could not be traversed to its end.
    Failed,
    /// The walk ended; these are the files it found, in walk order.
    Complete(Vec<Candidate>),
}

/// The mathematical value of a [`Walk`].
pub enum WalkView {
    Missing,
    Failed,
    Complete(Seq<CandidateView>),
}

impl View for Walk {
    type V = WalkView;

    open spec fn view(&self) -> WalkView {
        match self {
            Walk::Missing => WalkView::Missing,
            Walk::Failed => WalkView::Failed,
            Walk::Complete(found) => WalkView::Complete(candidate_views(found@)),
        }
    }
}

/// Whether the path has one of the extensions `mp3`, `ogg` and `flac`, in
/// exactly this spelling.
pub open spec fn is_audio_path(path: Seq<char>) -> bool {
    match paths::extension(path) {
        Some(ext) => ext == "mp3"@ || ext == "ogg"@ || ext == "flac"@,
        None => false,
    }
}

/// Whether a file at `path`, found by the walk of `dir`, becomes a track: it
/// is an audio file and lies under `dir`.
pub open spec fn accepted(dir: Seq<char>, path: Seq<char>) -> bool {
    is_audio_path(path) && paths::starts_with(path, dir)
}

/// The test that the walk of `dir` puts its candidates to.
pub open spec fn accepts(dir: Seq<char>) -> spec_fn(CandidateView) -> bool {
    |c: CandidateView| accepted(dir, c.path)
}

/// The song that a candidate becomes.
pub open spec fn to_song() -> spec_fn(CandidateView) -> SongView {
    |c: CandidateView| song_of(c.path, c.tag)
}

/// The tracks that the walk of `dir` yields: one for each accepted candidate,
/// in walk order.
pub open spec fn tracks_of(dir: Seq<char>, found: Seq<CandidateView>) -> Seq<SongView> {
    found.filter(accepts(dir)).map_values(to_song())
}

/// Every track that a walk yields is an audio file under the walked
/// directory.
pub proof fn lemma_tracks_accepted(dir: Seq<char>, found: Seq<CandidateView>, i: int)
    requires
        0 <= i < tracks_of(dir, found).len(),
    ensures
        is_audio_path(tracks_of(dir, found)[i].path),
        paths::starts_with(tracks_of(dir, found)[i].path, dir),
{
    found.lemma_filter_pred(accepts(dir), i);
}

/// Tests whether the path names an audio file.
pub fn is_audio_file(path: &str) -> (audio: bool)
    ensures
        audio == is_audio_path(path@),
{
    match paths::extension_of(path) {
        Some(ext) => text::same_text(ext.as_str(), "mp3") || text::same_text(ext.as_str(), "ogg")
            || text::same_text(ext.as_str(), "flac"),
        None => false,
    }
}

/// Makes the tracks of one walked directory.
pub fn scan_directory(dir: &str, found: Vec<Candidate>) -> (songs: Vec<Song>)
    ensures
        views(songs@) == tracks_of(dir@, candidate_views(found@)),
        forall|i: int|
            0 <= i < songs.len() ==> is_audio_path(#[trigger] songs[i]@.path) && paths::starts_with(
                songs[i]@.path,
                dir@,
            ),
{
    let ghost all = found@;
    let mut songs: Vec<Song> = Vec::new();
    assert(views(songs@) =~= tracks_of(dir@, candidate_views(all.take(0)))) by {
        reveal(Seq::filter);
    }
    for c in it: found
        invariant
            it.seq() == all,
            views(songs@) == tracks_of(dir@, candidate_views(all.take(it.index()))),
    {
        let ghost before = candidate_views(all.take(it.index()));
        proof {
            assert(candidate_views(all.take(it.index() + 1)) =~= before.push(c@));
            before.lemma_filter_push(c@, accepts(dir@));
        }
        if is_audio_file(c.path.as_str()) && paths::is_under(c.path.as_str(), dir) {
            let song = Song::new(c.path, c.tag);
            songs.push(song);
            assert(before.filter(accepts(dir@)).push(c@).map_values(to_song()) =~= before.filter(
                accepts(dir@),
            ).map_values(to_song()).push(song@));
        }
    }
    proof {
        assert(all.take(all.len() as int) =~= all);
        assert forall|i: int| 0 <= i < songs.len() implies is_audio_path(
            #[trigger] songs[i]@.path,
        ) && paths::starts_with(songs[i]@.path, dir@) by {
            lemma_tracks_accepted(dir@, candidate_views(all), i);
        }
    }
    songs
}

} // verus!
