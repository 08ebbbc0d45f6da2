//! The playback controller: the library it owns, the cursor on the current
//! track, the play flag, the volume and the queue. Each operation changes the
//! state and returns the message, if any, that is to be sent to the audio
//! engine.

use vstd::prelude::*;
use crate::error::PlayerError;
use crate::library::{
    candidate_views, is_audio_path, lemma_tracks_accepted, scan_directory, tracks_of,
    CandidateView, Walk, WalkView,
};
use crate::paths;
use crate::queue::{behind_front, front_or, offered, within, PlaybackQueue};
use crate::random;
use crate::song::{views, Song, SongView};

verus! {

/// The loudest volume, in hundredths of full scale.
pub const MAX_VOLUME: u32 = 100;

/// A message from the controller to the audio engine.
#[derive(Debug, PartialEq, Eq)]
pub enum PlayerMessage {
    /// Play the file at this path, in place of whatever plays now.
    Play(String),
    /// Stop what plays now.
    Stop,
    /// Set the volume, in hundredths of full scale.
    SetVolume(u32),
    /// End the engine.
    Quit,
}

/// The mathematical value of a [`PlayerMessage`].
pub enum MessageView {
    Play(Seq<char>),
    Stop,
    SetVolume(u32),
    Quit,
}

impl View for PlayerMessage {
    type V = MessageView;

    open spec fn view(&self) -> MessageView {
        match self {
            PlayerMessage::Play(path) => MessageView::Play(path@),
            PlayerMessage::Stop => MessageView::Stop,
            PlayerMessage::SetVolume(level) => MessageView::SetVolume(*level),
            PlayerMessage::Quit => MessageView::Quit,
        }
    }
}

/// The view of an optional message.
pub open spec fn message_of(m: Option<PlayerMessage>) -> Option<MessageView> {
    match m {
        Some(m) => Some(m@),
        None => None,
    }
}

/// A directory to index, with the outcome of its walk.
#[derive(Debug, PartialEq, Eq)]
pub struct Root {
    pub dir: String,
    pub walk: Walk,
}

/// The mathematical value of a [`Root`].
pub struct RootView {
    pub dir: Seq<char>,
    pub walk: WalkView,
}

impl View for Root {
    type V = RootView;

    open spec fn view(&self) -> RootView {
        RootView { dir: self.dir@, walk: self.walk@ }
    }
}

/// The views of a sequence of roots.
pub open spec fn root_views(roots: Seq<Root>) -> Seq<RootView> {
    roots.map_values(|r: Root| r@)
}

/// How many roots at the front of `roots` were walked to the end.
pub open spec fn walked(roots: Seq<RootView>) -> nat
    decreases roots.len(),
{
    if roots.len() == 0 || !(roots[0].walk is Complete) {
        0
    } else {
        1 + walked(roots.skip(1))
    }
}

/// The files that a walk found; none where it did not end.
pub open spec fn found_by(walk: WalkView) -> Seq<CandidateView> {
    match walk {
        WalkView::Complete(found) => found,
        _ => Seq::empty(),
    }
}

/// The controller with the library that it owns.
#[derive(Debug)]
pub struct MusicPlayer {
    songs: Vec<Song>,
    current_index: usize,
    is_playing: bool,
    music_dirs: Vec<String>,
    volume: u32,
    queue: PlaybackQueue,
}

/// The mathematical value of a [`MusicPlayer`].
pub struct PlayerView {
    pub songs: Seq<SongView>,
    pub current_index: usize,
    pub is_playing: bool,
    pub music_dirs: Seq<Seq<char>>,
    pub volume: u32,
    pub queue: Seq<usize>,
}

/// Whether `path` lies under one of the directories `dirs`.
pub open spec fn lies_under_one(path: Seq<char>, dirs: Seq<Seq<char>>) -> bool {
    exists|d: int| 0 <= d < dirs.len() && paths::starts_with(path, #[trigger] dirs[d])
}

/// Whether `song` may stand in a library with the source directories `dirs`:
/// it is an audio file and lies under one of them.
pub open spec fn indexed(song: SongView, dirs: Seq<Seq<char>>) -> bool {
    is_audio_path(song.path) && lies_under_one(song.path, dirs)
}

/// The position after `position` among `len` positions: the following one,
/// and after the last the first.
pub open spec fn following(position: usize, len: nat) -> usize {
    if position + 1 < len {
        (position + 1) as usize
    } else {
        0
    }
}

/// The position before `position` among `len` positions: the preceding one,
/// and before the first the last.
pub open spec fn preceding(position: usize, len: nat) -> usize {
    if position > 0 {
        (position - 1) as usize
    } else if len > 0 {
        (len - 1) as usize
    } else {
        0
    }
}

/// The volume `volume` changed by `delta` and held within `0..=MAX_VOLUME`.
pub open spec fn clamped(volume: u32, delta: i32) -> u32 {
    if volume + delta < 0 {
        0
    } else if volume + delta > MAX_VOLUME {
        MAX_VOLUME
    } else {
        (volume + delta) as u32
    }
}

/// Whether the track at `path` stays when the directory `dir` is removed.
pub open spec fn outside(dir: Seq<char>) -> spec_fn(SongView) -> bool {
    |s: SongView| !paths::starts_with(s.path, dir)
}

impl PlayerView {
    /// The state of a controller without tracks: nothing plays, the volume is
    /// full and the queue is empty.
    pub open spec fn empty() -> PlayerView {
        PlayerView {
            songs: Seq::empty(),
            current_index: 0,
            is_playing: false,
            music_dirs: Seq::empty(),
            volume: MAX_VOLUME,
            queue: Seq::empty(),
        }
    }

    /// The state of a new controller that has indexed the first `n` of
    /// `roots`, in order.
    pub open spec fn loaded(roots: Seq<RootView>, n: nat) -> PlayerView
        decreases n,
    {
        if n == 0 || n > roots.len() {
            PlayerView::empty()
        } else {
            PlayerView::loaded(roots, (n - 1) as nat).added(
                roots[n - 1].dir,
                found_by(roots[n - 1].walk),
            )
        }
    }

    /// What holds of every controller that the library makes: the cursor
    /// stands on a track unless there is none, every queued position is a
    /// position of the library, the volume is within bounds, and every track
    /// is an audio file that lies under a source directory.
    pub open spec fn valid(self) -> bool {
        &&& self.songs.len() == 0 ==> self.current_index == 0
        &&& self.songs.len() > 0 ==> self.current_index < self.songs.len()
        &&& forall|k: int| 0 <= k < self.queue.len() ==> #[trigger] self.queue[k] < self.songs.len()
        &&& self.volume <= MAX_VOLUME
        &&& forall|i: int|
            0 <= i < self.songs.len() ==> indexed(#[trigger] self.songs[i], self.music_dirs)
    }

    /// The message that starts the current track, if the cursor stands on one.
    pub open spec fn play_message(self) -> Option<MessageView> {
        if self.current_index < self.songs.len() {
            Some(MessageView::Play(self.songs[self.current_index as int].path))
        } else {
            None
        }
    }

    /// The state after the current track was started.
    pub open spec fn played(self) -> PlayerView {
        PlayerView {
            is_playing: self.is_playing || self.current_index < self.songs.len(),
            ..self
        }
    }

    /// The state after playback was stopped.
    pub open spec fn stopped(self) -> PlayerView {
        PlayerView { is_playing: false, ..self }
    }

    /// The state with the cursor moved to the next track: the front of the
    /// queue where the queue holds anything, else the following position.
    /// With no track nothing changes.
    pub open spec fn advanced(self) -> PlayerView {
        if self.songs.len() == 0 {
            self
        } else {
            PlayerView {
                current_index: front_or(
                    self.queue,
                    following(self.current_index, self.songs.len()),
                ),
                queue: behind_front(self.queue),
                ..self
            }
        }
    }

    /// The state with the cursor moved to the preceding track. With no track
    /// nothing changes.
    pub open spec fn retreated(self) -> PlayerView {
        if self.songs.len() == 0 {
            self
        } else {
            PlayerView { current_index: preceding(self.current_index, self.songs.len()), ..self }
        }
    }

    /// The state after the track at `position` was chosen: the cursor stands
    /// there and the controller plays. A position outside the library leaves
    /// the state as it is.
    pub open spec fn selected(self, position: usize) -> PlayerView {
        if position < self.songs.len() {
            PlayerView { current_index: position, is_playing: true, ..self }
        } else {
            self
        }
    }

    /// The message that starts the track at `position`, if that is a position
    /// of the library.
    pub open spec fn select_message(self, position: usize) -> Option<MessageView> {
        if position < self.songs.len() {
            Some(MessageView::Play(self.songs[position as int].path))
        } else {
            None
        }
    }

    /// The state with the cursor back on the first track.
    pub open spec fn rewound(self) -> PlayerView {
        PlayerView { current_index: 0, ..self }
    }

    /// The message that follows a move of the cursor: the track it now stands
    /// on is started if the controller is playing.
    pub open spec fn resume_message(self) -> Option<MessageView> {
        if self.is_playing {
            self.play_message()
        } else {
            None
        }
    }

    /// The state with the volume changed by `delta`.
    pub open spec fn with_volume(self, delta: i32) -> PlayerView {
        PlayerView { volume: clamped(self.volume, delta), ..self }
    }

    /// The state with `position` queued, where that is a position of the
    /// library; else the state as it is.
    pub open spec fn enqueued(self, position: usize) -> PlayerView {
        PlayerView { queue: offered(self.queue, position, self.songs.len()), ..self }
    }

    /// Whether this state is `before` with its tracks in another order and
    /// the cursor on the first: the tracks are the same, each as often as
    /// before, and nothing else has changed. Queued positions stay as they
    /// are and name whatever track now stands there.
    pub open spec fn is_shuffle_of(self, before: PlayerView) -> bool {
        &&& self.songs.to_multiset() == before.songs.to_multiset()
        &&& self == PlayerView { songs: self.songs, current_index: 0, ..before }
    }

    /// The state with the tracks of a walked directory appended and the
    /// directory added to the source directories.
    pub open spec fn added(self, dir: Seq<char>, found: Seq<CandidateView>) -> PlayerView {
        PlayerView {
            songs: self.songs + tracks_of(dir, found),
            music_dirs: self.music_dirs.push(dir),
            ..self
        }
    }

    /// The state without the source directory at `index` and without the
    /// tracks that lie under it. The tracks and directories that stay keep
    /// their order; the cursor is held within the shrunken library, and queued
    /// positions that no longer exist are dropped.
    pub open spec fn removed(self, index: int) -> PlayerView {
        let songs = self.songs.filter(outside(self.music_dirs[index]));
        PlayerView {
            songs,
            current_index: if self.current_index >= songs.len() {
                if songs.len() == 0 {
                    0
                } else {
                    (songs.len() - 1) as usize
                }
            } else {
                self.current_index
            },
            music_dirs: self.music_dirs.remove(index),
            queue: self.queue.filter(within(songs.len())),
            ..self
        }
    }
}

impl View for MusicPlayer {
    type V = PlayerView;

    closed spec fn view(&self) -> PlayerView {
        PlayerView {
            songs: views(self.songs@),
            current_index: self.current_index,
            is_playing: self.is_playing,
            music_dirs: self.music_dirs@.map_values(|d: String| d@),
            volume: self.volume,
            queue: self.queue@,
        }
    }
}

impl MusicPlayer {
    /// A controller without tracks or source directories.
    pub fn empty() -> (player: MusicPlayer)
        ensures
            player@ == PlayerView::empty(),
            player@.valid(),
    {
        let player = MusicPlayer {
            songs: Vec::new(),
            current_index: 0,
            is_playing: false,
            music_dirs: Vec::new(),
            volume: MAX_VOLUME,
            queue: PlaybackQueue::new(),
        };
        assert(player@.songs =~= Seq::empty());
        assert(player@.music_dirs =~= Seq::empty());
        player
    }

    /// Makes a controller over the given directories. They are indexed in
    /// order up to the first whose walk did not end; what was indexed before
    /// it is kept, and the failure is reported beside the controller.
    pub fn new(roots: Vec<Root>) -> (made: (MusicPlayer, Result<(), PlayerError>))
        ensures
            made.0@ == PlayerView::loaded(root_views(roots@), walked(root_views(roots@))),
            made.0@.valid(),
            made.1 == if walked(root_views(roots@)) < roots.len() {
                Err::<(), PlayerError>(PlayerError::Io)
            } else {
                Ok::<(), PlayerError>(())
            },
    {
        let ghost all = root_views(roots@);
        let mut player = MusicPlayer::empty();
        let mut failed = false;
        let ghost mut n: int = 0;
        for root in it: roots
            invariant
                root_views(it.seq()) == all,
                0 <= n <= it.index(),
                !failed ==> n == it.index(),
                failed ==> n < it.index() && !(all[n].walk is Complete),
                forall|j: int| 0 <= j < n ==> (#[trigger] all[j]).walk is Complete,
                player@ == PlayerView::loaded(all, n as nat),
                player@.valid(),
        {
            if !failed {
                match player.add_directory(root.dir, root.walk) {
                    Ok(_) => {
                        proof {
                            n = n + 1;
                        }
                    },
                    Err(_) => {
                        failed = true;
                    },
                }
            }
        }
        proof {
            lemma_walked(all, n);
        }
        if failed {
            (player, Err(PlayerError::Io))
        } else {
            (player, Ok(()))
        }
    }

    /// Adds a source directory with the tracks that its walk found. A
    /// directory that does not exist, or that could not be walked to the end,
    /// is refused and nothing changes.
    pub fn add_directory(&mut self, dir: String, walk: Walk) -> (done: Result<(), PlayerError>)
        ensures
            match walk@ {
                WalkView::Missing => done == Err::<(), PlayerError>(PlayerError::NotFound)
                    && final(self)@ == old(self)@,
                WalkView::Failed => done == Err::<(), PlayerError>(PlayerError::Io)
                    && final(self)@ == old(self)@,
                WalkView::Complete(found) => done == Ok::<(), PlayerError>(()) && final(self)@
                    == old(self)@.added(dir@, found),
            },
            old(self)@.valid() ==> final(self)@.valid(),
    {
        match walk {
            Walk::Missing => Err(PlayerError::NotFound),
            Walk::Failed => Err(PlayerError::Io),
            Walk::Complete(found) => {
                let ghost candidates = candidate_views(found@);
                let mut fresh = scan_directory(dir.as_str(), found);
                let ghost added = fresh@;
                self.songs.append(&mut fresh);
                self.music_dirs.push(dir);
                proof {
                    assert(views(old(self).songs@ + added) =~= views(old(self).songs@) + views(
                        added,
                    ));
                    assert(self@.music_dirs =~= old(self)@.music_dirs.push(dir@));
                    if old(self)@.valid() {
                        lemma_added_valid(old(self)@, dir@, candidates);
                    }
                }
                Ok(())
            },
        }
    }

    /// Removes the source directory at `index` with every track that lies
    /// under it. An index that names no directory is refused and nothing
    /// changes.
    pub fn remove_directory(&mut self, index: usize) -> (done: Result<(), PlayerError>)
        ensures
            index >= old(self)@.music_dirs.len() ==> done == Err::<(), PlayerError>(
                PlayerError::Index,
            ) && final(self)@ == old(self)@,
            index < old(self)@.music_dirs.len() ==> done == Ok::<(), PlayerError>(())
                && final(self)@ == old(self)@.removed(index as int),
            old(self)@.valid() ==> final(self)@.valid(),
    {
        if index >= self.music_dirs.len() {
            return Err(PlayerError::Index);
        }
        let dir = self.music_dirs.remove(index);
        assert(self@.music_dirs =~= old(self)@.music_dirs.remove(index as int));
        let mut all: Vec<Song> = Vec::new();
        core::mem::swap(&mut self.songs, &mut all);
        let ghost songs = all@;
        let ghost before = views(songs);
        let mut kept: Vec<Song> = Vec::new();
        assert(views(all@.take(0)).filter(outside(dir@)) =~= Seq::empty()) by {
            reveal(Seq::filter);
        }
        for song in it: all
            invariant
                it.seq() == songs,
                views(it.seq()) == before,
                views(kept@) == views(it.seq().take(it.index())).filter(outside(dir@)),
        {
            let ghost seen = views(it.seq().take(it.index()));
            proof {
                assert(views(it.seq().take(it.index() + 1)) =~= seen.push(song@));
                seen.lemma_filter_push(song@, outside(dir@));
            }
            if !paths::is_under(song.path.as_str(), dir.as_str()) {
                kept.push(song);
            }
        }
        self.songs = kept;
        let len: usize = self.songs.len();
        if self.current_index >= len {
            self.current_index = if len == 0 {
                0
            } else {
                len - 1
            };
        }
        self.queue.retain_within(len);
        proof {
            assert(songs.take(songs.len() as int) =~= songs);
            if old(self)@.valid() {
                lemma_removed_valid(old(self)@, index as int);
            }
        }
        Ok(())
    }

    /// Starts the current track. With no track nothing happens.
    pub fn play_current(&mut self) -> (sent: Option<PlayerMessage>)
        ensures
            final(self)@ == old(self)@.played(),
            message_of(sent) == old(self)@.play_message(),
    {
        if self.current_index < self.songs.len() {
            self.is_playing = true;
            Some(PlayerMessage::Play(self.songs[self.current_index].path.clone()))
        } else {
            None
        }
    }

    /// Stops playback.
    pub fn stop(&mut self) -> (sent: PlayerMessage)
        ensures
            final(self)@ == old(self)@.stopped(),
            sent@ == MessageView::Stop,
    {
        self.is_playing = false;
        PlayerMessage::Stop
    }

    /// Starts the track under the cursor if the controller is playing.
    fn resume(&mut self) -> (sent: Option<PlayerMessage>)
        ensures
            final(self)@ == old(self)@,
            message_of(sent) == old(self)@.resume_message(),
    {
        if self.is_playing {
            self.play_current()
        } else {
            None
        }
    }

    /// Moves to the next track and, if the controller is playing, starts it.
    pub fn next(&mut self) -> (sent: Option<PlayerMessage>)
        ensures
            final(self)@ == old(self)@.advanced(),
            message_of(sent) == old(self)@.advanced().resume_message(),
            old(self)@.valid() ==> final(self)@.valid(),
    {
        if self.songs.len() == 0 {
            return None;
        }
        let following: usize = if self.current_index < self.songs.len() - 1 {
            self.current_index + 1
        } else {
            0
        };
        self.current_index = self.queue.dequeue_or_default(following);
        self.resume()
    }

    /// Moves to the preceding track and, if the controller is playing, starts
    /// it.
    pub fn previous(&mut self) -> (sent: Option<PlayerMessage>)
        ensures
            final(self)@ == old(self)@.retreated(),
            message_of(sent) == old(self)@.retreated().resume_message(),
            old(self)@.valid() ==> final(self)@.valid(),
    {
        if self.songs.len() == 0 {
            return None;
        }
        if self.current_index > 0 {
            self.current_index = self.current_index - 1;
        } else {
            self.current_index = self.songs.len() - 1;
        }
        self.resume()
    }

    /// Sets the cursor on `position` and starts the track there. A position
    /// outside the library is ignored: nothing changes and nothing is sent.
    pub fn select(&mut self, position: usize) -> (sent: Option<PlayerMessage>)
        ensures
            final(self)@ == old(self)@.selected(position),
            message_of(sent) == old(self)@.select_message(position),
            old(self)@.valid() ==> final(self)@.valid(),
    {
        proof {
            if old(self)@.valid() {
                lemma_playback_keeps_valid(old(self)@, position, 0);
            }
        }
        if position < self.songs.len() {
            self.current_index = position;
            self.play_current()
        } else {
            None
        }
    }

    /// Sets the cursor back on the first track and, if the controller is
    /// playing, starts it.
    pub fn rewind(&mut self) -> (sent: Option<PlayerMessage>)
        ensures
            final(self)@ == old(self)@.rewound(),
            message_of(sent) == old(self)@.rewound().resume_message(),
            old(self)@.valid() ==> final(self)@.valid(),
    {
        self.current_index = 0;
        self.resume()
    }

    /// Changes the volume by `delta` hundredths, holds it within bounds, and
    /// tells the engine the new volume whether or not anything plays.
    pub fn set_volume(&mut self, delta: i32) -> (sent: PlayerMessage)
        ensures
            final(self)@ == old(self)@.with_volume(delta),
            sent@ == MessageView::SetVolume(clamped(old(self)@.volume, delta)),
            final(self)@.volume <= MAX_VOLUME,
            old(self)@.valid() ==> final(self)@.valid(),
    {
        let sum: i64 = self.volume as i64 + delta as i64;
        if sum < 0 {
            self.volume = 0;
        } else if sum > MAX_VOLUME as i64 {
            self.volume = MAX_VOLUME;
        } else {
            self.volume = sum as u32;
        }
        proof {
            if old(self)@.valid() {
                lemma_playback_keeps_valid(old(self)@, 0, delta);
            }
        }
        PlayerMessage::SetVolume(self.volume)
    }

    /// Queues `position`. A position outside the library is dropped.
    pub fn add_to_queue(&mut self, position: usize)
        ensures
            final(self)@ == old(self)@.enqueued(position),
            old(self)@.valid() ==> final(self)@.valid(),
    {
        self.queue.enqueue(position, self.songs.len());
        proof {
            if old(self)@.valid() {
                lemma_playback_keeps_valid(old(self)@, position, 0);
            }
        }
    }

    /// Puts the tracks in a random order and the cursor on the first; if the
    /// controller is playing, the track that now stands first is started.
    pub fn shuffle(&mut self) -> (sent: Option<PlayerMessage>)
        ensures
            final(self)@.is_shuffle_of(old(self)@),
            message_of(sent) == final(self)@.resume_message(),
            old(self)@.valid() ==> final(self)@.valid(),
    {
        let mut rng = rand::thread_rng();
        random::shuffle_songs(&mut self.songs, &mut rng);
        let sent = self.rewind();
        proof {
            if old(self)@.valid() {
                lemma_shuffle_valid(old(self)@, self@);
            }
        }
        sent
    }

    /// The tracks, in library order.
    pub fn songs(&self) -> (songs: &Vec<Song>)
        ensures
            views(songs@) == self@.songs,
    {
        &self.songs
    }

    /// How many tracks there are.
    pub fn len(&self) -> (n: usize)
        ensures
            n == self@.songs.len(),
    {
        self.songs.len()
    }

    /// The source directories, in the order in which they were added.
    pub fn music_dirs(&self) -> (dirs: &Vec<String>)
        ensures
            dirs@.map_values(|d: String| d@) == self@.music_dirs,
    {
        &self.music_dirs
    }

    /// The position of the cursor.
    pub fn current_index(&self) -> (position: usize)
        ensures
            position == self@.current_index,
    {
        self.current_index
    }

    /// The track under the cursor, if the cursor stands on one.
    pub fn current_song(&self) -> (song: Option<&Song>)
        ensures
            match song {
                Some(s) => self@.current_index < self@.songs.len() && s@
                    == self@.songs[self@.current_index as int],
                None => self@.current_index >= self@.songs.len(),
            },
    {
        if self.current_index < self.songs.len() {
            Some(&self.songs[self.current_index])
        } else {
            None
        }
    }

    /// Whether the controller is playing.
    pub fn is_playing(&self) -> (playing: bool)
        ensures
            playing == self@.is_playing,
    {
        self.is_playing
    }

    /// The volume, in hundredths of full scale.
    pub fn volume(&self) -> (level: u32)
        ensures
            level == self@.volume,
    {
        self.volume
    }

    /// The queued positions, the next to be played first.
    pub fn queue(&self) -> (queue: &PlaybackQueue)
        ensures
            queue@ == self@.queue,
    {
        &self.queue
    }
}

/// Moving the cursor, starting and stopping, changing the volume and
/// queueing keep a valid state valid: the cursor stays on a track and the
/// queue holds positions of the library only.
pub proof fn lemma_playback_keeps_valid(v: PlayerView, position: usize, delta: i32)
    requires
        v.valid(),
    ensures
        v.played().valid(),
        v.stopped().valid(),
        v.advanced().valid(),
        v.retreated().valid(),
        v.selected(position).valid(),
        v.rewound().valid(),
        v.with_volume(delta).valid(),
        v.enqueued(position).valid(),
{
}

/// Shuffling keeps a valid state valid.
pub proof fn lemma_shuffle_valid(before: PlayerView, after: PlayerView)
    requires
        before.valid(),
        after.is_shuffle_of(before),
    ensures
        after.valid(),
        after.songs.len() == before.songs.len(),
{
    broadcast use vstd::seq_lib::to_multiset_len, vstd::seq_lib::to_multiset_contains;

    assert(before.songs.len() == before.songs.to_multiset().len());
    assert forall|i: int| 0 <= i < after.songs.len() implies indexed(
        #[trigger] after.songs[i],
        after.music_dirs,
    ) by {
        let song = after.songs[i];
        assert(before.songs.to_multiset().count(song) > 0);
    }
}

/// The roots before the first whose walk did not end are those that
/// `walked` counts.
pub proof fn lemma_walked(roots: Seq<RootView>, n: int)
    requires
        0 <= n <= roots.len(),
        forall|j: int| 0 <= j < n ==> (#[trigger] roots[j]).walk is Complete,
        n < roots.len() ==> !(roots[n].walk is Complete),
    ensures
        walked(roots) == n,
    decreases n,
{
    if n > 0 {
        lemma_walked(roots.skip(1), n - 1);
    }
}

/// Adding a walked directory keeps a valid state valid.
pub proof fn lemma_added_valid(v: PlayerView, dir: Seq<char>, found: Seq<CandidateView>)
    requires
        v.valid(),
    ensures
        v.added(dir, found).valid(),
{
    let after = v.added(dir, found);
    assert forall|i: int| 0 <= i < after.songs.len() implies indexed(
        #[trigger] after.songs[i],
        after.music_dirs,
    ) by {
        if i < v.songs.len() {
            let d = choose|d: int|
                0 <= d < v.music_dirs.len() && paths::starts_with(
                    v.songs[i].path,
                    #[trigger] v.music_dirs[d],
                );
            assert(after.music_dirs[d] == v.music_dirs[d]);
        } else {
            lemma_tracks_accepted(dir, found, i - v.songs.len());
            assert(after.music_dirs[v.music_dirs.len() as int] == dir);
        }
    }
}

/// Removing a source directory keeps a valid state valid.
pub proof fn lemma_removed_valid(v: PlayerView, index: int)
    requires
        v.valid(),
        0 <= index < v.music_dirs.len(),
    ensures
        v.removed(index).valid(),
{
    let after = v.removed(index);
    let dir = v.music_dirs[index];
    assert forall|k: int| 0 <= k < after.queue.len() implies #[trigger] after.queue[k]
        < after.songs.len() by {
        v.queue.lemma_filter_pred(within(after.songs.len()), k);
    }
    assert forall|i: int| 0 <= i < after.songs.len() implies indexed(
        #[trigger] after.songs[i],
        after.music_dirs,
    ) by {
        let song = after.songs[i];
        v.songs.lemma_filter_pred(outside(dir), i);
        v.songs.lemma_filter_contains_rev(outside(dir), song);
        let j = choose|j: int| 0 <= j < v.songs.len() && v.songs[j] == song;
        let d = choose|d: int|
            0 <= d < v.music_dirs.len() && paths::starts_with(
                v.songs[j].path,
                #[trigger] v.music_dirs[d],
            );
        if d < index {
            assert(after.music_dirs[d] == v.music_dirs[d]);
        } else {
            assert(after.music_dirs[d - 1] == v.music_dirs[d]);
        }
    }
}

} // verus!
