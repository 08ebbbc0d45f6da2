//! What holds of the library as a whole: statements that relate several of
//! its operations, each proved from the definitions that the operations'
//! contracts use.

use vstd::prelude::*;
use crate::engine::{sinks_after, ActionView, AudioEngine};
use crate::library::{is_audio_path, tracks_of, CandidateView};
use crate::paths;
use crate::player::{clamped, following, outside, preceding, MessageView, PlayerView, MAX_VOLUME};
use crate::queue::front_or;
use crate::song::SongView;

verus! {

/// Whether no two of the songs have the same path.
pub open spec fn distinct_paths(songs: Seq<SongView>) -> bool {
    forall|i: int, j: int|
        0 <= i < songs.len() && 0 <= j < songs.len() && i != j ==> songs[i].path != songs[j].path
}

/// The test for the tracks that go when the directory `dir` is removed.
pub open spec fn inside(dir: Seq<char>) -> spec_fn(SongView) -> bool {
    |s: SongView| paths::starts_with(s.path, dir)
}

/// Every track that the walk of a directory yields has one of the audio
/// extensions and lies under that directory.
pub proof fn lemma_scan_yields_audio_under_root(dir: Seq<char>, found: Seq<CandidateView>)
    ensures
        forall|i: int|
            0 <= i < tracks_of(dir, found).len() ==> is_audio_path(
                (#[trigger] tracks_of(dir, found)[i]).path,
            ) && paths::starts_with(tracks_of(dir, found)[i].path, dir),
{
    assert forall|i: int| 0 <= i < tracks_of(dir, found).len() implies is_audio_path(
        (#[trigger] tracks_of(dir, found)[i]).path,
    ) && paths::starts_with(tracks_of(dir, found)[i].path, dir) by {
        crate::library::lemma_tracks_accepted(dir, found, i);
    }
}

/// The songs that a test holds of and those that it does not hold of are
/// together the songs, each as often as before.
pub proof fn lemma_split_keeps_songs(songs: Seq<SongView>, dir: Seq<char>)
    ensures
        songs.filter(outside(dir)).to_multiset().add(songs.filter(inside(dir)).to_multiset())
            == songs.to_multiset(),
    decreases songs.len(),
{
    broadcast use vstd::seq_lib::to_multiset_build;

    if songs.len() == 0 {
        reveal(Seq::filter);
        assert(songs.to_multiset().add(songs.to_multiset()) =~= songs.to_multiset()) by {
            songs.to_multiset_ensures();
            vstd::multiset::lemma_multiset_empty_len(songs.to_multiset());
        }
    } else {
        let rest = songs.drop_last();
        let last = songs.last();
        assert(songs =~= rest.push(last));
        lemma_split_keeps_songs(rest, dir);
        rest.lemma_filter_push(last, outside(dir));
        rest.lemma_filter_push(last, inside(dir));
    }
}

/// Songs with distinct paths, put in another order, have distinct paths.
pub proof fn lemma_reordered_distinct(before: Seq<SongView>, after: Seq<SongView>)
    requires
        distinct_paths(before),
        before.to_multiset() == after.to_multiset(),
    ensures
        distinct_paths(after),
{
    broadcast use vstd::seq_lib::to_multiset_contains;

    before.lemma_multiset_has_no_duplicates();
    after.lemma_multiset_has_no_duplicates_conv();
    assert forall|i: int, j: int|
        0 <= i < after.len() && 0 <= j < after.len() && i != j implies after[i].path
        != after[j].path by {
        assert(before.to_multiset().count(after[i]) > 0);
        assert(before.to_multiset().count(after[j]) > 0);
    }
}

/// Removing a source directory and adding it again restores the tracks, in
/// another order at most, with no path twice: provided that the library held
/// no path twice, and that the walk finds again just the tracks that went
/// with the directory. The directory then stands last among the sources.
pub proof fn lemma_remove_then_add_restores(v: PlayerView, index: int, found: Seq<CandidateView>)
    requires
        0 <= index < v.music_dirs.len(),
        distinct_paths(v.songs),
        tracks_of(v.music_dirs[index], found).to_multiset() == v.songs.filter(
            inside(v.music_dirs[index]),
        ).to_multiset(),
    ensures
        v.removed(index).added(v.music_dirs[index], found).songs.to_multiset()
            == v.songs.to_multiset(),
        distinct_paths(v.removed(index).added(v.music_dirs[index], found).songs),
        v.removed(index).added(v.music_dirs[index], found).music_dirs == v.music_dirs.remove(
            index,
        ).push(v.music_dirs[index]),
        v.valid() ==> v.removed(index).added(v.music_dirs[index], found).valid(),
{
    let dir = v.music_dirs[index];
    let kept = v.songs.filter(outside(dir));
    let fresh = tracks_of(dir, found);
    let after = v.removed(index).added(dir, found);
    vstd::seq_lib::lemma_multiset_commutative(kept, fresh);
    lemma_split_keeps_songs(v.songs, dir);
    lemma_reordered_distinct(v.songs, after.songs);
    if v.valid() {
        crate::player::lemma_removed_valid(v, index);
        crate::player::lemma_added_valid(v.removed(index), dir, found);
    }
}

/// Among `len` positions, the position after `position` is the remainder of
/// `position + 1` by `len`.
pub proof fn lemma_following_is_modular(position: usize, len: nat)
    requires
        position < len <= usize::MAX,
    ensures
        following(position, len) == (position + 1) % (len as int),
{
    if position + 1 < len {
        vstd::arithmetic::div_mod::lemma_small_mod((position + 1) as nat, len);
    } else {
        vstd::arithmetic::div_mod::lemma_mod_self_0(len as int);
    }
}

/// Among `len` positions, the position before the one after `position` is
/// `position`, and so is the position after the one before it.
pub proof fn lemma_preceding_undoes_following(position: usize, len: nat)
    requires
        position < len <= usize::MAX,
    ensures
        preceding(following(position, len), len) == position,
        following(preceding(position, len), len) == position,
{
}

/// With tracks and an empty queue, the step to the next track and the step
/// to the preceding track undo each other, at both ends of the library too.
pub proof fn lemma_next_and_previous_are_inverse(v: PlayerView)
    requires
        0 < v.songs.len() <= usize::MAX,
        v.current_index < v.songs.len(),
        v.queue.len() == 0,
    ensures
        v.advanced().retreated() == v,
        v.retreated().advanced() == v,
{
}

/// Stopping twice is stopping once.
pub proof fn lemma_stop_is_idempotent(v: PlayerView)
    ensures
        v.stopped().stopped() == v.stopped(),
        !v.stopped().is_playing,
{
}

/// What is queued is played in the order in which it was queued: a position
/// queued behind others is taken after them, and one queued alone is taken
/// next.
pub proof fn lemma_queue_is_first_in_first_out(v: PlayerView, position: usize)
    requires
        position < v.songs.len(),
    ensures
        v.queue.len() > 0 ==> v.enqueued(position).advanced() == v.advanced().enqueued(position),
        v.queue.len() == 0 ==> v.enqueued(position).advanced().current_index == position
            && v.enqueued(position).advanced().queue == v.queue,
{
    if v.queue.len() > 0 {
        assert(v.queue.push(position).skip(1) =~= v.queue.skip(1).push(position));
    }
}

/// The volume stays within bounds whatever the change asked for; a change by
/// the whole scale upwards gives the full volume and a second one changes
/// nothing, and likewise downwards.
pub proof fn lemma_volume_saturates(volume: u32, delta: i32)
    ensures
        clamped(volume, delta) <= MAX_VOLUME,
        delta >= MAX_VOLUME ==> clamped(volume, delta) == MAX_VOLUME,
        delta >= MAX_VOLUME ==> clamped(clamped(volume, delta), delta) == clamped(volume, delta),
        delta <= -MAX_VOLUME && volume <= MAX_VOLUME ==> clamped(volume, delta) == 0,
        delta <= -MAX_VOLUME && volume <= MAX_VOLUME ==> clamped(clamped(volume, delta), delta)
            == clamped(volume, delta),
{
}

/// Queueing a position outside the library changes nothing.
pub proof fn lemma_enqueue_out_of_range(v: PlayerView, position: usize)
    requires
        position >= v.songs.len(),
    ensures
        v.enqueued(position) == v,
{
}

/// With a queue that holds something, the step to the next track takes
/// exactly the front of the queue and sets the cursor there, wherever the
/// cursor stood.
pub proof fn lemma_next_takes_front(v: PlayerView)
    requires
        v.songs.len() > 0,
        v.queue.len() > 0,
    ensures
        v.advanced().current_index == v.queue[0],
        v.advanced().current_index == front_or(v.queue, v.current_index),
        v.advanced().queue == v.queue.skip(1),
        v.advanced().queue.len() == v.queue.len() - 1,
        v.advanced().songs == v.songs,
{
}

/// Without a track, starting, stepping forth and stepping back change
/// nothing and send nothing.
pub proof fn lemma_empty_library_is_inert(v: PlayerView)
    requires
        v.songs.len() == 0,
    ensures
        v.played() == v,
        v.advanced() == v,
        v.retreated() == v,
        v.play_message() is None,
        v.resume_message() is None,
{
}

/// Whether the device holds at most one sink after each of the actions
/// `todo`, if it held `held` before.
pub open spec fn never_two_sinks(held: int, todo: Seq<ActionView>) -> bool {
    forall|n: int| 0 <= n <= todo.len() ==> 0 <= #[trigger] sinks_after(held, todo.take(n)) <= 1
}

/// Whatever message comes, the device never holds two sinks, the engine
/// knows how many it holds, and the engine stays valid.
pub proof fn lemma_one_sink_on_message(engine: AudioEngine, message: MessageView)
    requires
        engine.valid(),
    ensures
        never_two_sinks(engine.sinks(), engine.actions(message)),
        sinks_after(engine.sinks(), engine.actions(message)) == engine.after(message).sinks(),
        engine.after(message).valid(),
{
    let todo = engine.actions(message);
    let held = engine.sinks();
    assert forall|n: int| 0 <= n <= todo.len() implies 0 <= #[trigger] sinks_after(
        held,
        todo.take(n),
    ) <= 1 by {
        lemma_sinks_counted(held, todo, n);
    }
    lemma_sinks_counted(held, todo, todo.len() as int);
    assert(todo.take(todo.len() as int) =~= todo);
}

/// Whatever the outcome of a decoding, the device never holds two sinks, the
/// engine knows how many it holds, and the engine stays valid.
pub proof fn lemma_one_sink_on_outcome(engine: AudioEngine, ok: bool)
    requires
        engine.valid(),
    ensures
        never_two_sinks(engine.sinks(), engine.actions_decoded(ok)),
        sinks_after(engine.sinks(), engine.actions_decoded(ok)) == engine.after_decoded(
            ok,
        ).sinks(),
        engine.after_decoded(ok).valid(),
{
    let todo = engine.actions_decoded(ok);
    let held = engine.sinks();
    assert forall|n: int| 0 <= n <= todo.len() implies 0 <= #[trigger] sinks_after(
        held,
        todo.take(n),
    ) <= 1 by {
        lemma_sinks_counted(held, todo, n);
    }
    lemma_sinks_counted(held, todo, todo.len() as int);
    assert(todo.take(todo.len() as int) =~= todo);
}

/// The count of sinks after the first `n` of at most two actions, written
/// out.
proof fn lemma_sinks_counted(held: int, todo: Seq<ActionView>, n: int)
    requires
        0 <= n <= todo.len() <= 2,
    ensures
        sinks_after(held, todo.take(n)) == held + effect(todo, 0, n) + effect(todo, 1, n),
{
    reveal_with_fuel(sinks_after, 3);
}

/// What the action at `at` adds to the count of sinks, if it is among the
/// first `n`.
spec fn effect(todo: Seq<ActionView>, at: int, n: int) -> int {
    if at < n && at < todo.len() {
        match todo[at] {
            ActionView::DiscardSink => -1,
            ActionView::StartSink(_) => 1,
            _ => 0,
        }
    } else {
        0
    }
}

} // verus!
