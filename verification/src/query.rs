//! Views derived from the track list: the distinct artists, albums and
//! genres, the tracks of one artist, and the tracks that a query finds.
//! Nothing here is kept; each view is computed from the tracks when asked for.

use vstd::prelude::*;
use crate::player::MusicPlayer;
use crate::song::{views, Song, SongView};
use crate::text;
use crate::text::{precedes, Relation};

verus! {

/// A field by which tracks are grouped.
#[derive(Clone, Copy, Debug, PartialEq, Eq, Structural)]
pub enum Field {
    Artist,
    Album,
    Genre,
}

/// The value of `field` in `song`.
pub open spec fn field_of(song: SongView, field: Field) -> Seq<char> {
    match field {
        Field::Artist => song.artist,
        Field::Album => song.album,
        Field::Genre => song.genre,
    }
}

/// The views of a sequence of strings.
pub open spec fn texts(v: Seq<String>) -> Seq<Seq<char>> {
    v.map_values(|s: String| s@)
}

/// Whether each text of `s` precedes all that come after it. Such a sequence
/// is sorted and holds no text twice.
pub open spec fn ascending(s: Seq<Seq<char>>) -> bool {
    forall|i: int, j: int| 0 <= i < j < s.len() ==> precedes(s[i], s[j])
}

/// Whether some song of `songs` has the value `value` in `field`.
pub open spec fn occurs(songs: Seq<SongView>, field: Field, value: Seq<char>) -> bool {
    exists|i: int| 0 <= i < songs.len() && field_of(#[trigger] songs[i], field) == value
}

/// Whether `values` are the distinct values of `field` among `songs`, in
/// ascending order.
pub open spec fn is_grouping(songs: Seq<SongView>, field: Field, values: Seq<Seq<char>>) -> bool {
    &&& ascending(values)
    &&& forall|t: Seq<char>| values.contains(t) <==> occurs(songs, field, t)
}

/// Two ascending sequences that hold the same texts are the same sequence.
pub proof fn lemma_ascending_unique(a: Seq<Seq<char>>, b: Seq<Seq<char>>)
    requires
        ascending(a),
        ascending(b),
        forall|t: Seq<char>| a.contains(t) <==> b.contains(t),
    ensures
        a == b,
    decreases a.len(),
{
    if a.len() == 0 {
        if b.len() > 0 {
            assert(b.contains(b[0]));
        }
        assert(a =~= b);
    } else {
        assert(a.contains(a[0]));
        let k = choose|k: int| 0 <= k < b.len() && b[k] == a[0];
        assert(b.contains(b[0]));
        let m = choose|m: int| 0 <= m < a.len() && a[m] == b[0];
        if a[0] != b[0] {
            assert(precedes(b[0], b[k]));
            assert(precedes(a[0], a[m]));
            text::lemma_precedes_asymmetric(a[0], b[0]);
        }
        let rest_a = a.skip(1);
        let rest_b = b.skip(1);
        assert forall|t: Seq<char>| rest_a.contains(t) <==> rest_b.contains(t) by {
            text::lemma_precedes_irreflexive(t);
            if rest_a.contains(t) {
                let i = choose|i: int| 0 <= i < rest_a.len() && rest_a[i] == t;
                assert(a[i + 1] == t);
                assert(precedes(a[0], a[i + 1]));
                assert(a.contains(t));
                let j = choose|j: int| 0 <= j < b.len() && b[j] == t;
                assert(rest_b[j - 1] == t);
            }
            if rest_b.contains(t) {
                let i = choose|i: int| 0 <= i < rest_b.len() && rest_b[i] == t;
                assert(b[i + 1] == t);
                assert(precedes(b[0], b[i + 1]));
                assert(b.contains(t));
                let j = choose|j: int| 0 <= j < a.len() && a[j] == t;
                assert(rest_a[j - 1] == t);
            }
        }
        assert forall|i: int, j: int| 0 <= i < j < rest_a.len() implies precedes(
            rest_a[i],
            rest_a[j],
        ) by {
            assert(precedes(a[i + 1], a[j + 1]));
        }
        assert forall|i: int, j: int| 0 <= i < j < rest_b.len() implies precedes(
            rest_b[i],
            rest_b[j],
        ) by {
            assert(precedes(b[i + 1], b[j + 1]));
        }
        lemma_ascending_unique(rest_a, rest_b);
        assert(a =~= seq![a[0]] + rest_a);
        assert(b =~= seq![b[0]] + rest_b);
    }
}

/// The songs and the field determine the grouping.
pub proof fn lemma_grouping_unique(
    songs: Seq<SongView>,
    field: Field,
    x: Seq<Seq<char>>,
    y: Seq<Seq<char>>,
)
    requires
        is_grouping(songs, field, x),
        is_grouping(songs, field, y),
    ensures
        x == y,
{
    lemma_ascending_unique(x, y);
}

/// Puts `value` in its place in an ascending vector, unless it is there
/// already.
fn insert_sorted(values: &mut Vec<String>, value: String)
    requires
        ascending(texts(old(values)@)),
    ensures
        ascending(texts(final(values)@)),
        forall|t: Seq<char>|
            texts(final(values)@).contains(t) <==> texts(old(values)@).contains(t) || t == value@,
{
    let ghost before = texts(values@);
    let mut j: usize = 0;
    while j < values.len()
        invariant
            j <= values.len(),
            values@ == old(values)@,
            before == texts(values@),
            ascending(before),
            forall|k: int| 0 <= k < j ==> precedes(#[trigger] before[k], value@),
        ensures
            j < values.len() ==> precedes(value@, before[j as int]),
        decreases values.len() - j,
    {
        match text::compare_text(values[j].as_str(), value.as_str()) {
            Relation::Before => {},
            Relation::Same => {
                assert(before[j as int] == value@);
                return ;
            },
            Relation::After => {
                break ;
            },
        }
        j += 1;
    }
    values.insert(j, value);
    proof {
        let after = texts(values@);
        assert(after =~= before.insert(j as int, value@));
        lemma_inserted_ascending(before, j as int, value@);
        assert forall|t: Seq<char>| after.contains(t) <==> before.contains(t) || t == value@ by {
            if after.contains(t) {
                let k = choose|k: int| 0 <= k < after.len() && after[k] == t;
                if k < j {
                    assert(before[k] == t);
                } else if k > j {
                    assert(before[k - 1] == t);
                }
            }
            if before.contains(t) {
                let k = choose|k: int| 0 <= k < before.len() && before[k] == t;
                if k < j {
                    assert(after[k] == t);
                } else {
                    assert(after[k + 1] == t);
                }
            }
            if t == value@ {
                assert(after[j as int] == t);
            }
        }
    }
}

/// The distinct values of `field` among `songs`, sorted.
pub fn group_by(songs: &Vec<Song>, field: Field) -> (values: Vec<String>)
    ensures
        is_grouping(views(songs@), field, texts(values@)),
{
    let mut values: Vec<String> = Vec::new();
    let mut i: usize = 0;
    while i < songs.len()
        invariant
            i <= songs.len(),
            is_grouping(views(songs@).take(i as int), field, texts(values@)),
        decreases songs.len() - i,
    {
        let ghost seen = views(songs@).take(i as int);
        let ghost had = texts(values@);
        let value = match field {
            Field::Artist => songs[i].artist.clone(),
            Field::Album => songs[i].album.clone(),
            Field::Genre => songs[i].genre.clone(),
        };
        assert(value@ == field_of(views(songs@)[i as int], field));
        insert_sorted(&mut values, value);
        proof {
            let now = views(songs@).take(i + 1);
            let have = texts(values@);
            assert forall|t: Seq<char>| have.contains(t) <==> occurs(now, field, t) by {
                if occurs(now, field, t) {
                    let m = choose|m: int|
                        0 <= m < now.len() && field_of(#[trigger] now[m], field) == t;
                    if m < i {
                        assert(seen[m] == now[m]);
                        assert(occurs(seen, field, t));
                    }
                }
                if had.contains(t) {
                    let m = choose|m: int|
                        0 <= m < seen.len() && field_of(#[trigger] seen[m], field) == t;
                    assert(now[m] == seen[m]);
                }
                if t == value@ {
                    assert(field_of(now[i as int], field) == t);
                }
            }
        }
        i += 1;
    }
    assert(views(songs@).take(songs@.len() as int) =~= views(songs@));
    values
}

/// An album with the artist shown beside it.
#[derive(Debug, PartialEq, Eq)]
pub struct Album {
    pub album: String,
    pub artist: String,
}

/// The mathematical value of an [`Album`].
pub struct AlbumView {
    pub album: Seq<char>,
    pub artist: Seq<char>,
}

impl View for Album {
    type V = AlbumView;

    open spec fn view(&self) -> AlbumView {
        AlbumView { album: self.album@, artist: self.artist@ }
    }
}

/// The views of a sequence of albums.
pub open spec fn album_views(list: Seq<Album>) -> Seq<AlbumView> {
    list.map_values(|a: Album| a@)
}

/// The album names of a sequence of albums.
pub open spec fn album_names(list: Seq<AlbumView>) -> Seq<Seq<char>> {
    list.map_values(|a: AlbumView| a.album)
}

/// Whether `artist` is, among the artists of the songs of `album`, the one
/// that no other precedes.
pub open spec fn is_first_artist(
    songs: Seq<SongView>,
    album: Seq<char>,
    artist: Seq<char>,
) -> bool {
    &&& exists|i: int|
        0 <= i < songs.len() && (#[trigger] songs[i]).album == album && songs[i].artist == artist
    &&& forall|i: int|
        0 <= i < songs.len() && (#[trigger] songs[i]).album == album ==> !precedes(
            songs[i].artist,
            artist,
        )
}

/// Whether `list` holds the distinct albums of `songs` in ascending order,
/// each with the first of its artists.
pub open spec fn is_album_list(songs: Seq<SongView>, list: Seq<AlbumView>) -> bool {
    &&& is_grouping(songs, Field::Album, album_names(list))
    &&& forall|k: int|
        0 <= k < list.len() ==> is_first_artist(songs, (#[trigger] list[k]).album, list[k].artist)
}

/// The songs determine the album list.
pub proof fn lemma_album_list_unique(songs: Seq<SongView>, x: Seq<AlbumView>, y: Seq<AlbumView>)
    requires
        is_album_list(songs, x),
        is_album_list(songs, y),
    ensures
        x == y,
{
    lemma_ascending_unique(album_names(x), album_names(y));
    assert(x.len() == album_names(x).len());
    assert(y.len() == album_names(y).len());
    assert forall|k: int| 0 <= k < x.len() implies x[k] == y[k] by {
        assert(x[k].album == album_names(x)[k]);
        assert(y[k].album == album_names(y)[k]);
        let i = choose|i: int|
            0 <= i < songs.len() && (#[trigger] songs[i]).album == x[k].album && songs[i].artist
                == x[k].artist;
        let j = choose|j: int|
            0 <= j < songs.len() && (#[trigger] songs[j]).album == y[k].album && songs[j].artist
                == y[k].artist;
        if x[k].artist != y[k].artist {
            text::lemma_precedes_connected(x[k].artist, y[k].artist);
            assert(!precedes(songs[i].artist, y[k].artist));
            assert(!precedes(songs[j].artist, x[k].artist));
        }
    }
    assert(x =~= y);
}

/// Brings one more song into an album list: its album is put in its place if
/// it is new, and its artist replaces the one shown if it precedes that one.
fn insert_album(list: &mut Vec<Album>, song: &Song, Ghost(seen): Ghost<Seq<SongView>>)
    requires
        is_album_list(seen, album_views(old(list)@)),
    ensures
        is_album_list(seen.push(song@), album_views(final(list)@)),
{
    let ghost before = album_views(list@);
    let ghost names = album_names(before);
    let ghost now = seen.push(song@);
    let mut j: usize = 0;
    let mut present = false;
    while j < list.len()
        invariant_except_break
            !present,
        invariant
            j <= list.len(),
            list@ == old(list)@,
            forall|k: int| 0 <= k < j ==> precedes(#[trigger] names[k], song@.album),
            names == album_names(album_views(list@)),
        ensures
            j <= list.len(),
            list@ == old(list)@,
            forall|k: int| 0 <= k < j ==> precedes(#[trigger] names[k], song@.album),
            present ==> j < list.len() && names[j as int] == song@.album,
            !present && j < list.len() ==> precedes(song@.album, names[j as int]),
        decreases list.len() - j,
    {
        match text::compare_text(list[j].album.as_str(), song.album.as_str()) {
            Relation::Before => {},
            Relation::Same => {
                present = true;
                break ;
            },
            Relation::After => {
                break ;
            },
        }
        j += 1;
    }
    if present {
        let ghost shown = before[j as int].artist;
        match text::compare_text(song.artist.as_str(), list[j].artist.as_str()) {
            Relation::Before => {
                list.set(j, Album { album: song.album.clone(), artist: song.artist.clone() });
                proof {
                    let after = album_views(list@);
                    assert(after =~= before.update(j as int, song@.album_entry()));
                    assert(album_names(after) =~= names);
                    lemma_names_kept(seen, song@, names);
                    assert forall|k: int| 0 <= k < after.len() implies is_first_artist(
                        now,
                        (#[trigger] after[k]).album,
                        after[k].artist,
                    ) by {
                        if k == j {
                            assert(now[seen.len() as int] == song@);
                            assert forall|i: int|
                                0 <= i < now.len() && (#[trigger] now[i]).album
                                    == song@.album implies !precedes(
                                now[i].artist,
                                song@.artist,
                            ) by {
                                if i < seen.len() {
                                    assert(now[i] == seen[i]);
                                    if precedes(seen[i].artist, song@.artist) {
                                        text::lemma_precedes_transitive(
                                            seen[i].artist,
                                            song@.artist,
                                            shown,
                                        );
                                    }
                                } else {
                                    text::lemma_precedes_irreflexive(song@.artist);
                                }
                            }
                        } else {
                            assert(after[k] == before[k]);
                            assert(names[k] == before[k].album);
                            if k < j {
                                assert(precedes(names[k], names[j as int]));
                                text::lemma_precedes_irreflexive(names[k]);
                            } else {
                                assert(precedes(names[j as int], names[k]));
                                text::lemma_precedes_irreflexive(names[k]);
                            }
                            lemma_first_artist_kept(seen, song@, before[k].album, before[k].artist);
                        }
                    }
                }
            },
            _ => {
                proof {
                    lemma_names_kept(seen, song@, names);
                    assert forall|k: int| 0 <= k < before.len() implies is_first_artist(
                        now,
                        (#[trigger] before[k]).album,
                        before[k].artist,
                    ) by {
                        if k == j {
                            let w = choose|i: int|
                                0 <= i < seen.len() && (#[trigger] seen[i]).album == before[k].album
                                    && seen[i].artist == before[k].artist;
                            assert(now[w] == seen[w]);
                            assert forall|i: int|
                                0 <= i < now.len() && (#[trigger] now[i]).album
                                    == before[k].album implies !precedes(
                                now[i].artist,
                                before[k].artist,
                            ) by {
                                if i < seen.len() {
                                    assert(now[i] == seen[i]);
                                }
                            }
                        } else {
                            assert(names[k] == before[k].album);
                            if k < j {
                                assert(precedes(names[k], names[j as int]));
                                text::lemma_precedes_irreflexive(names[k]);
                            } else {
                                assert(precedes(names[j as int], names[k]));
                                text::lemma_precedes_irreflexive(names[k]);
                            }
                            lemma_first_artist_kept(seen, song@, before[k].album, before[k].artist);
                        }
                    }
                }
            },
        }
    } else {
        list.insert(j, Album { album: song.album.clone(), artist: song.artist.clone() });
        proof {
            let after = album_views(list@);
            let entry = song@.album_entry();
            assert(after =~= before.insert(j as int, entry));
            let renamed = album_names(after);
            assert(renamed =~= names.insert(j as int, song@.album));
            lemma_inserted_ascending(names, j as int, song@.album);
            assert(!names.contains(song@.album)) by {
                if names.contains(song@.album) {
                    let k = choose|k: int| 0 <= k < names.len() && names[k] == song@.album;
                    if k < j {
                        text::lemma_precedes_irreflexive(names[k]);
                    } else if k == j {
                        text::lemma_precedes_irreflexive(names[k]);
                    } else {
                        text::lemma_precedes_transitive(song@.album, names[j as int], names[k]);
                        text::lemma_precedes_irreflexive(names[k]);
                    }
                }
            }
            assert forall|t: Seq<char>| renamed.contains(t) <==> occurs(now, Field::Album, t) by {
                if renamed.contains(t) {
                    let k = choose|k: int| 0 <= k < renamed.len() && renamed[k] == t;
                    if k < j {
                        assert(names[k] == t);
                    } else if k > j {
                        assert(names[k - 1] == t);
                    }
                    if names.contains(t) {
                        let m = choose|m: int|
                            0 <= m < seen.len() && field_of(#[trigger] seen[m], Field::Album) == t;
                        assert(now[m] == seen[m]);
                    } else {
                        assert(field_of(now[seen.len() as int], Field::Album) == t);
                    }
                }
                if occurs(now, Field::Album, t) {
                    let m = choose|m: int|
                        0 <= m < now.len() && field_of(#[trigger] now[m], Field::Album) == t;
                    if m < seen.len() {
                        assert(seen[m] == now[m]);
                        assert(occurs(seen, Field::Album, t));
                        assert(names.contains(t));
                        let k = choose|k: int| 0 <= k < names.len() && names[k] == t;
                        if k < j {
                            assert(renamed[k] == t);
                        } else {
                            assert(renamed[k + 1] == t);
                        }
                    } else {
                        assert(renamed[j as int] == t);
                    }
                }
            }
            assert forall|k: int| 0 <= k < after.len() implies is_first_artist(
                now,
                (#[trigger] after[k]).album,
                after[k].artist,
            ) by {
                if k == j {
                    assert(now[seen.len() as int] == song@);
                    assert forall|i: int|
                        0 <= i < now.len() && (#[trigger] now[i]).album
                            == song@.album implies !precedes(now[i].artist, song@.artist) by {
                        if i < seen.len() {
                            assert(now[i] == seen[i]);
                            assert(occurs(seen, Field::Album, song@.album)) by {
                                assert(field_of(seen[i], Field::Album) == song@.album);
                            }
                        } else {
                            text::lemma_precedes_irreflexive(song@.artist);
                        }
                    }
                } else {
                    let k0 = if k < j { k } else { k - 1 };
                    assert(after[k] == before[k0]);
                    assert(names[k0] == before[k0].album);
                    assert(names.contains(names[k0]));
                    lemma_first_artist_kept(seen, song@, before[k0].album, before[k0].artist);
                }
            }
        }
    }
}

impl SongView {
    /// The album entry that this song alone would give.
    pub open spec fn album_entry(self) -> AlbumView {
        AlbumView { album: self.album, artist: self.artist }
    }
}

/// A song of another album leaves the first artist of this album as it was.
pub proof fn lemma_first_artist_kept(
    seen: Seq<SongView>,
    song: SongView,
    album: Seq<char>,
    artist: Seq<char>,
)
    requires
        is_first_artist(seen, album, artist),
        song.album != album,
    ensures
        is_first_artist(seen.push(song), album, artist),
{
    let now = seen.push(song);
    let w = choose|i: int|
        0 <= i < seen.len() && (#[trigger] seen[i]).album == album && seen[i].artist == artist;
    assert(now[w] == seen[w]);
    assert forall|i: int|
        0 <= i < now.len() && (#[trigger] now[i]).album == album implies !precedes(
        now[i].artist,
        artist,
    ) by {
        if i < seen.len() {
            assert(now[i] == seen[i]);
        }
    }
}

/// A song whose album is listed leaves the listed albums as they were.
pub proof fn lemma_names_kept(seen: Seq<SongView>, song: SongView, names: Seq<Seq<char>>)
    requires
        is_grouping(seen, Field::Album, names),
        names.contains(song.album),
    ensures
        is_grouping(seen.push(song), Field::Album, names),
{
    let now = seen.push(song);
    assert forall|t: Seq<char>| names.contains(t) <==> occurs(now, Field::Album, t) by {
        if names.contains(t) {
            let m = choose|m: int|
                0 <= m < seen.len() && field_of(#[trigger] seen[m], Field::Album) == t;
            assert(now[m] == seen[m]);
        }
        if occurs(now, Field::Album, t) {
            let m = choose|m: int|
                0 <= m < now.len() && field_of(#[trigger] now[m], Field::Album) == t;
            if m < seen.len() {
                assert(seen[m] == now[m]);
                assert(occurs(seen, Field::Album, t));
            }
        }
    }
}

/// A text put between those that precede it and those that it precedes
/// leaves an ascending sequence ascending.
pub proof fn lemma_inserted_ascending(s: Seq<Seq<char>>, at: int, value: Seq<char>)
    requires
        ascending(s),
        0 <= at <= s.len(),
        forall|k: int| 0 <= k < at ==> precedes(#[trigger] s[k], value),
        at < s.len() ==> precedes(value, s[at]),
    ensures
        ascending(s.insert(at, value)),
{
    let after = s.insert(at, value);
    assert forall|a: int, b: int| 0 <= a < b < after.len() implies precedes(after[a], after[b]) by {
        if b == at {
            assert(after[a] == s[a]);
        } else if a == at {
            assert(after[b] == s[b - 1]);
            if b - 1 > at {
                text::lemma_precedes_transitive(value, s[at], s[b - 1]);
            }
        } else {
            let x = if a < at { a } else { a - 1 };
            let y = if b < at { b } else { b - 1 };
            assert(after[a] == s[x] && after[b] == s[y]);
        }
    }
}

/// The distinct albums of `songs`, sorted, each with the first of its
/// artists.
pub fn albums(songs: &Vec<Song>) -> (list: Vec<Album>)
    ensures
        is_album_list(views(songs@), album_views(list@)),
{
    let mut list: Vec<Album> = Vec::new();
    let mut i: usize = 0;
    assert(album_names(album_views(list@)) =~= Seq::empty());
    while i < songs.len()
        invariant
            i <= songs.len(),
            is_album_list(views(songs@).take(i as int), album_views(list@)),
        decreases songs.len() - i,
    {
        insert_album(&mut list, &songs[i], Ghost(views(songs@).take(i as int)));
        assert(views(songs@).take(i + 1) =~= views(songs@).take(i as int).push(songs@[i as int]@));
        i += 1;
    }
    assert(views(songs@).take(songs@.len() as int) =~= views(songs@));
    list
}

/// The positions of the songs that `wanted` holds of, in library order.
pub open spec fn positions(songs: Seq<SongView>, wanted: spec_fn(SongView) -> bool) -> Seq<usize>
    decreases songs.len(),
{
    if songs.len() == 0 {
        Seq::empty()
    } else {
        let before = positions(songs.drop_last(), wanted);
        if wanted(songs.last()) {
            before.push((songs.len() - 1) as usize)
        } else {
            before
        }
    }
}

/// `positions` holds, in ascending order, exactly the positions of the songs
/// that `wanted` holds of.
pub proof fn lemma_positions(songs: Seq<SongView>, wanted: spec_fn(SongView) -> bool)
    requires
        songs.len() <= usize::MAX,
    ensures
        forall|k: int|
            0 <= k < positions(songs, wanted).len() ==> (#[trigger] positions(songs, wanted)[k])
                < songs.len() && wanted(songs[positions(songs, wanted)[k] as int]),
        forall|a: int, b: int|
            0 <= a < b < positions(songs, wanted).len() ==> positions(songs, wanted)[a]
                < positions(songs, wanted)[b],
        forall|i: int|
            0 <= i < songs.len() && wanted(#[trigger] songs[i]) ==> positions(
                songs,
                wanted,
            ).contains(i as usize),
    decreases songs.len(),
{
    if songs.len() > 0 {
        let rest = songs.drop_last();
        let before = positions(rest, wanted);
        let all = positions(songs, wanted);
        lemma_positions(rest, wanted);
        assert forall|i: int|
            0 <= i < songs.len() && wanted(#[trigger] songs[i]) implies all.contains(
            i as usize,
        ) by {
            if i < rest.len() {
                assert(rest[i] == songs[i]);
                let k = choose|k: int| 0 <= k < before.len() && before[k] == i as usize;
                assert(all[k] == i as usize);
            } else {
                assert(all[all.len() - 1] == i as usize);
            }
        }
        assert forall|k: int| 0 <= k < all.len() implies (#[trigger] all[k]) < songs.len()
            && wanted(songs[all[k] as int]) by {
            if k < before.len() {
                assert(all[k] == before[k]);
                assert(rest[before[k] as int] == songs[before[k] as int]);
            }
        }
        assert forall|a: int, b: int| 0 <= a < b < all.len() implies all[a] < all[b] by {
            assert(all[a] == before[a]);
            if b < before.len() {
                assert(all[b] == before[b]);
            }
        }
    }
}

/// Whether `hits` are the songs of `songs` that `wanted` holds of, each with
/// its position, in library order.
pub open spec fn is_selection(
    songs: Seq<SongView>,
    wanted: spec_fn(SongView) -> bool,
    hits: Seq<(usize, &Song)>,
) -> bool {
    let found = positions(songs, wanted);
    &&& hits.len() == found.len()
    &&& forall|k: int|
        0 <= k < hits.len() ==> (#[trigger] hits[k]).0 == found[k] && hits[k].1@
            == songs[found[k] as int]
}

/// The test for the songs of one artist: the artist is spelled exactly so.
pub open spec fn by_artist(artist: Seq<char>) -> spec_fn(SongView) -> bool {
    |s: SongView| s.artist == artist
}

/// The songs of `artist`, each with its position, in library order.
pub fn tracks_by_artist<'a>(songs: &'a Vec<Song>, artist: &str) -> (hits: Vec<(usize, &'a Song)>)
    ensures
        is_selection(views(songs@), by_artist(artist@), hits@),
{
    let ghost wanted = by_artist(artist@);
    let mut hits: Vec<(usize, &'a Song)> = Vec::new();
    let mut i: usize = 0;
    while i < songs.len()
        invariant
            i <= songs.len(),
            wanted == by_artist(artist@),
            is_selection(views(songs@.take(i as int)), wanted, hits@),
        decreases songs.len() - i,
    {
        proof {
            lemma_selection_step(songs@, wanted, i as int);
        }
        if text::same_text(songs[i].artist.as_str(), artist) {
            hits.push((i, &songs[i]));
        }
        i += 1;
    }
    assert(songs@.take(songs@.len() as int) =~= songs@);
    hits
}

/// How the positions found among the first `i + 1` songs come from those
/// found among the first `i`.
pub proof fn lemma_selection_step(songs: Seq<Song>, wanted: spec_fn(SongView) -> bool, i: int)
    requires
        0 <= i < songs.len(),
    ensures
        positions(views(songs.take(i + 1)), wanted) == if wanted(songs[i]@) {
            positions(views(songs.take(i)), wanted).push(i as usize)
        } else {
            positions(views(songs.take(i)), wanted)
        },
        forall|k: int|
            0 <= k < positions(views(songs.take(i)), wanted).len() ==> (#[trigger] positions(
                views(songs.take(i)),
                wanted,
            )[k]) < i,
{
    let now = views(songs.take(i + 1));
    assert(now.drop_last() =~= views(songs.take(i)));
    assert(now.last() == songs[i]@);
    if i <= usize::MAX {
        lemma_positions(views(songs.take(i)), wanted);
    }
}

/// Whether one of the lowercased title, artist and album of `song` holds
/// `needle`.
pub open spec fn mentions(song: SongView, needle: Seq<char>) -> bool {
    ||| text::is_substring(text::lowercase(song.title), needle)
    ||| text::is_substring(text::lowercase(song.artist), needle)
    ||| text::is_substring(text::lowercase(song.album), needle)
}

/// The test for the songs that a query finds: the query, lowercased, stands
/// in the lowercased title, artist or album. The empty query finds nothing.
pub open spec fn answers(query: Seq<char>) -> spec_fn(SongView) -> bool {
    |s: SongView| query.len() > 0 && mentions(s, text::lowercase(query))
}

/// Tests whether one of three texts holds `needle`.
pub fn any_contains(title: &str, artist: &str, album: &str, needle: &str) -> (found: bool)
    ensures
        found == (text::is_substring(title@, needle@) || text::is_substring(artist@, needle@)
            || text::is_substring(album@, needle@)),
{
    text::contains(title, needle) || text::contains(artist, needle) || text::contains(
        album,
        needle,
    )
}

/// No position is found where the test holds of no song.
pub proof fn lemma_nothing_found(songs: Seq<SongView>, wanted: spec_fn(SongView) -> bool)
    requires
        songs.len() <= usize::MAX,
        forall|i: int| 0 <= i < songs.len() ==> !wanted(#[trigger] songs[i]),
    ensures
        positions(songs, wanted) == Seq::<usize>::empty(),
{
    lemma_positions(songs, wanted);
    let found = positions(songs, wanted);
    if found.len() > 0 {
        assert(wanted(songs[found[0] as int]));
    }
    assert(found =~= Seq::empty());
}

/// The songs that `query` finds, each with its position, in library order.
/// Upper and lower case are not told apart.
pub fn search<'a>(songs: &'a Vec<Song>, query: &str) -> (hits: Vec<(usize, &'a Song)>)
    ensures
        is_selection(views(songs@), answers(query@), hits@),
{
    let ghost wanted = answers(query@);
    let mut hits: Vec<(usize, &'a Song)> = Vec::new();
    if query.is_empty() {
        proof {
            assert(views(songs@).len() == songs.len());
            lemma_nothing_found(views(songs@), wanted);
        }
        return hits;
    }
    let needle = query.to_lowercase();
    let mut i: usize = 0;
    while i < songs.len()
        invariant
            i <= songs.len(),
            wanted == answers(query@),
            query@.len() > 0,
            needle@ == text::lowercase(query@),
            is_selection(views(songs@.take(i as int)), wanted, hits@),
        decreases songs.len() - i,
    {
        proof {
            lemma_selection_step(songs@, wanted, i as int);
        }
        let song = &songs[i];
        let title = song.title.as_str().to_lowercase();
        let artist = song.artist.as_str().to_lowercase();
        let album = song.album.as_str().to_lowercase();
        if any_contains(title.as_str(), artist.as_str(), album.as_str(), needle.as_str()) {
            hits.push((i, song));
        }
        i += 1;
    }
    assert(songs@.take(songs@.len() as int) =~= songs@);
    hits
}

impl MusicPlayer {
    /// The distinct values of `field` among the tracks, sorted.
    pub fn group_by(&self, field: Field) -> (values: Vec<String>)
        ensures
            is_grouping(self@.songs, field, texts(values@)),
    {
        group_by(self.songs(), field)
    }

    /// The distinct albums of the tracks, sorted, each with the first of its
    /// artists.
    pub fn albums(&self) -> (list: Vec<Album>)
        ensures
            is_album_list(self@.songs, album_views(list@)),
    {
        albums(self.songs())
    }

    /// The tracks of `artist`, each with its position, in library order.
    pub fn tracks_by_artist(&self, artist: &str) -> (hits: Vec<(usize, &Song)>)
        ensures
            is_selection(self@.songs, by_artist(artist@), hits@),
    {
        tracks_by_artist(self.songs(), artist)
    }

    /// The tracks that `query` finds, each with its position, in library
    /// order.
    pub fn search(&self, query: &str) -> (hits: Vec<(usize, &Song)>)
        ensures
            is_selection(self@.songs, answers(query@), hits@),
    {
        search(self.songs(), query)
    }
}

} // verus!
