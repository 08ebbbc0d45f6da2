use music_player::song::{normalize_artist, split_stem, Metadata, Song};

fn no_tag() -> Metadata {
    Metadata { title: None, artist: None, album: None, genre: None }
}

#[test]
fn normalize_artist_spaces_the_joining_words() {
    assert_eq!(normalize_artist("A&B"), "A & B");
    assert_eq!(normalize_artist("A & B"), "A & B");
    assert_eq!(normalize_artist("Afeat.B"), "A feat. B");
    assert_eq!(normalize_artist("A feat. B"), "A feat. B");
    assert_eq!(normalize_artist("AfeaturingB"), "A featuring B");
    assert_eq!(normalize_artist("A featuring B"), "A featuring B");
    assert_eq!(normalize_artist("A&B feat.C"), "A & B feat. C");
}

#[test]
fn normalize_artist_collapses_spaces_and_trims() {
    assert_eq!(normalize_artist("  A  "), "A");
    assert_eq!(normalize_artist("A   B"), "A B");
    assert_eq!(normalize_artist("A  & B"), "A & B");
    assert_eq!(normalize_artist("&"), "&");
    assert_eq!(normalize_artist(""), "");
    assert_eq!(normalize_artist("   "), "");
    assert_eq!(normalize_artist("Plain"), "Plain");
}

#[test]
fn split_stem_splits_on_the_first_separator() {
    assert_eq!(split_stem("B - Song1"), ("B".to_string(), "Song1".to_string()));
    assert_eq!(split_stem("A - B - C"), ("A".to_string(), "B - C".to_string()));
    assert_eq!(split_stem("A&B - T"), ("A & B".to_string(), "T".to_string()));
    assert_eq!(split_stem(" - T"), ("".to_string(), "T".to_string()));
    assert_eq!(split_stem("A - "), ("A".to_string(), "".to_string()));
}

#[test]
fn split_stem_without_separator_gives_unknown_artist() {
    assert_eq!(split_stem("Song"), ("Unknown Artist".to_string(), "Song".to_string()));
    assert_eq!(split_stem("A-B"), ("Unknown Artist".to_string(), "A-B".to_string()));
    assert_eq!(split_stem("A -B"), ("Unknown Artist".to_string(), "A -B".to_string()));
    assert_eq!(split_stem(""), ("Unknown Artist".to_string(), "".to_string()));
}

#[test]
fn song_from_file_name_alone() {
    let song = Song::new("music/B - Song1.mp3".to_string(), None);
    assert_eq!(song.path, "music/B - Song1.mp3");
    assert_eq!(song.artist, "B");
    assert_eq!(song.title, "Song1");
    assert_eq!(song.album, "Unknown Album");
    assert_eq!(song.genre, "Unknown Genre");
}

#[test]
fn song_takes_the_stem_not_the_path() {
    let song = Song::new("x - y/Track.flac".to_string(), None);
    assert_eq!(song.artist, "Unknown Artist");
    assert_eq!(song.title, "Track");
    let dotted = Song::new("a/b.c.ogg".to_string(), None);
    assert_eq!(dotted.title, "b.c");
}

#[test]
fn song_without_file_name_has_empty_title() {
    let song = Song::new("".to_string(), None);
    assert_eq!(song.title, "");
    assert_eq!(song.artist, "Unknown Artist");
}

#[test]
fn song_with_empty_metadata_is_as_without() {
    let with = Song::new("music/B - Song1.mp3".to_string(), Some(no_tag()));
    let without = Song::new("music/B - Song1.mp3".to_string(), None);
    assert_eq!(with, without);
}

#[test]
fn metadata_replaces_what_the_name_gives() {
    let tag = Metadata {
        title: Some("Real Title".to_string()),
        artist: Some("X&Y".to_string()),
        album: Some("The Album".to_string()),
        genre: Some("Jazz".to_string()),
    };
    let song = Song::new("music/B - Song1.mp3".to_string(), Some(tag));
    assert_eq!(song.title, "Real Title");
    assert_eq!(song.artist, "X & Y");
    assert_eq!(song.album, "The Album");
    assert_eq!(song.genre, "Jazz");
    assert_eq!(song.path, "music/B - Song1.mp3");
}

#[test]
fn metadata_fields_replace_one_by_one() {
    let tag = Metadata { album: Some("Only Album".to_string()), ..no_tag() };
    let song = Song::new("music/B - Song1.mp3".to_string(), Some(tag));
    assert_eq!(song.title, "Song1");
    assert_eq!(song.artist, "B");
    assert_eq!(song.album, "Only Album");
    assert_eq!(song.genre, "Unknown Genre");
}
