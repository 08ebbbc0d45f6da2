use music_player::library::{Candidate, Walk};
use music_player::player::{MusicPlayer, PlayerMessage, Root};
use music_player::session::{Key, Request, Session, ViewMode, VOLUME_DOWN, VOLUME_UP};
use music_player::song::Metadata;

fn tagged(path: &str, artist: &str) -> Candidate {
    let tag = Metadata { title: None, artist: Some(artist.to_string()), album: None, genre: None };
    Candidate { path: path.to_string(), tag: Some(tag) }
}

fn session() -> Session {
    let found = vec![
        tagged("m/x - One.mp3", "Zed"),
        tagged("m/x - Two.mp3", "Amy"),
        tagged("m/x - Three.mp3", "Zed"),
        tagged("m/x - Four.mp3", "Amy"),
    ];
    let (player, outcome) =
        MusicPlayer::new(vec![Root { dir: "m".to_string(), walk: Walk::Complete(found) }]);
    assert_eq!(outcome, Ok(()));
    Session::new(player)
}

fn type_text(s: &mut Session, text: &str) {
    for c in text.chars() {
        assert_eq!(s.on_key(Key::Char(c)), Vec::new());
    }
}

fn play(path: &str) -> Request {
    Request::Send(PlayerMessage::Play(path.to_string()))
}

#[test]
fn new_session_shows_all_songs() {
    let s = session();
    assert_eq!(s.view_mode, ViewMode::AllSongs);
    assert!(!s.command_mode);
    assert!(!s.search_mode);
    assert_eq!(s.command_input, "");
    assert_eq!(s.search_input, "");
    assert_eq!(s.message, None);
    assert_eq!(s.selected_artist, None);
    assert_eq!(s.scroll_offset, 0);
    assert_eq!(s.player.len(), 4);
}

#[test]
fn tab_goes_round_the_views() {
    let mut s = session();
    let mut seen = Vec::new();
    for _ in 0..6 {
        assert_eq!(s.on_key(Key::Tab), Vec::new());
        seen.push(s.view_mode);
    }
    assert_eq!(
        seen,
        vec![
            ViewMode::Artists,
            ViewMode::Albums,
            ViewMode::Genres,
            ViewMode::Queue,
            ViewMode::Search,
            ViewMode::AllSongs
        ]
    );
    assert_eq!(ViewMode::Queue.next(), ViewMode::Search);
}

#[test]
fn q_quits() {
    let mut s = session();
    assert_eq!(s.on_key(Key::Char('q')), vec![Request::Send(PlayerMessage::Quit), Request::Exit]);
}

#[test]
fn p_toggles_playback() {
    let mut s = session();
    assert_eq!(s.on_key(Key::Char('p')), vec![play("m/x - One.mp3")]);
    assert!(s.player.is_playing());
    assert_eq!(s.on_key(Key::Char('p')), vec![Request::Send(PlayerMessage::Stop)]);
    assert!(!s.player.is_playing());
}

#[test]
fn j_and_k_move_the_highlight_within_the_list() {
    let mut s = session();
    assert_eq!(s.on_key(Key::Char('k')), Vec::new());
    assert_eq!(s.scroll_offset, 0);
    for expected in [1, 2, 3, 3, 3] {
        assert_eq!(s.on_key(Key::Char('j')), Vec::new());
        assert_eq!(s.scroll_offset, expected);
    }
    s.on_key(Key::Char('k'));
    assert_eq!(s.scroll_offset, 2);
    let mut empty = Session::new(MusicPlayer::empty());
    empty.on_key(Key::Char('j'));
    assert_eq!(empty.scroll_offset, 0);
}

#[test]
fn l_and_h_step_through_the_tracks_and_drag_the_highlight() {
    let mut s = session();
    assert_eq!(s.on_key(Key::Char('l')), Vec::new());
    assert_eq!(s.player.current_index(), 1);
    assert_eq!(s.scroll_offset, 1);
    s.on_key(Key::Char('p'));
    assert_eq!(s.on_key(Key::Char('h')), vec![play("m/x - One.mp3")]);
    assert_eq!(s.player.current_index(), 0);
    assert_eq!(s.scroll_offset, 0);
    assert_eq!(s.on_key(Key::Char('h')), vec![play("m/x - Four.mp3")]);
    assert_eq!(s.player.current_index(), 3);
    assert_eq!(s.scroll_offset, 0);
    assert_eq!(s.on_key(Key::Char('l')), vec![play("m/x - One.mp3")]);
    assert_eq!(s.scroll_offset, 0);
}

#[test]
fn a_queues_the_highlighted_place() {
    let mut s = session();
    s.on_key(Key::Char('j'));
    s.on_key(Key::Char('j'));
    assert_eq!(s.on_key(Key::Char('a')), Vec::new());
    assert_eq!(s.player.queue().positions(), vec![2]);
    assert_eq!(s.message, Some("Added to queue".to_string()));
    let mut empty = Session::new(MusicPlayer::empty());
    empty.on_key(Key::Char('a'));
    assert!(empty.player.queue().is_empty());
    assert_eq!(empty.message, Some("Added to queue".to_string()));
}

#[test]
fn space_plays_the_highlighted_track() {
    let mut s = session();
    s.on_key(Key::Char('j'));
    s.on_key(Key::Char('j'));
    assert_eq!(s.on_key(Key::Char(' ')), vec![play("m/x - Three.mp3")]);
    assert_eq!(s.player.current_index(), 2);
    assert!(s.player.is_playing());
    let mut empty = Session::new(MusicPlayer::empty());
    assert_eq!(empty.on_key(Key::Char(' ')), Vec::new());
    assert!(!empty.player.is_playing());
}

#[test]
fn space_in_the_artists_view_chooses_an_artist_and_then_a_track() {
    let mut s = session();
    s.on_key(Key::Tab);
    s.on_key(Key::Char('j'));
    assert_eq!(s.on_key(Key::Char(' ')), Vec::new());
    assert_eq!(s.selected_artist, Some("Amy".to_string()));
    assert_eq!(s.scroll_offset, 0);
    s.on_key(Key::Char('j'));
    assert_eq!(s.on_key(Key::Char(' ')), vec![play("m/x - Four.mp3")]);
    assert_eq!(s.player.current_index(), 3);
    s.on_key(Key::Char('j'));
    assert_eq!(s.scroll_offset, 2);
    assert_eq!(s.on_key(Key::Char(' ')), Vec::new());
    assert_eq!(s.player.current_index(), 3);
    assert_eq!(s.on_key(Key::Esc), Vec::new());
    assert_eq!(s.selected_artist, None);
    assert_eq!(s.scroll_offset, 0);
    assert_eq!(s.view_mode, ViewMode::Artists);
}

#[test]
fn plus_and_minus_change_the_volume() {
    let mut s = session();
    assert_eq!(VOLUME_UP, 5);
    assert_eq!(VOLUME_DOWN, -5);
    assert_eq!(s.on_key(Key::Char('-')), vec![Request::Send(PlayerMessage::SetVolume(95))]);
    assert_eq!(s.on_key(Key::Char('-')), vec![Request::Send(PlayerMessage::SetVolume(90))]);
    assert_eq!(s.on_key(Key::Char('+')), vec![Request::Send(PlayerMessage::SetVolume(95))]);
    assert_eq!(s.on_key(Key::Char('=')), vec![Request::Send(PlayerMessage::SetVolume(100))]);
    assert_eq!(s.on_key(Key::Char('+')), vec![Request::Send(PlayerMessage::SetVolume(100))]);
    assert_eq!(s.player.volume(), 100);
}

#[test]
fn s_shuffles_and_restarts_when_playing() {
    let mut s = session();
    s.on_key(Key::Char('l'));
    assert_eq!(s.on_key(Key::Char('s')), Vec::new());
    assert_eq!(s.player.current_index(), 0);
    assert_eq!(s.scroll_offset, 1);
    s.on_key(Key::Char('p'));
    let asked = s.on_key(Key::Char('s'));
    assert_eq!(asked, vec![play(&s.player.songs()[0].path)]);
    let mut paths: Vec<String> = s.player.songs().iter().map(|x| x.path.clone()).collect();
    paths.sort();
    assert_eq!(
        paths,
        vec!["m/x - Four.mp3", "m/x - One.mp3", "m/x - Three.mp3", "m/x - Two.mp3"]
    );
}

#[test]
fn slash_opens_the_search_field_and_keys_are_typed() {
    let mut s = session();
    assert_eq!(s.on_key(Key::Char('/')), Vec::new());
    assert!(s.search_mode);
    assert_eq!(s.view_mode, ViewMode::Search);
    type_text(&mut s, "qs+:a ");
    assert_eq!(s.search_input, "qs+:a ");
    assert_eq!(s.on_key(Key::Backspace), Vec::new());
    assert_eq!(s.search_input, "qs+:a");
    assert_eq!(s.on_key(Key::Tab), Vec::new());
    assert_eq!(s.on_key(Key::Enter), Vec::new());
    assert_eq!(s.view_mode, ViewMode::Search);
    assert!(s.player.queue().is_empty());
    assert_eq!(s.player.volume(), 100);
    assert_eq!(s.on_key(Key::Esc), Vec::new());
    assert!(!s.search_mode);
    assert_eq!(s.search_input, "qs+:a");
    assert_eq!(s.on_key(Key::Esc), Vec::new());
    assert_eq!(s.search_input, "");
    assert_eq!(s.view_mode, ViewMode::AllSongs);
}

#[test]
fn backspace_on_an_empty_field_does_nothing() {
    let mut s = session();
    s.on_key(Key::Char('/'));
    assert_eq!(s.on_key(Key::Backspace), Vec::new());
    assert_eq!(s.search_input, "");
    s.on_key(Key::Esc);
    s.on_key(Key::Char(':'));
    assert_eq!(s.on_key(Key::Backspace), Vec::new());
    assert_eq!(s.command_input, "");
    assert!(s.command_mode);
}

#[test]
fn colon_opens_the_prompt_and_escape_closes_it() {
    let mut s = session();
    s.on_key(Key::Char('a'));
    assert_eq!(s.on_key(Key::Char(':')), Vec::new());
    assert!(s.command_mode);
    assert_eq!(s.message, None);
    type_text(&mut s, "remove 0q");
    assert_eq!(s.command_input, "remove 0q");
    assert_eq!(s.on_key(Key::Tab), Vec::new());
    assert_eq!(s.on_key(Key::Other), Vec::new());
    assert_eq!(s.on_key(Key::Esc), Vec::new());
    assert!(!s.command_mode);
    assert_eq!(s.command_input, "");
    assert_eq!(s.player.len(), 4);
}

#[test]
fn remove_at_the_prompt_removes_the_directory() {
    let mut s = session();
    s.on_key(Key::Char(':'));
    type_text(&mut s, "remove 0");
    assert_eq!(s.on_key(Key::Enter), Vec::new());
    assert!(!s.command_mode);
    assert_eq!(s.command_input, "");
    assert_eq!(s.message, Some("Directory removed successfully".to_string()));
    assert_eq!(s.player.len(), 0);
    assert!(s.player.music_dirs().is_empty());
    s.on_key(Key::Char(':'));
    type_text(&mut s, "remove 0");
    s.on_key(Key::Enter);
    assert_eq!(s.message, Some("Error: Invalid directory index".to_string()));
}

#[test]
fn add_at_the_prompt_asks_for_a_walk() {
    let mut s = session();
    s.on_key(Key::Char(':'));
    type_text(&mut s, " add n ");
    assert_eq!(s.on_key(Key::Enter), vec![Request::Walk("n".to_string())]);
    assert!(!s.command_mode);
    assert_eq!(s.command_input, "");
    assert_eq!(s.message, None);
    s.walked("n".to_string(), Walk::Complete(vec![tagged("n/y - Five.ogg", "Bob")]));
    assert_eq!(s.message, Some("Directory added successfully".to_string()));
    assert_eq!(s.player.len(), 5);
    assert_eq!(s.player.music_dirs(), &vec!["m".to_string(), "n".to_string()]);
}

#[test]
fn failed_walks_are_reported() {
    let mut s = session();
    s.walked("gone".to_string(), Walk::Missing);
    assert_eq!(s.message, Some("Error: Directory does not exist".to_string()));
    s.walked("n".to_string(), Walk::Failed);
    assert_eq!(s.message, Some("Error: Directory could not be read".to_string()));
    assert_eq!(s.player.len(), 4);
    assert_eq!(s.player.music_dirs().len(), 1);
}

#[test]
fn unknown_commands_do_nothing() {
    let mut s = session();
    s.on_key(Key::Char(':'));
    type_text(&mut s, "remove x");
    assert_eq!(s.on_key(Key::Enter), Vec::new());
    assert_eq!(s.message, None);
    assert!(!s.command_mode);
    assert_eq!(s.player.len(), 4);
}

#[test]
fn other_keys_do_nothing() {
    let mut s = session();
    for key in [Key::Other, Key::Enter, Key::Backspace, Key::Char('x'), Key::Char('Q')] {
        assert_eq!(s.on_key(key), Vec::new());
    }
    assert_eq!(s.view_mode, ViewMode::AllSongs);
    assert_eq!(s.scroll_offset, 0);
    assert_eq!(s.message, None);
    assert!(!s.player.is_playing());
}
