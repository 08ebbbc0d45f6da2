//! A session at the keyboard: what each key does to the controller and to
//! what is shown. The session draws nothing and reads no key; it takes one
//! key at a time and answers with the requests that are to be carried out.

use vstd::prelude::*;
use vstd::string::StringExecFns;
use crate::command::{command_of, parse_command, Command, CommandView};
use crate::error::PlayerError;
use crate::library::{Walk, WalkView};
use crate::paths::text_of;
use crate::player::{message_of, MessageView, MusicPlayer, PlayerMessage, PlayerView};
use crate::query::{by_artist, positions};

verus! {

/// The change of volume that the plus key asks for, in hundredths.
pub const VOLUME_UP: i32 = 5;

/// The change of volume that the minus key asks for, in hundredths.
pub const VOLUME_DOWN: i32 = -5;

/// What the main list shows.
#[derive(Clone, Copy, Debug, PartialEq, Eq, Structural)]
pub enum ViewMode {
    AllSongs,
    Artists,
    Albums,
    Genres,
    Queue,
    Search,
}

impl ViewMode {
    /// The view that the tabulator key leads to.
    pub open spec fn following(self) -> ViewMode {
        match self {
            ViewMode::AllSongs => ViewMode::Artists,
            ViewMode::Artists => ViewMode::Albums,
            ViewMode::Albums => ViewMode::Genres,
            ViewMode::Genres => ViewMode::Queue,
            ViewMode::Queue => ViewMode::Search,
            ViewMode::Search => ViewMode::AllSongs,
        }
    }

    /// The view that the tabulator key leads to.
    pub fn next(self) -> (view: ViewMode)
        ensures
            view == self.following(),
    {
        match self {
            ViewMode::AllSongs => ViewMode::Artists,
            ViewMode::Artists => ViewMode::Albums,
            ViewMode::Albums => ViewMode::Genres,
            ViewMode::Genres => ViewMode::Queue,
            ViewMode::Queue => ViewMode::Search,
            ViewMode::Search => ViewMode::AllSongs,
        }
    }
}

/// A key that was pressed.
#[derive(Clone, Copy, Debug, PartialEq, Eq, Structural)]
pub enum Key {
    Char(char),
    Enter,
    Esc,
    Backspace,
    Tab,
    /// Any other key.
    Other,
}

/// Something that the session asks of whoever runs it.
#[derive(Debug, PartialEq, Eq)]
pub enum Request {
    /// Send this message to the audio engine.
    Send(PlayerMessage),
    /// Walk this directory and hand the outcome to [`Session::walked`].
    Walk(String),
    /// End the program.
    Exit,
}

/// The mathematical value of a [`Request`].
pub enum RequestView {
    Send(MessageView),
    Walk(Seq<char>),
    Exit,
}

impl View for Request {
    type V = RequestView;

    open spec fn view(&self) -> RequestView {
        match self {
            Request::Send(m) => RequestView::Send(m@),
            Request::Walk(dir) => RequestView::Walk(dir@),
            Request::Exit => RequestView::Exit,
        }
    }
}

/// The views of a sequence of requests.
pub open spec fn request_views(asked: Seq<Request>) -> Seq<RequestView> {
    asked.map_values(|r: Request| r@)
}

/// The request to send `message`, if there is a message.
pub open spec fn sending(message: Option<MessageView>) -> Seq<RequestView> {
    match message {
        Some(m) => seq![RequestView::Send(m)],
        None => Seq::empty(),
    }
}

/// The session: the controller, and what the keyboard has set.
#[derive(Debug)]
pub struct Session {
    pub player: MusicPlayer,
    pub view_mode: ViewMode,
    /// Whether keys go to the prompt.
    pub command_mode: bool,
    /// What was typed at the prompt.
    pub command_input: String,
    /// What the last command or key reported.
    pub message: Option<String>,
    /// Whether keys go to the search field.
    pub search_mode: bool,
    /// What was typed in the search field.
    pub search_input: String,
    /// The artist whose tracks the artists view shows, if one was chosen.
    pub selected_artist: Option<String>,
    /// The place of the highlighted line in the main list.
    pub scroll_offset: usize,
}

/// The mathematical value of a [`Session`].
pub struct SessionView {
    pub player: PlayerView,
    pub view_mode: ViewMode,
    pub command_mode: bool,
    pub command_input: Seq<char>,
    pub message: Option<Seq<char>>,
    pub search_mode: bool,
    pub search_input: Seq<char>,
    pub selected_artist: Option<Seq<char>>,
    pub scroll_offset: usize,
}

impl View for Session {
    type V = SessionView;

    open spec fn view(&self) -> SessionView {
        SessionView {
            player: self.player@,
            view_mode: self.view_mode,
            command_mode: self.command_mode,
            command_input: self.command_input@,
            message: text_of(self.message),
            search_mode: self.search_mode,
            search_input: self.search_input@,
            selected_artist: text_of(self.selected_artist),
            scroll_offset: self.scroll_offset,
        }
    }
}

/// What is reported when an operation on the sources went well or failed.
pub open spec fn report(done: Result<(), PlayerError>, success: Seq<char>) -> Seq<char> {
    match done {
        Ok(_) => success,
        Err(e) => "Error: "@ + e.text(),
    }
}

/// `text` without its last character, if it has one.
pub open spec fn erased(text: Seq<char>) -> Seq<char> {
    if text.len() > 0 {
        text.drop_last()
    } else {
        text
    }
}

impl SessionView {
    /// Whether `key` is the one key whose effect chance decides: `s`, the
    /// shuffle, outside the prompt and the search field.
    pub open spec fn shuffles(self, key: Key) -> bool {
        !self.command_mode && !self.search_mode && key == Key::Char('s')
    }

    /// The session with the prompt closed and emptied.
    pub open spec fn prompt_closed(self) -> SessionView {
        SessionView { command_mode: false, command_input: Seq::empty(), ..self }
    }

    /// What the line typed at the prompt does when it is entered. A directory
    /// to add is first walked, so nothing changes yet; a directory to remove
    /// is removed, and the outcome is reported.
    pub open spec fn entered(self) -> SessionView {
        match command_of(self.command_input) {
            CommandView::RemoveDirectory(index) => if index < self.player.music_dirs.len() {
                SessionView {
                    player: self.player.removed(index as int),
                    message: Some("Directory removed successfully"@),
                    ..self
                }.prompt_closed()
            } else {
                SessionView {
                    message: Some("Error: "@ + PlayerError::Index.text()),
                    ..self
                }.prompt_closed()
            },
            _ => self.prompt_closed(),
        }
    }

    /// The session after a key at the prompt.
    pub open spec fn after_prompt_key(self, key: Key) -> SessionView {
        match key {
            Key::Enter => self.entered(),
            Key::Esc => self.prompt_closed(),
            Key::Char(c) => SessionView { command_input: self.command_input.push(c), ..self },
            Key::Backspace => SessionView { command_input: erased(self.command_input), ..self },
            _ => self,
        }
    }

    /// What a key at the prompt asks for: the walk of the directory that is
    /// to be added.
    pub open spec fn prompt_requests(self, key: Key) -> Seq<RequestView> {
        match (key, command_of(self.command_input)) {
            (Key::Enter, CommandView::AddDirectory(dir)) => seq![RequestView::Walk(dir)],
            _ => Seq::empty(),
        }
    }

    /// The session after a key in the search field.
    pub open spec fn after_search_key(self, key: Key) -> SessionView {
        match key {
            Key::Esc => SessionView { search_mode: false, ..self },
            Key::Char(c) => SessionView { search_input: self.search_input.push(c), ..self },
            Key::Backspace => SessionView { search_input: erased(self.search_input), ..self },
            _ => self,
        }
    }

    /// The position that the highlighted line stands for, if it stands for a
    /// track: in the artists view with a chosen artist, the position of that
    /// artist's track in that place; in the artists view without one, none;
    /// in every other view the place itself.
    pub open spec fn highlighted(self) -> Option<usize> {
        if self.view_mode == ViewMode::Artists {
            match self.selected_artist {
                Some(artist) => {
                    let hits = positions(self.player.songs, by_artist(artist));
                    if self.scroll_offset < hits.len() {
                        Some(hits[self.scroll_offset as int])
                    } else {
                        None
                    }
                },
                None => None,
            }
        } else {
            Some(self.scroll_offset)
        }
    }

    /// The session after the space key: the highlighted track is chosen, or,
    /// in the artists view without a chosen artist, the artist of the track in
    /// the highlighted place is.
    pub open spec fn after_space(self) -> SessionView {
        if self.view_mode == ViewMode::Artists && self.selected_artist is None {
            if self.scroll_offset < self.player.songs.len() {
                SessionView {
                    selected_artist: Some(self.player.songs[self.scroll_offset as int].artist),
                    scroll_offset: 0,
                    ..self
                }
            } else {
                self
            }
        } else {
            match self.highlighted() {
                Some(position) => SessionView { player: self.player.selected(position), ..self },
                None => self,
            }
        }
    }

    /// The session after the escape key outside the prompt and the search
    /// field: the search view is left and its field emptied, or the chosen
    /// artist is given up.
    pub open spec fn after_escape(self) -> SessionView {
        if self.view_mode == ViewMode::Search {
            SessionView { search_input: Seq::empty(), view_mode: ViewMode::AllSongs, ..self }
        } else if self.view_mode == ViewMode::Artists && self.selected_artist is Some {
            SessionView { selected_artist: None, scroll_offset: 0, ..self }
        } else {
            self
        }
    }

    /// The session after a key outside the prompt and the search field, but
    /// for the shuffle.
    pub open spec fn after_plain_key(self, key: Key) -> SessionView {
        match key {
            Key::Char(c) => if c == 'a' {
                SessionView {
                    player: self.player.enqueued(self.scroll_offset),
                    message: Some("Added to queue"@),
                    ..self
                }
            } else if c == 'p' {
                SessionView {
                    player: if self.player.is_playing {
                        self.player.stopped()
                    } else {
                        self.player.played()
                    },
                    ..self
                }
            } else if c == 'j' {
                SessionView {
                    scroll_offset: if self.scroll_offset + 1 < self.player.songs.len() {
                        (self.scroll_offset + 1) as usize
                    } else {
                        self.scroll_offset
                    },
                    ..self
                }
            } else if c == 'k' {
                SessionView {
                    scroll_offset: if self.scroll_offset > 0 {
                        (self.scroll_offset - 1) as usize
                    } else {
                        self.scroll_offset
                    },
                    ..self
                }
            } else if c == 'h' {
                let player = self.player.retreated();
                SessionView {
                    player,
                    scroll_offset: if player.current_index < self.scroll_offset {
                        player.current_index
                    } else {
                        self.scroll_offset
                    },
                    ..self
                }
            } else if c == 'l' {
                let player = self.player.advanced();
                SessionView {
                    player,
                    scroll_offset: if player.current_index > self.scroll_offset {
                        player.current_index
                    } else {
                        self.scroll_offset
                    },
                    ..self
                }
            } else if c == ' ' {
                self.after_space()
            } else if c == '/' {
                SessionView { search_mode: true, view_mode: ViewMode::Search, ..self }
            } else if c == '+' || c == '=' {
                SessionView { player: self.player.with_volume(VOLUME_UP), ..self }
            } else if c == '-' {
                SessionView { player: self.player.with_volume(VOLUME_DOWN), ..self }
            } else if c == ':' {
                SessionView { command_mode: true, message: None, ..self }
            } else {
                self
            },
            Key::Tab => SessionView { view_mode: self.view_mode.following(), ..self },
            Key::Esc => self.after_escape(),
            _ => self,
        }
    }

    /// What a key outside the prompt and the search field asks for, but for
    /// the shuffle.
    pub open spec fn plain_requests(self, key: Key) -> Seq<RequestView> {
        match key {
            Key::Char(c) => if c == 'q' {
                seq![RequestView::Send(MessageView::Quit), RequestView::Exit]
            } else if c == 'p' {
                if self.player.is_playing {
                    seq![RequestView::Send(MessageView::Stop)]
                } else {
                    sending(self.player.play_message())
                }
            } else if c == 'h' {
                sending(self.player.retreated().resume_message())
            } else if c == 'l' {
                sending(self.player.advanced().resume_message())
            } else if c == ' ' {
                match self.highlighted() {
                    Some(position) => sending(self.player.select_message(position)),
                    None => Seq::empty(),
                }
            } else if c == '+' || c == '=' {
                sending(Some(self.player.with_volume(VOLUME_UP).volume_message()))
            } else if c == '-' {
                sending(Some(self.player.with_volume(VOLUME_DOWN).volume_message()))
            } else {
                Seq::empty()
            },
            _ => Seq::empty(),
        }
    }

    /// The session after `key`, but for the shuffle.
    pub open spec fn after_key(self, key: Key) -> SessionView {
        if self.command_mode {
            self.after_prompt_key(key)
        } else if self.search_mode {
            self.after_search_key(key)
        } else {
            self.after_plain_key(key)
        }
    }

    /// What `key` asks for, but for the shuffle.
    pub open spec fn requests(self, key: Key) -> Seq<RequestView> {
        if self.command_mode {
            self.prompt_requests(key)
        } else if self.search_mode {
            Seq::empty()
        } else {
            self.plain_requests(key)
        }
    }

    /// The session after the walk of a directory that was to be added came
    /// back: the directory is added if it could be walked, and the outcome is
    /// reported.
    pub open spec fn after_walk(self, dir: Seq<char>, walk: WalkView) -> SessionView {
        match walk {
            WalkView::Missing => SessionView {
                message: Some("Error: "@ + PlayerError::NotFound.text()),
                ..self
            },
            WalkView::Failed => SessionView {
                message: Some("Error: "@ + PlayerError::Io.text()),
                ..self
            },
            WalkView::Complete(found) => SessionView {
                player: self.player.added(dir, found),
                message: Some("Directory added successfully"@),
                ..self
            },
        }
    }
}

impl PlayerView {
    /// The message that tells the engine the volume of this state.
    pub open spec fn volume_message(self) -> MessageView {
        MessageView::SetVolume(self.volume)
    }
}

/// The request to send `message`, if there is one.
fn send(message: Option<PlayerMessage>) -> (asked: Vec<Request>)
    ensures
        request_views(asked@) == sending(message_of(message)),
{
    let mut asked: Vec<Request> = Vec::new();
    if let Some(m) = message {
        asked.push(Request::Send(m));
    }
    asked
}

/// No request.
fn nothing() -> (asked: Vec<Request>)
    ensures
        request_views(asked@) == Seq::<RequestView>::empty(),
{
    Vec::new()
}

/// The report of a failure.
fn failure(e: PlayerError) -> (text: String)
    ensures
        text@ == "Error: "@ + e.text(),
{
    let text = "Error: ".to_owned();
    text.concat(e.message().as_str())
}

impl Session {
    /// A session over `player` that shows all songs, the first highlighted.
    pub fn new(player: MusicPlayer) -> (session: Session)
        ensures
            session@ == (SessionView {
                player: player@,
                view_mode: ViewMode::AllSongs,
                command_mode: false,
                command_input: Seq::empty(),
                message: None,
                search_mode: false,
                search_input: Seq::empty(),
                selected_artist: None,
                scroll_offset: 0,
            }),
    {
        Session {
            player,
            view_mode: ViewMode::AllSongs,
            command_mode: false,
            command_input: String::new(),
            message: None,
            search_mode: false,
            search_input: String::new(),
            selected_artist: None,
            scroll_offset: 0,
        }
    }

    /// Takes one key and says what is to be done. The shuffle key reorders
    /// the tracks by chance; every other key has the one effect that
    /// `after_key` and `requests` name.
    pub fn on_key(&mut self, key: Key) -> (asked: Vec<Request>)
        ensures
            !old(self)@.shuffles(key) ==> final(self)@ == old(self)@.after_key(key)
                && request_views(asked@) == old(self)@.requests(key),
            old(self)@.shuffles(key) ==> final(self)@.player.is_shuffle_of(old(self)@.player)
                && final(self)@ == (SessionView { player: final(self)@.player, ..old(self)@ })
                && request_views(asked@) == sending(final(self)@.player.resume_message()),
            old(self)@.player.valid() ==> final(self)@.player.valid(),
    {
        if self.command_mode {
            self.prompt_key(key)
        } else if self.search_mode {
            self.search_key(key);
            Vec::new()
        } else {
            match key {
                Key::Char(c) => self.plain_char(c),
                Key::Tab => {
                    self.view_mode = self.view_mode.next();
                    Vec::new()
                },
                Key::Esc => {
                    self.escape();
                    Vec::new()
                },
                _ => Vec::new(),
            }
        }
    }

    /// Takes the outcome of the walk that the session asked for and adds the
    /// directory.
    pub fn walked(&mut self, dir: String, walk: Walk)
        ensures
            final(self)@ == old(self)@.after_walk(dir@, walk@),
            old(self)@.player.valid() ==> final(self)@.player.valid(),
    {
        let text = match self.player.add_directory(dir, walk) {
            Ok(_) => "Directory added successfully".to_owned(),
            Err(e) => failure(e),
        };
        self.message = Some(text);
    }

    /// A key at the prompt.
    fn prompt_key(&mut self, key: Key) -> (asked: Vec<Request>)
        ensures
            final(self)@ == old(self)@.after_prompt_key(key),
            request_views(asked@) == old(self)@.prompt_requests(key),
            old(self)@.player.valid() ==> final(self)@.player.valid(),
    {
        let mut asked: Vec<Request> = Vec::new();
        match key {
            Key::Enter => {
                match parse_command(self.command_input.as_str()) {
                    Command::AddDirectory(dir) => {
                        asked.push(Request::Walk(dir));
                    },
                    Command::RemoveDirectory(index) => {
                        let text = match self.player.remove_directory(index) {
                            Ok(_) => "Directory removed successfully".to_owned(),
                            Err(e) => failure(e),
                        };
                        self.message = Some(text);
                    },
                    Command::Unknown => {},
                }
                self.command_mode = false;
                self.command_input.clear();
            },
            Key::Esc => {
                self.command_mode = false;
                self.command_input.clear();
            },
            Key::Char(c) => {
                self.command_input.push(c);
            },
            Key::Backspace => {
                self.command_input.pop();
            },
            _ => {},
        }
        asked
    }

    /// A key in the search field.
    fn search_key(&mut self, key: Key)
        ensures
            final(self)@ == old(self)@.after_search_key(key),
    {
        match key {
            Key::Esc => {
                self.search_mode = false;
            },
            Key::Char(c) => {
                self.search_input.push(c);
            },
            Key::Backspace => {
                self.search_input.pop();
            },
            _ => {},
        }
    }

    /// The escape key outside the prompt and the search field.
    fn escape(&mut self)
        ensures
            final(self)@ == old(self)@.after_escape(),
    {
        if self.view_mode == ViewMode::Search {
            self.search_input.clear();
            self.view_mode = ViewMode::AllSongs;
        } else if self.view_mode == ViewMode::Artists && self.selected_artist.is_some() {
            self.selected_artist = None;
            self.scroll_offset = 0;
        }
    }

    /// The position that the highlighted line stands for.
    fn highlighted(&self) -> (position: Option<usize>)
        ensures
            position == self@.highlighted(),
    {
        if self.view_mode == ViewMode::Artists {
            match &self.selected_artist {
                Some(artist) => {
                    let hits = self.player.tracks_by_artist(artist.as_str());
                    if self.scroll_offset < hits.len() {
                        Some(hits[self.scroll_offset].0)
                    } else {
                        None
                    }
                },
                None => None,
            }
        } else {
            Some(self.scroll_offset)
        }
    }

    /// The space key outside the prompt and the search field.
    fn space(&mut self) -> (asked: Vec<Request>)
        ensures
            final(self)@ == old(self)@.after_space(),
            request_views(asked@) == match old(self)@.highlighted() {
                Some(position) => sending(old(self)@.player.select_message(position)),
                None => Seq::empty(),
            },
            old(self)@.player.valid() ==> final(self)@.player.valid(),
    {
        if self.view_mode == ViewMode::Artists && self.selected_artist.is_none() {
            let songs = self.player.songs();
            if self.scroll_offset < songs.len() {
                assert(songs@[self.scroll_offset as int]@
                    == self.player@.songs[self.scroll_offset as int]);
                self.selected_artist = Some(songs[self.scroll_offset].artist.clone());
                self.scroll_offset = 0;
            }
            Vec::new()
        } else {
            match self.highlighted() {
                Some(position) => send(self.player.select(position)),
                None => Vec::new(),
            }
        }
    }

    /// A character key outside the prompt and the search field.
    fn plain_char(&mut self, c: char) -> (asked: Vec<Request>)
        ensures
            c != 's' ==> final(self)@ == old(self)@.after_plain_key(Key::Char(c))
                && request_views(asked@) == old(self)@.plain_requests(Key::Char(c)),
            c == 's' ==> final(self)@.player.is_shuffle_of(old(self)@.player) && final(self)@
                == (SessionView { player: final(self)@.player, ..old(self)@ }) && request_views(
                asked@,
            ) == sending(final(self)@.player.resume_message()),
            old(self)@.player.valid() ==> final(self)@.player.valid(),
    {
        if c == 'q' {
            let mut asked: Vec<Request> = Vec::new();
            asked.push(Request::Send(PlayerMessage::Quit));
            asked.push(Request::Exit);
            assert(request_views(asked@) =~= seq![
                RequestView::Send(MessageView::Quit),
                RequestView::Exit,
            ]);
            asked
        } else if c == 's' {
            send(self.player.shuffle())
        } else if c == 'a' {
            self.player.add_to_queue(self.scroll_offset);
            self.message = Some("Added to queue".to_owned());
            nothing()
        } else if c == 'p' {
            if self.player.is_playing() {
                send(Some(self.player.stop()))
            } else {
                send(self.player.play_current())
            }
        } else if c == 'j' {
            let len: usize = self.player.len();
            if len > 0 && self.scroll_offset < len - 1 {
                self.scroll_offset = self.scroll_offset + 1;
            }
            nothing()
        } else if c == 'k' {
            if self.scroll_offset > 0 {
                self.scroll_offset = self.scroll_offset - 1;
            }
            nothing()
        } else if c == 'h' {
            let sent = self.player.previous();
            if self.player.current_index() < self.scroll_offset {
                self.scroll_offset = self.player.current_index();
            }
            send(sent)
        } else if c == 'l' {
            let sent = self.player.next();
            if self.player.current_index() > self.scroll_offset {
                self.scroll_offset = self.player.current_index();
            }
            send(sent)
        } else if c == ' ' {
            self.space()
        } else if c == '/' {
            self.search_mode = true;
            self.view_mode = ViewMode::Search;
            nothing()
        } else if c == '+' || c == '=' {
            send(Some(self.player.set_volume(VOLUME_UP)))
        } else if c == '-' {
            send(Some(self.player.set_volume(VOLUME_DOWN)))
        } else if c == ':' {
            self.command_mode = true;
            self.message = None;
            nothing()
        } else {
            nothing()
        }
    }
}

} // verus!
