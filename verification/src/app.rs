//! The client's state: which screen is shown, what has been typed, who else plays.
use vstd::prelude::*;
use std::time::{Duration, Instant};
use crate::config::{default_config_of, Config, ConfigView};
use crate::message::{Message, MessageView, UserData, UserDataView};
use crate::text::{ends_with_text, has_suffix};
use crate::wordlist::Wordlist;

verus! {

/// `std::time::Instant`, a reading of a monotonic clock; opaque here.
#[verifier::external_type_specification]
#[verifier::external_body]
pub struct ExInstant(Instant);

/// `Instant::now`: the clock's current reading. Nothing is stated of the value.
#[verifier::external_body]
pub(crate) fn now() -> (t: Instant)
{
    Instant::now()
}

/// `Instant::elapsed`: the time since the reading. Nothing is stated of the value, which
/// depends on the clock.
#[verifier::external_body]
fn elapsed(t: &Instant) -> (d: Duration)
{
    t.elapsed()
}

/// `Duration::as_millis`: the span in whole milliseconds. Nothing is stated of the value:
/// the span itself is opaque here.
#[verifier::external_body]
fn as_millis(d: &Duration) -> (ms: u128)
{
    d.as_millis()
}

/// Whole milliseconds since a clock reading. The value is the clock's, so no clause
/// states it.
pub fn millis_since(t: &Instant) -> u128 {
    let d = elapsed(t);
    as_millis(&d)
}

/// The screen the client shows.
#[derive(Clone, Copy, Debug, PartialEq, Eq, Structural)]
pub enum State {
    MainMenu,
    MultiplayerEndScreen,
    EndScreen,
    Waiting,
    TypingGame,
    WordlistPrompt,
    HostPrompt,
}

/// A rectangle of the terminal, in cells.
#[derive(Clone, Copy, Debug, PartialEq, Eq, Structural)]
pub struct Chunk {
    pub x: u16,
    pub y: u16,
    pub width: u16,
    pub height: u16,
}

/// Another player in a game against others.
pub struct Player {
    /// How far the player has typed.
    pub pos: usize,
    pub username: String,
    /// The player's colour, by name.
    pub color: String,
    /// The player's words per minute, as the bit pattern of an IEEE-754 double.
    pub wpm: u64,
    pub finished: bool,
}

/// A player as plain values.
pub struct PlayerView {
    pub pos: usize,
    pub username: Seq<char>,
    pub color: Seq<char>,
    pub wpm: u64,
    pub finished: bool,
}

impl View for Player {
    type V = PlayerView;

    open spec fn view(&self) -> PlayerView {
        PlayerView {
            pos: self.pos,
            username: self.username@,
            color: self.color@,
            wpm: self.wpm,
            finished: self.finished,
        }
    }
}

/// A player who has just joined: at the start, not finished, no speed yet
/// (the bit pattern 0 is the double 0.0).
pub open spec fn new_player(username: Seq<char>, color: Seq<char>) -> PlayerView {
    PlayerView { pos: 0, username, color, wpm: 0, finished: false }
}

impl Player {
    /// A player who has just joined.
    pub fn new(username: String, color: String) -> (p: Player)
        ensures
            p@ == new_player(username@, color@),
    {
        Player { pos: 0, color, wpm: 0, username, finished: false }
    }
}

/// The views of a list of players.
pub open spec fn player_views(v: Seq<Player>) -> Seq<PlayerView> {
    v.map_values(|p: Player| p@)
}

/// The link to a game server, if any. `S` is the stream the client writes to.
pub struct Connection<S> {
    pub tcp: Option<S>,
    /// Whether a game against others is on.
    pub enabled: bool,
    pub players: Vec<Player>,
}

impl<S> Connection<S> {
    /// A link over the given stream, with no game on yet.
    pub fn new(stream: S) -> (c: Connection<S>)
        ensures
            c.tcp == Some(stream),
            !c.enabled,
            c.players@.len() == 0,
    {
        Connection { tcp: Some(stream), enabled: false, players: Vec::new() }
    }

    /// No link.
    pub fn none() -> (c: Connection<S>)
        ensures
            c.tcp is None,
            !c.enabled,
            c.players@.len() == 0,
    {
        Connection { tcp: None, enabled: false, players: Vec::new() }
    }
}

/// The client's state.
pub struct App<S> {
    pub state: State,
    pub config: Config,
    /// What the player has typed on the current screen.
    pub input_string: String,
    /// Milliseconds the last game took.
    pub time_taken: u128,
    /// When the current game started, if it has.
    pub timer: Option<Instant>,
    pub connection: Connection<S>,
    /// The menu entry selected (from 1), or one more than the number of characters typed.
    pub current_index: usize,
    /// The last error, to show to the player.
    pub current_error: String,
    pub should_exit: bool,
    pub wordlist: Wordlist,
    /// The areas of the screen the game draws in.
    pub chunks: Vec<Chunk>,
}

/// The client's state as plain values.
pub struct AppView<S> {
    pub state: State,
    pub config: ConfigView,
    pub input: Seq<char>,
    pub time_taken: u128,
    pub timer: Option<Instant>,
    pub tcp: Option<S>,
    pub enabled: bool,
    pub players: Seq<PlayerView>,
    pub current_index: usize,
    pub error: Seq<char>,
    pub should_exit: bool,
    pub wordlist: Seq<(Seq<char>, Seq<char>)>,
    pub chunks: Seq<Chunk>,
}

impl<S> View for App<S> {
    type V = AppView<S>;

    open spec fn view(&self) -> AppView<S> {
        AppView {
            state: self.state,
            config: self.config@,
            input: self.input_string@,
            time_taken: self.time_taken,
            timer: self.timer,
            tcp: self.connection.tcp,
            enabled: self.connection.enabled,
            players: player_views(self.connection.players@),
            current_index: self.current_index,
            error: self.current_error@,
            should_exit: self.should_exit,
            wordlist: self.wordlist@,
            chunks: self.chunks@,
        }
    }
}

/// The state after `restart(state)`: the given screen, nothing typed, the first entry
/// selected, no time taken, no error, and the clock running exactly on the typing screen.
pub open spec fn restarted<S>(a: AppView<S>, state: State, timer: Option<Instant>) -> AppView<S> {
    AppView {
        state,
        input: Seq::<char>::empty(),
        current_index: 1,
        time_taken: 0,
        error: Seq::<char>::empty(),
        timer,
        ..a
    }
}

/// What holds of the client between any two steps: an entry is selected, the main menu
/// has three entries, a game against others has a stream to write to, and a game in
/// progress has its clock running and its cursor just after what was typed.
pub open spec fn app_inv<S>(a: AppView<S>) -> bool {
    &&& a.current_index >= 1
    &&& a.state == State::MainMenu ==> a.current_index <= 3
    &&& a.enabled ==> a.tcp is Some
    &&& a.state == State::TypingGame ==> a.timer is Some
    &&& a.state == State::TypingGame ==> a.current_index == a.input.len() + 1
}

/// A client just made satisfies the invariant.
pub proof fn lemma_new_app_inv<S>(a: AppView<S>)
    requires
        a.state == State::MainMenu,
        a.current_index == 1,
        !a.enabled,
    ensures
        app_inv(a),
{
}

/// Whether the clock runs as `restart(state)` leaves it.
pub open spec fn timer_fits(state: State, timer: Option<Instant>) -> bool {
    (state == State::TypingGame) == (timer is Some)
}

/// The state with the link to the server dropped.
pub open spec fn disconnected<S>(a: AppView<S>) -> AppView<S> {
    AppView { tcp: None, enabled: false, ..a }
}

/// The word list file a name stands for: the name with the `.basedtyper` ending added
/// when it lacks it.
pub open spec fn wordlist_file_of(name: Seq<char>) -> Seq<char> {
    if has_suffix(name, ".basedtyper"@) {
        name
    } else {
        name + ".basedtyper"@
    }
}

/// Where a named word list is looked for first: in the word list directory.
pub open spec fn wordlist_candidate_of(dir: Seq<char>, name: Seq<char>) -> Seq<char> {
    dir + "/"@ + wordlist_file_of(name)
}

impl<S> App<S> {
    /// A client on the main menu with the given settings, the error met while reading them
    /// (empty when none), and the screen areas to draw in.
    pub fn new(config: Config, current_error: String, chunks: Vec<Chunk>) -> (a: App<S>)
        ensures
            a@.state == State::MainMenu,
            a@.config == config@,
            a@.input == Seq::<char>::empty(),
            a@.time_taken == 0,
            a@.timer is None,
            a@.tcp is None,
            !a@.enabled,
            a@.players.len() == 0,
            a@.current_index == 1,
            a@.error == current_error@,
            !a@.should_exit,
            a@.wordlist.len() == 0,
            a@.chunks == chunks@,
    {
        App {
            state: State::MainMenu,
            input_string: String::new(),
            timer: None,
            time_taken: 0,
            current_index: 1,
            config,
            current_error,
            connection: Connection::none(),
            should_exit: false,
            wordlist: Wordlist::new(Vec::new()),
            chunks,
        }
    }

    /// A client on the main menu from the outcome of reading the settings: the settings
    /// read, with no error, or else the default settings under `home` and the error met;
    /// with the screen areas to draw in.
    pub fn from_settings(read: Result<Config, String>, home: &str, chunks: Vec<Chunk>) -> (a: App<
        S,
    >)
        ensures
            a@.state == State::MainMenu,
            read matches Ok(c) ==> a@.config == c@ && a@.error == Seq::<char>::empty(),
            read matches Err(e) ==> a@.config == default_config_of(home@) && a@.error == e@,
            a@.input == Seq::<char>::empty(),
            a@.time_taken == 0,
            a@.timer is None,
            a@.tcp is None,
            !a@.enabled,
            a@.players.len() == 0,
            a@.current_index == 1,
            !a@.should_exit,
            a@.wordlist.len() == 0,
            a@.chunks == chunks@,
    {
        match read {
            Ok(config) => App::new(config, String::new(), chunks),
            Err(error) => App::new(Config::default(home), error, chunks),
        }
    }

    /// The message that joins a game under the player's name and colour, at speed zero.
    pub fn join_message(&self) -> (m: Message)
        ensures
            m@ == MessageView::Join(
                UserDataView {
                    username: self@.config.username,
                    color: self@.config.color,
                    wpm: 0,
                },
            ),
    {
        Message::Join(
            UserData::new(
                self.config.multiplayer.username.clone(),
                self.config.multiplayer.color.clone(),
                0,
            ),
        )
    }

    /// Enters a game against others over a new stream: the client waits for the server,
    /// knows no other player yet, and plays against others.
    pub fn connected(&mut self, stream: S)
        ensures
            final(self)@ == (AppView {
                state: State::Waiting,
                tcp: Some(stream),
                enabled: true,
                players: Seq::empty(),
                ..old(self)@
            }),
    {
        self.state = State::Waiting;
        self.connection = Connection::new(stream);
        self.connection.enabled = true;
        assert(player_views(self.connection.players@) =~= Seq::<PlayerView>::empty());
    }

    /// Replaces the other players.
    pub fn set_players(&mut self, players: Vec<Player>)
        ensures
            final(self)@ == (AppView { players: player_views(players@), ..old(self)@ }),
    {
        self.connection.players = players;
    }

    /// Shows another screen.
    pub fn set_state(&mut self, state: State)
        ensures
            final(self)@ == (AppView { state, ..old(self)@ }),
    {
        self.state = state;
    }

    /// Drops the link to the server.
    pub fn close_connection(&mut self)
        ensures
            final(self)@ == disconnected(old(self)@),
    {
        self.connection.tcp = None;
        self.connection.enabled = false;
    }

    /// Goes to a screen afresh: nothing typed, first entry, no time, no error; the clock
    /// starts when the screen is the typing game and is stopped otherwise.
    pub fn restart(&mut self, state: State)
        ensures
            final(self)@ == restarted(old(self)@, state, final(self)@.timer),
            timer_fits(state, final(self)@.timer),
    {
        self.input_string = String::new();
        self.current_index = 1;
        self.time_taken = 0;
        self.current_error = String::new();
        match state {
            State::TypingGame => {
                self.timer = Some(now());
            },
            _ => self.timer = None,
        }
        self.state = state;
    }

    /// Starts the clock.
    pub fn start_timer(&mut self)
        ensures
            final(self)@ == (AppView { timer: final(self)@.timer, ..old(self)@ }),
            final(self)@.timer is Some,
    {
        self.timer = Some(now());
    }

    /// The word list file named by what was typed.
    pub fn wordlist_file(&self) -> (f: String)
        ensures
            f@ == wordlist_file_of(self@.input),
    {
        if ends_with_text(self.input_string.as_str(), ".basedtyper") {
            self.input_string.clone()
        } else {
            self.input_string.clone().concat(".basedtyper")
        }
    }

    /// Where the word list named by what was typed is looked for first.
    pub fn wordlist_candidate(&self) -> (p: String)
        ensures
            p@ == wordlist_candidate_of(self@.config.wordlist_directory, self@.input),
    {
        let name = self.wordlist_file();
        let p = self.config.general.wordlist_directory.clone().concat("/").concat(name.as_str());
        assert(p@ =~= wordlist_candidate_of(self@.config.wordlist_directory, self@.input));
        p
    }

    /// The word list to read: the candidate in the word list directory when that is a
    /// file, else the file name itself.
    pub fn locate_wordlist(&self, candidate_is_file: bool) -> (p: String)
        ensures
            p@ == (if candidate_is_file {
                wordlist_candidate_of(self@.config.wordlist_directory, self@.input)
            } else {
                wordlist_file_of(self@.input)
            }),
    {
        if candidate_is_file {
            self.wordlist_candidate()
        } else {
            self.wordlist_file()
        }
    }

    /// Selects the entry above, unless the first is selected.
    pub fn decrement_index(&mut self)
        requires
            old(self).current_index >= 1,
        ensures
            final(self)@ == (AppView {
                current_index: if old(self).current_index > 1 {
                    (old(self).current_index - 1) as usize
                } else {
                    old(self).current_index
                },
                ..old(self)@
            }),
    {
        if self.current_index - 1 > 0 {
            self.current_index -= 1;
        }
    }

    /// Selects the entry below.
    pub fn increment_index(&mut self)
        requires
            old(self).current_index < usize::MAX,
        ensures
            final(self)@ == (AppView { current_index: (old(self).current_index + 1) as usize, ..old(self)@ }),
    {
        self.current_index += 1;
    }
}

} // verus!
