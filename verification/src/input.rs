//! What a key press does to the client.
use vstd::prelude::*;
use std::time::Instant;
use crate::app::{app_inv, disconnected, millis_since, now, restarted, App, AppView, State};
use crate::text::{
    byte_count, byte_len, byte_prefix, chars_of, is_boundary, join_text, join_with, on_char_boundary,
    prefix_bytes, push_char, same_text, split_by, split_text, string_of, trim, trim_text, views,
};
use crate::word::Word;
use crate::wordlist::{defs_of, text_of, words_of, Wordlist};

verus! {

/// A key the player pressed.
#[derive(Clone, Copy, Debug, PartialEq, Eq, Structural)]
pub enum Key {
    Up,
    Down,
    Backspace,
    Enter,
    Esc,
    Ctrl(char),
    Char(char),
}

/// What the caller has to do after a key press.
#[derive(Clone, Copy, Debug, PartialEq, Eq, Structural)]
pub enum Action {
    Nothing,
    /// Load the word list named by what was typed, then pass it to `set_wordlist`.
    LoadWordlist,
    /// Fetch a quote, then pass its words to `set_wordlist`.
    LoadQuote,
    /// Connect to the host typed.
    Connect,
    /// Tell the server the player typed a character.
    SendKeypress,
    /// Tell the server the player finished, in `time_taken` milliseconds.
    SendFinished,
}

/// A key press keeps the client's invariant, whatever the clock reads (a reading taken for
/// a new timer is a reading, not nothing).
pub proof fn lemma_key_keeps_inv<S>(a: AppView<S>, key: Key, timer: Option<Instant>, ms: u128)
    requires
        app_inv(a),
        handles(a, key),
        starts_clock(a, key) ==> timer is Some,
    ensures
        app_inv(after_key(a, key, timer, ms)),
{
}

/// During a game the cursor index stays one more than the number of characters typed: a
/// typed character moves both on, Backspace takes both back, and a new game starts both
/// afresh. Whatever the clock reads, a key press keeps that relation and an index of at
/// least one.
pub proof fn lemma_key_keeps_typing_index<S>(a: AppView<S>, key: Key, timer: Option<Instant>, ms: u128)
    requires
        a.current_index >= 1,
        a.state == State::TypingGame ==> a.current_index == a.input.len() + 1,
        handles(a, key),
    ensures
        after_key(a, key, timer, ms).current_index >= 1,
        after_key(a, key, timer, ms).state == State::TypingGame ==> after_key(
            a,
            key,
            timer,
            ms,
        ).current_index == after_key(a, key, timer, ms).input.len() + 1,
{
}

/// Ctrl+C during a game always leaves it for the main menu, whether or not others are
/// playing: nothing typed, the first entry selected, no clock running, no game against
/// others on, and a link to a server that was in use dropped. The words, the settings and
/// the players' list stay.
pub proof fn lemma_ctrl_c_leaves_game<S>(a: AppView<S>, timer: Option<Instant>, ms: u128)
    requires
        a.state == State::TypingGame,
    ensures
        after_key(a, Key::Ctrl('c'), timer, ms).state == State::MainMenu,
        after_key(a, Key::Ctrl('c'), timer, ms).input.len() == 0,
        after_key(a, Key::Ctrl('c'), timer, ms).current_index == 1,
        after_key(a, Key::Ctrl('c'), timer, ms).timer is None,
        !after_key(a, Key::Ctrl('c'), timer, ms).enabled,
        a.enabled ==> after_key(a, Key::Ctrl('c'), timer, ms).tcp is None,
        !a.enabled ==> after_key(a, Key::Ctrl('c'), timer, ms).tcp == a.tcp,
        after_key(a, Key::Ctrl('c'), timer, ms).wordlist == a.wordlist,
        after_key(a, Key::Ctrl('c'), timer, ms).config == a.config,
        after_key(a, Key::Ctrl('c'), timer, ms).players == a.players,
{
}

/// During a game, Backspace undoes a character that was typed and did not finish the text.
pub proof fn lemma_backspace_undoes_typing<S>(
    a: AppView<S>,
    c: char,
    timer: Option<Instant>,
    ms: u128,
    timer2: Option<Instant>,
    ms2: u128,
)
    requires
        app_inv(a),
        a.state == State::TypingGame,
        a.current_index < usize::MAX,
        byte_len(a.input) < byte_len(text_of(a.wordlist)),
        trim(a.input.push(c)) != text_of(a.wordlist),
    ensures
        after_key(after_key(a, Key::Char(c), timer, ms), Key::Backspace, timer2, ms2) == a,
{
    let b = after_key(a, Key::Char(c), timer, ms);
    assert(b.input.drop_last() =~= a.input);
}

/// Starting a game with a loaded word list keeps the client's invariant.
pub proof fn lemma_set_wordlist_keeps_inv<S>(
    a: AppView<S>,
    list: Seq<(Seq<char>, Seq<char>)>,
    timer: Option<Instant>,
)
    requires
        app_inv(a),
        timer is Some,
    ensures
        app_inv(restarted(AppView { wordlist: list, ..a }, State::TypingGame, timer)),
{
}

/// The text with its last character removed, if it has one.
pub open spec fn without_last(s: Seq<char>) -> Seq<char> {
    if s.len() > 0 {
        s.drop_last()
    } else {
        s
    }
}

/// The selected entry after moving up: one higher, but not above the first.
pub open spec fn index_up(i: usize) -> usize {
    if i > 1 {
        (i - 1) as usize
    } else {
        i
    }
}

/// The client after a character is typed during a game. `timer` is the clock reading
/// taken when the game had none, `ms` the milliseconds read when the text is complete.
pub open spec fn typed<S>(a: AppView<S>, c: char, timer: Option<Instant>, ms: u128) -> AppView<S> {
    let timer1 = if a.timer is None {
        timer
    } else {
        a.timer
    };
    let text = text_of(a.wordlist);
    let grows = byte_len(a.input) < byte_len(text);
    let input1 = if grows {
        a.input.push(c)
    } else {
        a.input
    };
    let index1 = if grows {
        (a.current_index + 1) as usize
    } else {
        a.current_index
    };
    let done = trim(input1) == text;
    AppView {
        timer: timer1,
        input: input1,
        current_index: index1,
        time_taken: if done {
            ms
        } else {
            a.time_taken
        },
        state: if done {
            if a.enabled {
                State::MultiplayerEndScreen
            } else {
                State::EndScreen
            }
        } else {
            a.state
        },
        ..a
    }
}

/// What the caller has to do after a character is typed during a game: report the key
/// press while playing against others and not done, report the finish when done.
pub open spec fn typed_action<S>(a: AppView<S>, c: char) -> Action {
    let text = text_of(a.wordlist);
    let grows = byte_len(a.input) < byte_len(text);
    let input1 = if grows {
        a.input.push(c)
    } else {
        a.input
    };
    if trim(input1) == text {
        if a.enabled {
            Action::SendFinished
        } else {
            Action::Nothing
        }
    } else if grows && a.enabled {
        Action::SendKeypress
    } else {
        Action::Nothing
    }
}

/// The client after `key` is pressed. `timer` stands for a clock reading taken during the
/// step and `ms` for milliseconds read from the clock; nothing else depends on the clock.
pub open spec fn after_key<S>(a: AppView<S>, key: Key, timer: Option<Instant>, ms: u128) -> AppView<S> {
    match key {
        Key::Up => if a.state == State::MainMenu {
            AppView { current_index: index_up(a.current_index), ..a }
        } else {
            a
        },
        Key::Down => if a.state == State::MainMenu && a.current_index < 3 {
            AppView { current_index: (a.current_index + 1) as usize, ..a }
        } else {
            a
        },
        Key::Backspace => if a.state == State::TypingGame {
            AppView { input: without_last(a.input), current_index: index_up(a.current_index), ..a }
        } else if a.state == State::WordlistPrompt || a.state == State::HostPrompt {
            AppView { input: without_last(a.input), ..a }
        } else {
            a
        },
        Key::Enter => if a.state == State::MainMenu && a.current_index == 1 {
            restarted(a, State::WordlistPrompt, None)
        } else if a.state == State::MainMenu && a.current_index == 2 {
            restarted(a, State::HostPrompt, None)
        } else {
            a
        },
        Key::Ctrl(c) => if a.state == State::TypingGame && c == 'r' && !a.enabled {
            restarted(a, State::TypingGame, timer)
        } else if a.state == State::TypingGame && c == 'c' {
            if a.enabled {
                restarted(disconnected(a), State::MainMenu, None)
            } else {
                restarted(a, State::MainMenu, None)
            }
        } else {
            a
        },
        Key::Char(c) => if a.state == State::TypingGame {
            typed(a, c, timer, ms)
        } else if a.state == State::WordlistPrompt || a.state == State::HostPrompt {
            AppView { input: a.input.push(c), ..a }
        } else if a.state == State::MultiplayerEndScreen && c == 'q' {
            restarted(disconnected(a), State::MainMenu, None)
        } else if a.state == State::EndScreen && c == 'q' {
            AppView { should_exit: true, ..a }
        } else if a.state == State::EndScreen && c == 'r' {
            restarted(a, State::TypingGame, timer)
        } else if a.state == State::EndScreen && c == 'm' {
            restarted(a, State::MainMenu, None)
        } else {
            a
        },
        Key::Esc => if a.state == State::MainMenu {
            AppView { should_exit: true, ..a }
        } else {
            restarted(a, State::MainMenu, None)
        },
    }
}

/// Whether pressing `key` can be handled without an arithmetic fault: moving up or
/// deleting needs an entry selected, typing a character needs room to move the cursor on.
pub open spec fn handles<S>(a: AppView<S>, key: Key) -> bool {
    match key {
        Key::Up => a.state == State::MainMenu ==> a.current_index >= 1,
        Key::Backspace => a.state == State::TypingGame ==> a.current_index >= 1,
        Key::Char(_) => a.state == State::TypingGame && byte_len(a.input) < byte_len(
            text_of(a.wordlist),
        ) ==> a.current_index < usize::MAX,
        _ => true,
    }
}

/// Whether pressing `key` reads the clock for a new game timer.
pub open spec fn starts_clock<S>(a: AppView<S>, key: Key) -> bool {
    match key {
        Key::Ctrl(c) => a.state == State::TypingGame && c == 'r' && !a.enabled,
        Key::Char(c) => (a.state == State::TypingGame && a.timer is None) || (a.state
            == State::EndScreen && c == 'r'),
        _ => false,
    }
}

/// What the caller has to do after `key` is pressed.
pub open spec fn key_action<S>(a: AppView<S>, key: Key) -> Action {
    match key {
        Key::Enter => if a.state == State::WordlistPrompt {
            Action::LoadWordlist
        } else if a.state == State::HostPrompt {
            Action::Connect
        } else if a.state == State::MainMenu && a.current_index == 3 {
            Action::LoadQuote
        } else {
            Action::Nothing
        },
        Key::Char(c) => if a.state == State::TypingGame {
            typed_action(a, c)
        } else {
            Action::Nothing
        },
        _ => Action::Nothing,
    }
}

/// Whether `input_handler` can handle the key (see `handles`).
pub fn can_handle<S>(key: Key, app: &App<S>) -> (b: bool)
    ensures
        b == handles(app@, key),
{
    match key {
        Key::Up => app.state != State::MainMenu || app.current_index >= 1,
        Key::Backspace => app.state != State::TypingGame || app.current_index >= 1,
        Key::Char(_) => {
            if app.state != State::TypingGame {
                return true;
            }
            let text = app.wordlist.to_string();
            byte_count(app.input_string.as_str()) >= byte_count(text.as_str())
                || app.current_index < usize::MAX
        },
        _ => true,
    }
}

/// The text without its last character: `String::pop`, the character dropped.
pub fn drop_last_char(s: &String) -> (t: String)
    ensures
        t@ == without_last(s@),
{
    let v = chars_of(s.as_str());
    if v.len() == 0 {
        String::new()
    } else {
        string_of(&v, 0, v.len() - 1)
    }
}

/// Handles a key press: changes the client as `after_key` says and returns what the caller
/// has to do, as `key_action` says.
pub fn input_handler<S>(key: Key, app: &mut App<S>) -> (action: Action)
    requires
        handles(old(app)@, key),
    ensures
        final(app)@ == after_key(old(app)@, key, final(app)@.timer, final(app)@.time_taken),
        starts_clock(old(app)@, key) ==> final(app)@.timer is Some,
        action == key_action(old(app)@, key),
{
    match key {
        Key::Up => {
            if app.state == State::MainMenu {
                app.decrement_index();
            }
            Action::Nothing
        },
        Key::Down => {
            if app.state == State::MainMenu && app.current_index < 3 {
                app.increment_index();
            }
            Action::Nothing
        },
        Key::Backspace => {
            if app.state == State::TypingGame {
                app.input_string = drop_last_char(&app.input_string);
                app.decrement_index();
            } else if app.state == State::WordlistPrompt || app.state == State::HostPrompt {
                app.input_string = drop_last_char(&app.input_string);
            }
            Action::Nothing
        },
        Key::Enter => {
            if app.state == State::WordlistPrompt {
                Action::LoadWordlist
            } else if app.state == State::HostPrompt {
                Action::Connect
            } else if app.state == State::MainMenu {
                if app.current_index == 1 {
                    app.restart(State::WordlistPrompt);
                    Action::Nothing
                } else if app.current_index == 2 {
                    app.restart(State::HostPrompt);
                    Action::Nothing
                } else if app.current_index == 3 {
                    Action::LoadQuote
                } else {
                    Action::Nothing
                }
            } else {
                Action::Nothing
            }
        },
        Key::Ctrl(c) => {
            if app.state == State::TypingGame {
                if c == 'r' {
                    if !app.connection.enabled {
                        app.restart(State::TypingGame);
                    }
                } else if c == 'c' {
                    if app.connection.enabled {
                        app.close_connection();
                        app.restart(State::MainMenu);
                    } else {
                        app.restart(State::MainMenu);
                    }
                }
            }
            Action::Nothing
        },
        Key::Char(c) => {
            if app.state == State::TypingGame {
                type_char(app, c)
            } else if app.state == State::WordlistPrompt || app.state == State::HostPrompt {
                push_char(&mut app.input_string, c);
                Action::Nothing
            } else if app.state == State::MultiplayerEndScreen {
                if c == 'q' {
                    app.close_connection();
                    app.restart(State::MainMenu);
                }
                Action::Nothing
            } else if app.state == State::EndScreen {
                if c == 'q' {
                    app.should_exit = true;
                } else if c == 'r' {
                    app.restart(State::TypingGame);
                } else if c == 'm' {
                    app.restart(State::MainMenu);
                }
                Action::Nothing
            } else {
                Action::Nothing
            }
        },
        Key::Esc => {
            if app.state == State::MainMenu {
                app.should_exit = true;
            } else {
                app.restart(State::MainMenu);
            }
            Action::Nothing
        },
    }
}

/// A character typed during a game.
fn type_char<S>(app: &mut App<S>, c: char) -> (action: Action)
    requires
        old(app).state == State::TypingGame,
        handles(old(app)@, Key::Char(c)),
    ensures
        final(app)@ == typed(old(app)@, c, final(app)@.timer, final(app)@.time_taken),
        old(app)@.timer is None ==> final(app)@.timer is Some,
        action == typed_action(old(app)@, c),
{
    if app.timer.is_none() {
        app.timer = Some(now());
    }
    let word_string = app.wordlist.to_string();
    let mut action = Action::Nothing;
    if byte_count(app.input_string.as_str()) < byte_count(word_string.as_str()) {
        push_char(&mut app.input_string, c);
        if app.connection.enabled {
            let typed_so_far = trim_text(app.input_string.as_str());
            if !same_text(typed_so_far.as_str(), word_string.as_str()) {
                action = Action::SendKeypress;
            }
        }
        app.increment_index();
    }
    let typed_so_far = trim_text(app.input_string.as_str());
    if same_text(typed_so_far.as_str(), word_string.as_str()) {
        app.time_taken = match &app.timer {
            Some(t) => millis_since(t),
            None => 0,
        };
        if app.connection.enabled {
            app.state = State::MultiplayerEndScreen;
            action = Action::SendFinished;
        } else {
            app.state = State::EndScreen;
        }
    }
    action
}

/// The text of a loaded word list as a game shows it: the words joined by spaces, cut to
/// the first `width` bytes when its length (as a `u16`) exceeds the width.
pub open spec fn shown_text(words: Seq<(Seq<char>, Seq<char>)>, width: u16) -> Seq<char> {
    let s = join_with(words_of(words), seq![' ']);
    if (byte_len(s) as u16) > width {
        byte_prefix(s, width as int)
    } else {
        s
    }
}

/// The word list a game is played with: the pieces of the shown text between spaces,
/// each with the definition of the loaded word at the same place.
pub open spec fn shown_list(words: Seq<(Seq<char>, Seq<char>)>, width: u16) -> Seq<(Seq<char>, Seq<char>)> {
    let pieces = split_by(shown_text(words, width), seq![' ']);
    Seq::new(pieces.len(), |i: int| (pieces[i], defs_of(words)[i]))
}

/// Whether a loaded word list can be shown without failing: there is a screen area, the
/// cut falls between characters, and there are no more pieces than definitions.
pub open spec fn showable(words: Seq<(Seq<char>, Seq<char>)>, chunks: Seq<crate::app::Chunk>) -> bool {
    let s = join_with(words_of(words), seq![' ']);
    &&& chunks.len() > 0
    &&& (byte_len(s) as u16) > chunks[0].width ==> on_char_boundary(s, chunks[0].width as int)
    &&& split_by(shown_text(words, chunks[0].width), seq![' ']).len() <= words.len()
}

/// The views of a list of words.
pub open spec fn word_views(v: Seq<Word>) -> Seq<(Seq<char>, Seq<char>)> {
    v.map_values(|w: Word| w@)
}

/// Whether `set_wordlist` can show the loaded words on this client (see `showable`).
pub fn can_show<S>(app: &App<S>, words: &Vec<Word>) -> (b: bool)
    ensures
        b == showable(word_views(words@), app@.chunks),
{
    if app.chunks.len() == 0 {
        return false;
    }
    let ghost wv = word_views(words@);
    let mut word_strings: Vec<String> = Vec::new();
    let mut i: usize = 0;
    while i < words.len()
        invariant
            i <= words.len(),
            wv == word_views(words@),
            views(word_strings@) =~= words_of(wv).take(i as int),
        decreases words.len() - i,
    {
        let w = words[i].get_word().clone();
        let ghost ws0 = word_strings@;
        word_strings.push(w);
        proof {
            assert(word_strings@ =~= ws0.push(w));
            assert(views(word_strings@) =~= views(ws0).push(w@));
            assert(words_of(wv).take(i + 1) =~= words_of(wv).take(i as int).push(wv[i as int].0));
        }
        i += 1;
    }
    assert(words_of(wv).take(i as int) =~= words_of(wv));
    proof {
        reveal_strlit(" ");
        assert(" "@ =~= seq![' ']);
    }
    let joined = join_text(&word_strings, " ");
    let width = app.chunks[0].width;
    let shown = if (byte_count(joined.as_str()) as u16) > width {
        if !is_boundary(joined.as_str(), width as usize) {
            return false;
        }
        prefix_bytes(joined.as_str(), width as usize)
    } else {
        joined
    };
    let pieces = split_text(shown.as_str(), " ");
    assert(wv.len() == words@.len());
    pieces.len() <= words.len()
}

/// Starts a game with a loaded word list, or shows why it could not be loaded.
pub fn set_wordlist<S>(app: &mut App<S>, loaded: Result<Vec<Word>, String>)
    requires
        loaded matches Ok(ws) ==> showable(word_views(ws@), old(app)@.chunks),
    ensures
        loaded matches Err(e) ==> final(app)@ == (AppView { error: e@, ..old(app)@ }),
        loaded matches Ok(ws) ==> {
            &&& final(app)@ == restarted(
                AppView { wordlist: shown_list(word_views(ws@), old(app)@.chunks[0].width), ..old(app)@ },
                State::TypingGame,
                final(app)@.timer,
            )
            &&& final(app)@.timer is Some
        },
{
    let words = match loaded {
        Err(err) => {
            app.current_error = err;
            return;
        },
        Ok(words) => words,
    };
    let ghost wv = word_views(words@);
    let mut word_strings: Vec<String> = Vec::new();
    let mut defs: Vec<String> = Vec::new();
    let mut i: usize = 0;
    while i < words.len()
        invariant
            i <= words.len(),
            wv == word_views(words@),
            views(word_strings@) =~= words_of(wv).take(i as int),
            views(defs@) =~= defs_of(wv).take(i as int),
        decreases words.len() - i,
    {
        let w = words[i].get_word().clone();
        let d = words[i].get_definition().clone();
        let ghost ws0 = word_strings@;
        let ghost ds0 = defs@;
        word_strings.push(w);
        defs.push(d);
        proof {
            assert(word_strings@ =~= ws0.push(w));
            assert(defs@ =~= ds0.push(d));
            assert(views(word_strings@) =~= views(ws0).push(w@));
            assert(views(defs@) =~= views(ds0).push(d@));
            assert(words_of(wv).take(i + 1) =~= words_of(wv).take(i as int).push(wv[i as int].0));
            assert(defs_of(wv).take(i + 1) =~= defs_of(wv).take(i as int).push(wv[i as int].1));
        }
        i += 1;
    }
    assert(words_of(wv).take(i as int) =~= words_of(wv));
    assert(defs_of(wv).take(i as int) =~= defs_of(wv));
    proof {
        reveal_strlit(" ");
        assert(" "@ =~= seq![' ']);
    }
    let mut words_string = join_text(&word_strings, " ");
    let width = app.chunks[0].width;
    if (byte_count(words_string.as_str()) as u16) > width {
        words_string = prefix_bytes(words_string.as_str(), width as usize);
    }
    assert(words_string@ == shown_text(wv, width));
    let pieces = split_text(words_string.as_str(), " ");
    let mut shown: Vec<Word> = Vec::new();
    let mut k: usize = 0;
    let ghost target = shown_list(wv, width);
    assert(defs@.len() == views(defs@).len());
    while k < pieces.len()
        invariant
            k <= pieces.len(),
            views(pieces@) == split_by(shown_text(wv, width), seq![' ']),
            pieces.len() <= wv.len(),
            views(defs@) == defs_of(wv),
            defs@.len() == wv.len(),
            target == shown_list(wv, width),
            word_views(shown@) =~= target.take(k as int),
        decreases pieces.len() - k,
    {
        let w = Word::new(pieces[k].as_str(), defs[k].as_str());
        let ghost before = shown@;
        shown.push(w);
        proof {
            assert(pieces@[k as int]@ == views(pieces@)[k as int]);
            assert(defs@[k as int]@ == views(defs@)[k as int]);
            assert(shown@ =~= before.push(w));
            assert(word_views(shown@) =~= word_views(before).push(w@));
            assert(target.take(k + 1) =~= target.take(k as int).push(target[k as int]));
        }
        k += 1;
    }
    assert(target.take(k as int) =~= target);
    app.wordlist = Wordlist::new(shown);
    app.restart(State::TypingGame);
}

} // verus!
