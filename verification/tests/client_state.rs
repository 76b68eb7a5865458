use basedtyper::app::{App, Chunk, Player, State};
use basedtyper::config::Config;
use basedtyper::events::handle_server_message;
use basedtyper::input::{input_handler, set_wordlist, Action, Key};
use basedtyper::message::UserData;
use basedtyper::screen::{typing_view, Mark};
use basedtyper::server_message::ServerMessage;
use basedtyper::word::Word;
use basedtyper::wordlist::Wordlist;

fn app() -> App<u8> {
    App::new(
        Config::default("/home/me"),
        String::new(),
        vec![Chunk { x: 0, y: 0, width: 40, height: 10 }],
    )
}

fn typing(text: &str) -> App<u8> {
    let mut a = app();
    a.wordlist = Wordlist::from(text.to_string());
    a.restart(State::TypingGame);
    a
}

#[test]
fn new_client_starts_on_main_menu() {
    let a = app();
    assert_eq!(a.state, State::MainMenu);
    assert_eq!(a.current_index, 1);
    assert!(a.timer.is_none());
    assert!(a.connection.tcp.is_none());
    assert!(!a.connection.enabled);
    assert_eq!(a.config.multiplayer.username, "anonymous");
    assert_eq!(a.config.general.wordlist_directory, "/home/me/.local/share/basedtyper/wordlists");
    assert!(a.config.general.definitions);
    assert!(!a.config.general.cache_quotes);
}

#[test]
fn restart_resets_and_times_only_the_game() {
    let mut a = app();
    a.input_string = "abc".into();
    a.current_index = 3;
    a.time_taken = 99;
    a.current_error = "oops".into();
    a.restart(State::TypingGame);
    assert_eq!(a.input_string, "");
    assert_eq!(a.current_index, 1);
    assert_eq!(a.time_taken, 0);
    assert_eq!(a.current_error, "");
    assert!(a.timer.is_some());
    a.restart(State::EndScreen);
    assert!(a.timer.is_none());
    assert_eq!(a.state, State::EndScreen);
}

#[test]
fn menu_moves_within_three_entries() {
    let mut a = app();
    assert_eq!(input_handler(Key::Up, &mut a), Action::Nothing);
    assert_eq!(a.current_index, 1);
    input_handler(Key::Down, &mut a);
    input_handler(Key::Down, &mut a);
    input_handler(Key::Down, &mut a);
    assert_eq!(a.current_index, 3);
    assert_eq!(input_handler(Key::Enter, &mut a), Action::LoadQuote);
    input_handler(Key::Up, &mut a);
    assert_eq!(input_handler(Key::Enter, &mut a), Action::Nothing);
    assert_eq!(a.state, State::HostPrompt);
}

#[test]
fn prompts_collect_text() {
    let mut a = app();
    input_handler(Key::Enter, &mut a);
    assert_eq!(a.state, State::WordlistPrompt);
    for c in "wordz".chars() {
        input_handler(Key::Char(c), &mut a);
    }
    input_handler(Key::Backspace, &mut a);
    assert_eq!(a.input_string, "word");
    assert_eq!(input_handler(Key::Enter, &mut a), Action::LoadWordlist);
    assert_eq!(a.wordlist_file(), "word.basedtyper");
    assert_eq!(a.locate_wordlist(false), "word.basedtyper");
    assert_eq!(
        a.locate_wordlist(true),
        "/home/me/.local/share/basedtyper/wordlists/word.basedtyper"
    );
    input_handler(Key::Esc, &mut a);
    assert_eq!(a.state, State::MainMenu);
    input_handler(Key::Down, &mut a);
    input_handler(Key::Enter, &mut a);
    assert_eq!(a.state, State::HostPrompt);
    for c in "h:1".chars() {
        input_handler(Key::Char(c), &mut a);
    }
    assert_eq!(input_handler(Key::Enter, &mut a), Action::Connect);
    assert_eq!(a.input_string, "h:1");
}

#[test]
fn named_file_keeps_its_ending() {
    let mut a = app();
    a.input_string = "list.basedtyper".into();
    assert_eq!(a.wordlist_file(), "list.basedtyper");
    assert_eq!(a.wordlist_candidate(), "/home/me/.local/share/basedtyper/wordlists/list.basedtyper");
}

#[test]
fn typing_the_text_ends_the_game() {
    let mut a = typing("hi yo");
    for c in "hi y".chars() {
        assert_eq!(input_handler(Key::Char(c), &mut a), Action::Nothing);
        assert_eq!(a.state, State::TypingGame);
    }
    assert_eq!(a.current_index, 5);
    assert_eq!(input_handler(Key::Char('o'), &mut a), Action::Nothing);
    assert_eq!(a.state, State::EndScreen);
    assert_eq!(a.input_string, "hi yo");
}

#[test]
fn typing_stops_at_text_length() {
    let mut a = typing("ab");
    input_handler(Key::Char('x'), &mut a);
    input_handler(Key::Char('y'), &mut a);
    input_handler(Key::Char('z'), &mut a);
    assert_eq!(a.input_string, "xy");
    assert_eq!(a.current_index, 3);
    assert_eq!(a.state, State::TypingGame);
    input_handler(Key::Backspace, &mut a);
    assert_eq!(a.input_string, "x");
    assert_eq!(a.current_index, 2);
    input_handler(Key::Backspace, &mut a);
    input_handler(Key::Backspace, &mut a);
    assert_eq!(a.input_string, "");
    assert_eq!(a.current_index, 1);
}

#[test]
fn playing_against_others_reports_to_server() {
    let mut a = typing("ab");
    a.connection.tcp = Some(7);
    a.connection.enabled = true;
    assert_eq!(input_handler(Key::Char('a'), &mut a), Action::SendKeypress);
    assert_eq!(input_handler(Key::Char('b'), &mut a), Action::SendFinished);
    assert_eq!(a.state, State::MultiplayerEndScreen);
    assert_eq!(input_handler(Key::Char('q'), &mut a), Action::Nothing);
    assert_eq!(a.state, State::MainMenu);
    assert!(a.connection.tcp.is_none());
    assert!(!a.connection.enabled);
}

#[test]
fn ctrl_keys_during_a_game() {
    let mut a = typing("abc");
    input_handler(Key::Char('a'), &mut a);
    input_handler(Key::Ctrl('r'), &mut a);
    assert_eq!(a.input_string, "");
    assert_eq!(a.state, State::TypingGame);
    a.connection.enabled = true;
    a.connection.tcp = Some(1);
    input_handler(Key::Char('a'), &mut a);
    input_handler(Key::Ctrl('r'), &mut a);
    assert_eq!(a.input_string, "a");
    input_handler(Key::Ctrl('c'), &mut a);
    assert_eq!(a.state, State::MainMenu);
    assert!(!a.connection.enabled);
    assert!(a.connection.tcp.is_none());
}

#[test]
fn end_screen_keys() {
    let mut a = typing("a");
    input_handler(Key::Char('a'), &mut a);
    assert_eq!(a.state, State::EndScreen);
    input_handler(Key::Char('r'), &mut a);
    assert_eq!(a.state, State::TypingGame);
    assert!(a.timer.is_some());
    input_handler(Key::Char('a'), &mut a);
    input_handler(Key::Char('m'), &mut a);
    assert_eq!(a.state, State::MainMenu);
    input_handler(Key::Esc, &mut a);
    assert!(a.should_exit);
    let mut b = typing("a");
    input_handler(Key::Char('a'), &mut b);
    input_handler(Key::Char('q'), &mut b);
    assert!(b.should_exit);
}

#[test]
fn loaded_wordlist_starts_game_cut_to_width() {
    let mut a = app();
    a.chunks[0].width = 7;
    let words = vec![Word::new("hello", "greeting"), Word::new("world", "planet")];
    set_wordlist(&mut a, Ok(words));
    assert_eq!(a.state, State::TypingGame);
    assert_eq!(a.wordlist.words(), vec!["hello", "w"]);
    assert_eq!(a.wordlist.defs(), vec!["greeting", "planet"]);
    assert!(a.timer.is_some());
}

#[test]
fn failed_wordlist_shows_error() {
    let mut a = app();
    set_wordlist(&mut a, Err("no such file".into()));
    assert_eq!(a.current_error, "no such file");
    assert_eq!(a.state, State::MainMenu);
}

#[test]
fn server_messages_update_players() {
    let mut a = app();
    handle_server_message(
        &mut a,
        ServerMessage::Init(vec![
            UserData::new("a".into(), "red".into(), 0),
            UserData::new("b".into(), "blue".into(), 0),
        ]),
    );
    assert_eq!(a.connection.players.len(), 2);
    handle_server_message(&mut a, ServerMessage::Join(UserData::new("c".into(), "cyan".into(), 0)));
    assert_eq!(a.connection.players[2].username, "c");
    handle_server_message(&mut a, ServerMessage::Keypress(("b".into(), 12)));
    assert_eq!(a.connection.players[1].wpm, 12);
    assert_eq!(a.connection.players[0].wpm, 0);
    handle_server_message(&mut a, ServerMessage::Finished("a".into()));
    assert!(a.connection.players[0].finished);
    assert!(!a.connection.players[1].finished);
    handle_server_message(&mut a, ServerMessage::Unknown);
    assert_eq!(a.connection.players.len(), 3);
    handle_server_message(&mut a, ServerMessage::Start("go now".into()));
    assert_eq!(a.state, State::TypingGame);
    assert_eq!(a.wordlist.to_string(), "go now");
}

#[test]
fn new_player_has_no_speed() {
    let p = Player::new("p".into(), "red".into());
    assert_eq!(p.pos, 0);
    assert_eq!(p.wpm, 0.0f64.to_bits());
    assert!(!p.finished);
}

#[test]
fn typing_screen_marks_characters() {
    let mut a = typing("ab cd");
    for c in "ax".chars() {
        input_handler(Key::Char(c), &mut a);
    }
    let v = typing_view(&a);
    assert_eq!(v.text, "ab cd");
    assert_eq!(
        v.marks,
        vec![Mark::Right, Mark::Right, Mark::Wrong, Mark::Pending, Mark::Pending, Mark::Pending, Mark::Pending]
    );
    assert_eq!(v.definition, "");
    a.chunks[0].width = 2;
    let v = typing_view(&a);
    assert_eq!(v.text, "ab");
    assert_eq!(v.marks.len(), 4);
}

#[test]
fn typing_screen_shows_definition_of_current_word() {
    let mut a = app();
    set_wordlist(&mut a, Ok(vec![Word::new("ab", "first"), Word::new("cd", "second")]));
    input_handler(Key::Char('a'), &mut a);
    assert_eq!(typing_view(&a).definition, "first");
    input_handler(Key::Char('b'), &mut a);
    input_handler(Key::Char(' '), &mut a);
    assert_eq!(typing_view(&a).definition, "second");
}

#[test]
fn connecting_waits_for_the_server() {
    let mut a = app();
    a.connection.players.push(Player::new("old".into(), "red".into()));
    match a.join_message() {
        basedtyper::message::Message::Join(d) => {
            assert_eq!(d.username, "anonymous");
            assert_eq!(d.color, "white");
            assert_eq!(d.wpm, 0);
        }
        _ => panic!("expected a join"),
    }
    a.connected(5);
    assert_eq!(a.state, State::Waiting);
    assert_eq!(a.connection.tcp, Some(5));
    assert!(a.connection.enabled);
    assert!(a.connection.players.is_empty());
    a.close_connection();
    assert!(a.connection.tcp.is_none());
    assert!(!a.connection.enabled);
}

#[test]
fn exact_typing_marks_everything_right() {
    let mut a = typing("abc");
    a.connection.enabled = false;
    for c in "abc".chars() {
        input_handler(Key::Char(c), &mut a);
    }
    assert_eq!(a.state, State::EndScreen);
    let v = typing_view(&a);
    assert_eq!(v.marks, vec![Mark::Right, Mark::Right, Mark::Right, Mark::Right, Mark::Pending]);
}

#[test]
fn cursor_stays_one_past_the_characters_typed() {
    let mut a = typing("héllo wörld");
    let keys = [
        Key::Char('h'),
        Key::Char('é'),
        Key::Backspace,
        Key::Char('e'),
        Key::Up,
        Key::Down,
        Key::Char('l'),
        Key::Backspace,
        Key::Backspace,
        Key::Backspace,
        Key::Backspace,
        Key::Char('x'),
        Key::Ctrl('r'),
        Key::Char('h'),
    ];
    for k in keys {
        input_handler(k, &mut a);
        assert_eq!(a.state, State::TypingGame);
        assert_eq!(a.current_index, a.input_string.chars().count() + 1);
    }
    assert_eq!(a.input_string, "h");
}

#[test]
fn settings_that_cannot_be_read_give_the_defaults_and_the_error() {
    let chunks = vec![Chunk { x: 5, y: 5, width: 30, height: 10 }];
    let a: App<u8> = App::from_settings(Err("no such file".to_string()), "/home/me", chunks.clone());
    assert_eq!(a.current_error, "no such file");
    assert_eq!(a.config.multiplayer.username, "anonymous");
    assert_eq!(a.config.multiplayer.color, "white");
    assert_eq!(a.config.general.wordlist_directory, "/home/me/.local/share/basedtyper/wordlists");
    assert!(a.config.general.definitions);
    assert!(!a.config.general.cache_quotes);
    assert_eq!(a.state, State::MainMenu);
    assert_eq!(a.current_index, 1);
    assert_eq!(a.input_string, "");
    assert!(a.timer.is_none());
    assert!(a.connection.tcp.is_none());
    assert_eq!(a.chunks, chunks);
}

#[test]
fn settings_read_are_kept_without_error() {
    let mut c = Config::default("/elsewhere");
    c.multiplayer.username = "ann".into();
    c.general.definitions = false;
    let a: App<u8> = App::from_settings(Ok(c), "/home/me", Vec::new());
    assert_eq!(a.current_error, "");
    assert_eq!(a.config.multiplayer.username, "ann");
    assert!(!a.config.general.definitions);
    assert_eq!(a.config.general.wordlist_directory, "/elsewhere/.local/share/basedtyper/wordlists");
}

#[test]
fn config_new_falls_back_only_on_unparsable_settings() {
    match Config::new(Err("denied".to_string()), "/h") {
        Err(e) => assert_eq!(e, "denied"),
        Ok(_) => panic!("expected the read error"),
    }
    let c = Config::new(Ok(None), "/h").expect("defaults");
    assert_eq!(c.general.wordlist_directory, "/h/.local/share/basedtyper/wordlists");
    assert_eq!(c.multiplayer.username, "anonymous");
    let mut mine = Config::default("/x");
    mine.multiplayer.username = "me".into();
    let c = Config::new(Ok(Some(mine)), "/h").expect("read");
    assert_eq!(c.multiplayer.username, "me");
    assert_eq!(c.general.wordlist_directory, "/x/.local/share/basedtyper/wordlists");
}
