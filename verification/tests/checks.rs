use basedtyper::app::{App, Chunk, State};
use basedtyper::config::Config;
use basedtyper::events::applies;
use basedtyper::input::{can_handle, can_show, input_handler, Key};
use basedtyper::message::UserData;
use basedtyper::parser::{entries_defined, parse};
use basedtyper::screen::can_draw;
use basedtyper::server::message::Message;
use basedtyper::server_message::ServerMessage;
use basedtyper::text::is_boundary;
use basedtyper::wire::Envelope;
use basedtyper::word::Word;
use basedtyper::wordlist::Wordlist;

fn app(width: u16) -> App<()> {
    App::new(Config::default("/h"), String::new(), vec![Chunk { x: 0, y: 0, width, height: 20 }])
}

#[test]
fn boundaries() {
    assert!(is_boundary("héllo", 0));
    assert!(is_boundary("héllo", 1));
    assert!(!is_boundary("héllo", 2));
    assert!(is_boundary("héllo", 3));
    assert!(is_boundary("héllo", 6));
    assert!(!is_boundary("héllo", 7));
}

#[test]
fn backspace_undoes_a_typed_character() {
    let mut a = app(40);
    a.wordlist = Wordlist::from("abc".to_string());
    a.restart(State::TypingGame);
    input_handler(Key::Char('a'), &mut a);
    let (input, index) = (a.input_string.clone(), a.current_index);
    input_handler(Key::Char('z'), &mut a);
    input_handler(Key::Backspace, &mut a);
    assert_eq!(a.input_string, input);
    assert_eq!(a.current_index, index);
    assert_eq!(a.state, State::TypingGame);
}

#[test]
fn show_and_draw_checks() {
    let a = app(3);
    assert!(can_show(&a, &vec![Word::new("ab", "x"), Word::new("cd", "y")]));
    assert!(!can_show(&a, &vec![Word::new("aé", "x"), Word::new("cd", "y")]) || is_boundary("aé cd", 3));
    assert!(!can_show(&a, &vec![]));
    assert!(!can_show(&a, &vec![Word::new("a b", "x")]));
    let none: App<()> = App::new(Config::default("/h"), String::new(), vec![]);
    assert!(!can_show(&none, &vec![Word::new("a", "x")]));
    let mut b = app(10);
    b.wordlist = Wordlist::from("abc".to_string());
    b.restart(State::TypingGame);
    assert!(can_draw(&b));
    b.current_index = 4;
    assert!(!can_draw(&b));
    assert!(!can_draw(&none));
}

#[test]
fn message_checks() {
    let a = app(10);
    assert!(!applies(&a, &ServerMessage::Finished("nobody".into())));
    assert!(!applies(&a, &ServerMessage::Keypress(("nobody".into(), 1))));
    assert!(applies(&a, &ServerMessage::Join(UserData::new("x".into(), "red".into(), 0))));
    assert!(Message::readable(&None));
    assert!(!Message::readable(&Some(Envelope::empty())));
    assert!(Message::readable(&Some(Envelope::with_call("anything"))));
}

#[test]
fn definition_checks_and_flags() {
    assert!(entries_defined("a\nx\n\n#c\n\nb\ny"));
    assert!(!entries_defined("a\nx\n\nb"));
    assert!(!entries_defined("a\nx\n\n"));
    let args = vec!["bt".to_string(), "--no-defs".to_string()];
    let w = parse("a\n\nb", 2, &args);
    assert_eq!(w.len(), 2);
    assert!(w.iter().all(|w| w.get_definition().is_empty()));
}

#[test]
fn key_checks() {
    let mut a = app(10);
    assert!(can_handle(Key::Up, &a));
    a.current_index = 0;
    assert!(!can_handle(Key::Up, &a));
    assert!(can_handle(Key::Esc, &a));
    let mut b = app(10);
    b.wordlist = Wordlist::from("ab".to_string());
    b.restart(State::TypingGame);
    b.current_index = usize::MAX;
    assert!(!can_handle(Key::Char('a'), &b));
    b.input_string = "ab".into();
    assert!(can_handle(Key::Char('a'), &b));
}
