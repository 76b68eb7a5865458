use basedtyper::color::Color;
use basedtyper::message::{Message as ClientMessage, UserData as ClientUser};
use basedtyper::server::message::{Forwardable, Message, UserData};
use basedtyper::server::{input_handler, start_message, Client, Delivery, Server};
use basedtyper::server_message::ServerMessage;
use basedtyper::wire::{read_frame, Envelope, Frame, PlayerEntry};

fn wpm(x: f64) -> u64 {
    x.to_bits()
}

#[test]
fn client_join_is_read_by_server() {
    let e = ClientMessage::Join(ClientUser::new("bob".into(), "green".into(), wpm(3.0))).to_envelope();
    assert_eq!(e.call.as_deref(), Some("join"));
    assert_eq!(e.data.username.as_deref(), Some("bob"));
    assert_eq!(e.data.color.as_deref(), Some("green"));
    match Message::from(Some(e)) {
        Message::Join(d) => {
            assert_eq!(d.username, "bob");
            assert_eq!(d.color, Color::Green);
            assert_eq!(d.wpm, 0);
        }
        _ => panic!("expected a join"),
    }
}

#[test]
fn client_speed_reports_are_read_by_server() {
    let e = ClientMessage::Keypress(wpm(42.5)).to_envelope();
    assert!(matches!(Message::from(Some(e)), Message::Keypress(w) if w == wpm(42.5)));
    let e = ClientMessage::Finished(wpm(61.0)).to_envelope();
    assert!(matches!(Message::from(Some(e)), Message::Finished(w) if w == wpm(61.0)));
}

#[test]
fn server_reads_incomplete_messages_as_unknown() {
    assert!(matches!(Message::from(None), Message::Unknown));
    let e = Envelope::with_call("keypress");
    assert!(matches!(Message::from(Some(e)), Message::Unknown));
    let mut e = Envelope::with_call("join");
    e.data.username = Some("x".into());
    assert!(matches!(Message::from(Some(e)), Message::Unknown));
    assert!(matches!(Message::from(Some(Envelope::with_call("hello"))), Message::Unknown));
}

#[test]
fn forwarded_keypress_reaches_client_with_sender() {
    let e = Message::Keypress(wpm(10.0)).forwardable("ann".into());
    assert!(ServerMessage::readable(&Some(Envelope {
        call: e.call.clone(),
        data: basedtyper::wire::Payload {
            username: e.data.username.clone(),
            color: None,
            wpm: e.data.wpm,
            words: None,
            players: None,
        },
    })));
    match ServerMessage::from(Some(e)) {
        ServerMessage::Keypress((u, w)) => {
            assert_eq!(u, "ann");
            assert_eq!(w, wpm(10.0));
        }
        _ => panic!("expected a keypress"),
    }
}

#[test]
fn forwarded_finish_and_join_reach_client() {
    let e = Message::Finished(wpm(5.0)).forwardable("ann".into());
    assert!(matches!(ServerMessage::from(Some(e)), ServerMessage::Finished(u) if u == "ann"));
    let e = Message::Join(UserData::new("cy".into(), Color::Magenta, 0)).forwardable("other".into());
    match ServerMessage::from(Some(e)) {
        ServerMessage::Join(d) => {
            assert_eq!(d.username, "cy");
            assert_eq!(d.color, "magenta");
            assert_eq!(d.wpm, 0);
        }
        _ => panic!("expected a join"),
    }
}

#[test]
fn unknown_message_is_written_as_empty_object() {
    let e = Message::Unknown.to_json();
    assert!(e.call.is_none());
    assert!(e.data.username.is_none() && e.data.wpm.is_none());
    let e = Message::Unknown.forwardable("a".into());
    assert!(e.call.is_none());
    assert!(!ServerMessage::readable(&Some(e)));
}

#[test]
fn init_message_lists_players_in_order() {
    let mut server: Server<()> = Server::default();
    server.clients.push(Client::new((), "a".into(), "red".into()));
    server.clients.push(Client::new((), "b".into(), "blue".into()));
    let e = server.create_init_message();
    assert!(ServerMessage::readable(&Some(server.create_init_message())));
    match ServerMessage::from(Some(e)) {
        ServerMessage::Init(players) => {
            assert_eq!(players.len(), 2);
            assert_eq!(players[0].username, "a");
            assert_eq!(players[0].color, "red");
            assert_eq!(players[1].username, "b");
            assert_eq!(players[1].color, "blue");
        }
        _ => panic!("expected an init"),
    }
}

#[test]
fn init_with_incomplete_player_is_not_readable() {
    let mut e = Envelope::with_call("init");
    e.data.players = Some(vec![PlayerEntry { username: Some("a".into()), color: None }]);
    assert!(!ServerMessage::readable(&Some(e)));
    assert!(!ServerMessage::readable(&Some(Envelope::with_call("init"))));
    assert!(!ServerMessage::readable(&Some(Envelope::with_call("start"))));
    assert!(!ServerMessage::readable(&Some(Envelope::empty())));
    assert!(ServerMessage::readable(&None));
}

#[test]
fn client_reads_incomplete_messages_as_unknown() {
    assert!(matches!(ServerMessage::from(None), ServerMessage::Unknown));
    assert!(matches!(ServerMessage::from(Some(Envelope::with_call("finished"))), ServerMessage::Unknown));
    let mut e = Envelope::with_call("keypress");
    e.data.username = Some("a".into());
    assert!(matches!(ServerMessage::from(Some(e)), ServerMessage::Unknown));
}

#[test]
fn start_command_starts_a_game() {
    let e = input_handler("start \n").expect("a start message");
    match ServerMessage::from(Some(e)) {
        ServerMessage::Start(w) => assert_eq!(w, "here are some random words"),
        _ => panic!("expected a start"),
    }
    assert!(input_handler("stop").is_none());
    assert!(input_handler("").is_none());
    let e = start_message("a b c");
    assert!(matches!(ServerMessage::from(Some(e)), ServerMessage::Start(w) if w == "a b c"));
}

#[test]
fn server_relays_speed_reports_only() {
    let server: Server<()> = Server::default();
    let e = ClientMessage::Keypress(wpm(7.0)).to_envelope();
    let out = server.process_message(Some(e), "zed".into()).expect("relayed");
    assert_eq!(out.call.as_deref(), Some("keypress"));
    assert_eq!(out.data.username.as_deref(), Some("zed"));
    assert_eq!(out.data.wpm, Some(wpm(7.0)));
    let e = ClientMessage::Join(ClientUser::new("z".into(), "red".into(), 0)).to_envelope();
    assert!(server.process_message(Some(e), "zed".into()).is_none());
    assert!(server.process_message(None, "zed".into()).is_none());
}

#[test]
fn everyone_but_the_sender_receives() {
    let mut server: Server<u8> = Server::default();
    server.clients.push(Client::new(1, "a".into(), "red".into()));
    server.clients.push(Client::new(2, "b".into(), "red".into()));
    assert!(!server.receives(0, &"a".to_string()));
    assert!(server.receives(1, &"a".to_string()));
    server.remove_client(0);
    assert_eq!(server.clients.len(), 1);
    assert_eq!(server.clients[0].writer, 2);
}

#[test]
fn user_data_entry_uses_color_name() {
    let e = UserData::new("q".into(), Color::Unknown, 0).to_entry();
    assert_eq!(e.username.as_deref(), Some("q"));
    assert_eq!(e.color.as_deref(), Some("white"));
}

#[test]
fn frames_drop_padding_and_check_utf8() {
    assert!(matches!(read_frame(vec![0, 0, 0]), Frame::Empty));
    assert!(matches!(read_frame(vec![]), Frame::Empty));
    match read_frame(vec![b'h', 0, b'i', 0, 0]) {
        Frame::Text(s) => assert_eq!(s, "hi"),
        _ => panic!("expected text"),
    }
    match read_frame("é".as_bytes().to_vec()) {
        Frame::Text(s) => assert_eq!(s, "é"),
        _ => panic!("expected text"),
    }
    assert!(matches!(read_frame(vec![0xff, 0xfe]), Frame::NotUtf8));
}

#[test]
fn a_sent_message_reads_back_from_a_padded_buffer() {
    let text = "{\"call\":\"start\",\"data\":{\"words\":\"ünï cödé\"}}";
    let mut buf = text.as_bytes().to_vec();
    buf.resize(1024, 0);
    match read_frame(buf) {
        Frame::Text(s) => assert_eq!(s, text),
        _ => panic!("expected text"),
    }
}

#[test]
fn a_joining_player_is_let_in_last() {
    let mut server: Server<u8> = Server::default();
    server.clients.push(Client::new(1, "a".into(), "red".into()));
    let (joined, init) = server.let_in(2, UserData::new("b".into(), Color::Blue, 99));
    assert_eq!(joined.call.as_deref(), Some("join"));
    assert_eq!(joined.data.username.as_deref(), Some("b"));
    assert_eq!(joined.data.color.as_deref(), Some("blue"));
    let players = init.data.players.expect("players");
    assert_eq!(players.len(), 1);
    assert_eq!(players[0].username.as_deref(), Some("a"));
    assert_eq!(server.clients.len(), 2);
    assert_eq!(server.clients[1].writer, 2);
    assert_eq!(server.clients[1].username, "b");
    assert_eq!(server.clients[1].color, "blue");
    assert_eq!(server.clients[1].wpm, 0);
}

#[test]
fn a_forward_round_skips_the_sender() {
    let mut server: Server<u8> = Server::default();
    server.clients.push(Client::new(1, "a".into(), "red".into()));
    server.clients.push(Client::new(2, "b".into(), "red".into()));
    server.clients.push(Client::new(3, "a".into(), "red".into()));
    server.clients.push(Client::new(4, "c".into(), "red".into()));
    let sender = Some("a".to_string());
    assert_eq!(server.next_delivery(0, 4, &sender), Delivery::Write(1));
    assert_eq!(server.delivered(1, false), 2);
    assert_eq!(server.next_delivery(2, 4, &sender), Delivery::Write(3));
    assert_eq!(server.delivered(3, false), 4);
    assert_eq!(server.next_delivery(4, 4, &sender), Delivery::Done);
    assert_eq!(server.clients.len(), 4);
}

#[test]
fn a_failed_write_drops_the_player_and_passes_over_the_next() {
    let mut server: Server<u8> = Server::default();
    server.clients.push(Client::new(1, "x".into(), "red".into()));
    server.clients.push(Client::new(2, "y".into(), "red".into()));
    server.clients.push(Client::new(3, "z".into(), "red".into()));
    assert_eq!(server.next_delivery(0, 3, &None), Delivery::Write(0));
    assert_eq!(server.delivered(0, true), 1);
    assert_eq!(server.clients.len(), 2);
    assert_eq!(server.clients[0].writer, 2);
    assert_eq!(server.next_delivery(1, 3, &None), Delivery::Write(1));
    assert_eq!(server.clients[1].writer, 3);
    assert_eq!(server.delivered(1, false), 2);
    assert_eq!(server.next_delivery(2, 3, &None), Delivery::Dropped);
}
