//! What the server reads from clients and passes on to the others.
use vstd::prelude::*;
use crate::color::{color_of_name, name_of_color, Color};
use crate::text::same_text;
use crate::wire::{bare, empty_envelope, opt_envelope, Envelope, EnvelopeView, PlayerEntry, PlayerEntryView};

verus! {

/// A player as the server knows them.
pub struct UserData {
    pub username: String,
    pub color: Color,
    /// Speed, as the bit pattern of a double.
    pub wpm: u64,
}

impl UserData {
    /// A player's data.
    pub fn new(username: String, color: Color, wpm: u64) -> (d: UserData)
        ensures
            d.username@ == username@,
            d.color == color,
            d.wpm == wpm,
    {
        UserData { username, color, wpm }
    }

    /// The player as an entry of an `init` message: name and colour name.
    pub fn to_entry(&self) -> (p: PlayerEntry)
        ensures
            p@ == (PlayerEntryView {
                username: Some(self.username@),
                color: Some(name_of_color(self.color)),
            }),
    {
        PlayerEntry { username: Some(self.username.clone()), color: Some(self.color.to_string()) }
    }
}

/// A message from a client, as the server reads it.
pub enum Message {
    Join(UserData),
    Keypress(u64),
    Finished(u64),
    Unknown,
}

/// A message the server read, as plain values.
pub enum MessageView {
    Join(Seq<char>, Color, u64),
    Keypress(u64),
    Finished(u64),
    Unknown,
}

impl View for Message {
    type V = MessageView;

    open spec fn view(&self) -> MessageView {
        match self {
            Message::Join(d) => MessageView::Join(d.username@, d.color, d.wpm),
            Message::Keypress(w) => MessageView::Keypress(*w),
            Message::Finished(w) => MessageView::Finished(*w),
            Message::Unknown => MessageView::Unknown,
        }
    }
}

/// Whether the server can read a message without failing: text that is not JSON can
/// always be read, JSON must have a `call` that is a string.
pub open spec fn server_readable(json: Option<EnvelopeView>) -> bool {
    match json {
        Some(e) => e.call is Some,
        None => true,
    }
}

/// How the server reads a message: `join` needs a name and a colour (an unknown colour name
/// reads as `Unknown`) and starts at speed 0.0, `keypress` and `finished` need a speed;
/// anything else, and text that is not JSON, is `Unknown`.
pub open spec fn server_decode(json: Option<EnvelopeView>) -> MessageView {
    match json {
        None => MessageView::Unknown,
        Some(e) => {
            let call = e.call->0;
            if call == "join"@ {
                match (e.username, e.color) {
                    (Some(u), Some(c)) => MessageView::Join(u, color_of_name(c), 0),
                    _ => MessageView::Unknown,
                }
            } else if call == "keypress"@ {
                match e.wpm {
                    Some(w) => MessageView::Keypress(w),
                    None => MessageView::Unknown,
                }
            } else if call == "finished"@ {
                match e.wpm {
                    Some(w) => MessageView::Finished(w),
                    None => MessageView::Unknown,
                }
            } else {
                MessageView::Unknown
            }
        },
    }
}

/// How the server writes a message: `join` with name and colour name, `finished` and
/// `keypress` with the speed, and `{}` for an unknown one.
pub open spec fn server_json(m: MessageView) -> EnvelopeView {
    match m {
        MessageView::Join(u, c, _) => EnvelopeView {
            username: Some(u),
            color: Some(name_of_color(c)),
            ..bare("join"@)
        },
        MessageView::Finished(w) => EnvelopeView { wpm: Some(w), ..bare("finished"@) },
        MessageView::Keypress(w) => EnvelopeView { wpm: Some(w), ..bare("keypress"@) },
        MessageView::Unknown => empty_envelope(),
    }
}

/// How the server passes a player's message on to the others: speeds go with the sender's
/// name, a join goes as written, an unknown message as `{}`.
pub open spec fn forwarded(m: MessageView, username: Seq<char>) -> EnvelopeView {
    match m {
        MessageView::Keypress(w) => EnvelopeView {
            username: Some(username),
            wpm: Some(w),
            ..bare("keypress"@)
        },
        MessageView::Finished(w) => EnvelopeView {
            username: Some(username),
            wpm: Some(w),
            ..bare("finished"@)
        },
        MessageView::Unknown => empty_envelope(),
        MessageView::Join(..) => server_json(m),
    }
}

impl Message {
    /// Whether `from` can read the message (see `server_readable`); a server stops on the
    /// others.
    pub fn readable(json: &Option<Envelope>) -> (b: bool)
        ensures
            b == server_readable(opt_envelope(*json)),
    {
        match json {
            Some(e) => e.call.is_some(),
            None => true,
        }
    }

    /// Reads a message; `None` stands for text that is not JSON.
    pub fn from(json: Option<Envelope>) -> (m: Message)
        requires
            server_readable(opt_envelope(json)),
        ensures
            m@ == server_decode(opt_envelope(json)),
    {
        match json {
            None => Message::Unknown,
            Some(e) => {
                let call = match &e.call {
                    Some(c) => c,
                    None => {
                        assert(false);
                        return Message::Unknown;
                    },
                };
                if same_text(call.as_str(), "join") {
                    match (e.data.username, e.data.color) {
                        (Some(u), Some(c)) => {
                            let color = Color::from(c.as_str());
                            Message::Join(UserData::new(u, color, 0))
                        },
                        _ => Message::Unknown,
                    }
                } else if same_text(call.as_str(), "keypress") {
                    match e.data.wpm {
                        Some(w) => Message::Keypress(w),
                        None => Message::Unknown,
                    }
                } else if same_text(call.as_str(), "finished") {
                    match e.data.wpm {
                        Some(w) => Message::Finished(w),
                        None => Message::Unknown,
                    }
                } else {
                    Message::Unknown
                }
            },
        }
    }

    /// The message as the server writes it.
    pub fn to_json(&self) -> (e: Envelope)
        ensures
            e@ == server_json(self@),
    {
        match self {
            Message::Join(data) => {
                let mut e = Envelope::with_call("join");
                e.data.username = Some(data.username.clone());
                e.data.color = Some(data.color.to_string());
                e
            },
            Message::Finished(wpm) => {
                let mut e = Envelope::with_call("finished");
                e.data.wpm = Some(*wpm);
                e
            },
            Message::Keypress(wpm) => {
                let mut e = Envelope::with_call("keypress");
                e.data.wpm = Some(*wpm);
                e
            },
            Message::Unknown => Envelope::empty(),
        }
    }
}

/// A message that the server can pass on to the other players.
pub trait Forwardable {
    /// The message to send the others, `username` being the sender.
    fn forwardable(&self, username: String) -> Envelope;
}

impl Forwardable for Message {
    fn forwardable(&self, username: String) -> (e: Envelope)
        ensures
            e@ == forwarded(self@, username@),
    {
        match self {
            Message::Keypress(wpm) => {
                let mut e = Envelope::with_call("keypress");
                e.data.username = Some(username);
                e.data.wpm = Some(*wpm);
                e
            },
            Message::Finished(wpm) => {
                let mut e = Envelope::with_call("finished");
                e.data.username = Some(username);
                e.data.wpm = Some(*wpm);
                e
            },
            Message::Unknown => Envelope::empty(),
            Message::Join(_) => self.to_json(),
        }
    }
}

} // verus!
