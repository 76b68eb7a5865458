//! What a client tells the server.
use vstd::prelude::*;
use crate::wire::{bare, Envelope, EnvelopeView};

verus! {

/// Who a player is: name, colour (by name) and speed (bit pattern of a double).
pub struct UserData {
    pub username: String,
    pub color: String,
    pub wpm: u64,
}

/// A player's data as plain values.
pub struct UserDataView {
    pub username: Seq<char>,
    pub color: Seq<char>,
    pub wpm: u64,
}

impl View for UserData {
    type V = UserDataView;

    open spec fn view(&self) -> UserDataView {
        UserDataView { username: self.username@, color: self.color@, wpm: self.wpm }
    }
}

impl UserData {
    /// A player's data.
    pub fn new(username: String, color: String, wpm: u64) -> (d: UserData)
        ensures
            d@ == (UserDataView { username: username@, color: color@, wpm }),
    {
        UserData { username, color, wpm }
    }
}

/// A message from a client to the server.
pub enum Message {
    /// The player joins the game.
    Join(UserData),
    /// The player finished, at the given speed.
    Finished(u64),
    /// The player typed a character; their speed so far.
    Keypress(u64),
}

/// A client's message as plain values.
pub enum MessageView {
    Join(UserDataView),
    Finished(u64),
    Keypress(u64),
}

impl View for Message {
    type V = MessageView;

    open spec fn view(&self) -> MessageView {
        match self {
            Message::Join(d) => MessageView::Join(d@),
            Message::Finished(w) => MessageView::Finished(*w),
            Message::Keypress(w) => MessageView::Keypress(*w),
        }
    }
}

/// How a client's message is written: `join` with the name and colour, `keypress` and
/// `finished` with the speed.
pub open spec fn client_envelope(m: MessageView) -> EnvelopeView {
    match m {
        MessageView::Join(d) => EnvelopeView {
            username: Some(d.username),
            color: Some(d.color),
            ..bare("join"@)
        },
        MessageView::Keypress(w) => EnvelopeView { wpm: Some(w), ..bare("keypress"@) },
        MessageView::Finished(w) => EnvelopeView { wpm: Some(w), ..bare("finished"@) },
    }
}

impl Message {
    /// The message as it goes on the wire.
    pub fn to_envelope(&self) -> (e: Envelope)
        ensures
            e@ == client_envelope(self@),
    {
        match self {
            Message::Join(data) => {
                let mut e = Envelope::with_call("join");
                e.data.username = Some(data.username.clone());
                e.data.color = Some(data.color.clone());
                e
            },
            Message::Keypress(wpm) => {
                let mut e = Envelope::with_call("keypress");
                e.data.wpm = Some(*wpm);
                e
            },
            Message::Finished(wpm) => {
                let mut e = Envelope::with_call("finished");
                e.data.wpm = Some(*wpm);
                e
            },
        }
    }
}

} // verus!
