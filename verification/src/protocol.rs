//! Laws of the game's protocol: what one side writes, the other side reads back.
use vstd::prelude::*;
use crate::color::{color_of_name, name_of_color};
use crate::message::{client_envelope, MessageView, UserDataView};
use crate::server::message::{forwarded, server_decode, server_readable, MessageView as ServerView};
use crate::server::{init_envelope, relayed, start_envelope};
use crate::server_message::{
    client_decode, client_readable, players_complete, user_of_entry, ServerMessageView,
};
use crate::wire::{lemma_calls_distinct, PlayerEntryView};

verus! {

/// What the server reads of a client's message.
pub open spec fn as_read_by_server(m: MessageView) -> ServerView {
    match m {
        MessageView::Join(d) => ServerView::Join(d.username, color_of_name(d.color), 0),
        MessageView::Keypress(w) => ServerView::Keypress(w),
        MessageView::Finished(w) => ServerView::Finished(w),
    }
}

/// What a client reads of a message the server passes on from `sender`.
pub open spec fn as_read_by_client(m: ServerView, sender: Seq<char>) -> ServerMessageView {
    match m {
        ServerView::Join(u, c, _) => ServerMessageView::Join(
            UserDataView { username: u, color: name_of_color(c), wpm: 0 },
        ),
        ServerView::Keypress(w) => ServerMessageView::Keypress(sender, w),
        ServerView::Finished(_) => ServerMessageView::Finished(sender),
        ServerView::Unknown => ServerMessageView::Unknown,
    }
}

/// Every message a client writes can be read by the server, and reads as the same message:
/// a join keeps its name, its colour name is read as a colour, and its speed starts at
/// zero; a speed report keeps its speed.
pub proof fn lemma_client_to_server(m: MessageView)
    ensures
        server_readable(Some(client_envelope(m))),
        server_decode(Some(client_envelope(m))) == as_read_by_server(m),
{
    lemma_calls_distinct();
}

/// Every message the server passes on, but an unknown one, can be read by a client, and
/// reads as what was passed on: a join with its name and colour name, a speed report with
/// the sender's name and speed, a finish with the sender's name.
pub proof fn lemma_server_to_client(m: ServerView, sender: Seq<char>)
    requires
        !(m is Unknown),
    ensures
        client_readable(Some(forwarded(m, sender))),
        client_decode(Some(forwarded(m, sender))) == as_read_by_client(m, sender),
{
    lemma_calls_distinct();
}

/// A speed report or a finish that a client sends reaches the other clients with the
/// sender's name and, for a speed report, the same speed; a join is not relayed this way.
pub proof fn lemma_relay(m: MessageView, sender: Seq<char>)
    ensures
        m is Join <==> relayed(Some(client_envelope(m)), sender) is None,
        relayed(Some(client_envelope(m)), sender) matches Some(e) ==> {
            &&& client_readable(Some(e))
            &&& client_decode(Some(e)) == match m {
                MessageView::Keypress(w) => ServerMessageView::Keypress(sender, w),
                MessageView::Finished(_) => ServerMessageView::Finished(sender),
                MessageView::Join(_) => ServerMessageView::Unknown,
            }
        },
{
    lemma_client_to_server(m);
    if !(m is Join) {
        lemma_server_to_client(as_read_by_server(m), sender);
    }
}

/// The `init` message a newcomer gets reads as the players listed, each at speed zero.
pub proof fn lemma_init_roundtrip(players: Seq<PlayerEntryView>)
    requires
        players_complete(players),
    ensures
        client_readable(Some(init_envelope(players))),
        client_decode(Some(init_envelope(players))) == ServerMessageView::Init(
            players.map_values(|p: PlayerEntryView| user_of_entry(p)),
        ),
{
    lemma_calls_distinct();
}

/// The `start` message reads as the start of a game with the same text.
pub proof fn lemma_start_roundtrip(words: Seq<char>)
    ensures
        client_readable(Some(start_envelope(words))),
        client_decode(Some(start_envelope(words))) == ServerMessageView::Start(words),
{
    lemma_calls_distinct();
}

} // verus!
