//! What a client reads from the server.
use vstd::prelude::*;
use crate::message::{UserData, UserDataView};
use crate::text::same_text;
use crate::wire::{opt_envelope, Envelope, EnvelopeView, PlayerEntryView};

verus! {

/// A message from the server.
pub enum ServerMessage {
    /// The players already in the game.
    Init(Vec<UserData>),
    /// Another player joined.
    Join(UserData),
    /// A player typed; their name and speed (bit pattern of a double).
    Keypress((String, u64)),
    /// A player finished.
    Finished(String),
    /// The game starts with the given text.
    Start(String),
    Unknown,
}

/// A message from the server as plain values.
pub enum ServerMessageView {
    Init(Seq<UserDataView>),
    Join(UserDataView),
    Keypress(Seq<char>, u64),
    Finished(Seq<char>),
    Start(Seq<char>),
    Unknown,
}

/// The views of a list of players' data.
pub open spec fn user_views(v: Seq<UserData>) -> Seq<UserDataView> {
    v.map_values(|d: UserData| d@)
}

impl View for ServerMessage {
    type V = ServerMessageView;

    open spec fn view(&self) -> ServerMessageView {
        match self {
            ServerMessage::Init(v) => ServerMessageView::Init(user_views(v@)),
            ServerMessage::Join(d) => ServerMessageView::Join(d@),
            ServerMessage::Keypress(p) => ServerMessageView::Keypress(p.0@, p.1),
            ServerMessage::Finished(u) => ServerMessageView::Finished(u@),
            ServerMessage::Start(w) => ServerMessageView::Start(w@),
            ServerMessage::Unknown => ServerMessageView::Unknown,
        }
    }
}

/// A player entry that has both a name and a colour.
pub open spec fn entry_complete(p: PlayerEntryView) -> bool {
    p.username is Some && p.color is Some
}

/// All entries of a `players` array have a name and a colour.
pub open spec fn players_complete(ps: Seq<PlayerEntryView>) -> bool {
    forall|i: int| 0 <= i < ps.len() ==> entry_complete(#[trigger] ps[i])
}

/// Whether a client can read a message from the server without failing: text that is not
/// JSON always can; JSON needs one of the five calls, an `init` needs a `players` array
/// whose entries all have a name and a colour, and a `start` needs its words.
pub open spec fn client_readable(json: Option<EnvelopeView>) -> bool {
    match json {
        None => true,
        Some(e) => match e.call {
            None => false,
            Some(call) => {
                ||| call == "join"@
                ||| call == "keypress"@
                ||| call == "finished"@
                ||| call == "init"@ && e.players is Some && players_complete(e.players->0)
                ||| call == "start"@ && e.words is Some
            },
        },
    }
}

/// A player as read from an entry: speed 0.0.
pub open spec fn user_of_entry(p: PlayerEntryView) -> UserDataView {
    UserDataView { username: p.username->0, color: p.color->0, wpm: 0 }
}

/// How a client reads a message from the server: a `join` or `keypress` or `finished`
/// lacking one of its fields is `Unknown`, and so is text that is not JSON.
pub open spec fn client_decode(json: Option<EnvelopeView>) -> ServerMessageView {
    match json {
        None => ServerMessageView::Unknown,
        Some(e) => {
            let call = e.call->0;
            if call == "join"@ {
                match (e.username, e.color) {
                    (Some(u), Some(c)) => ServerMessageView::Join(
                        UserDataView { username: u, color: c, wpm: 0 },
                    ),
                    _ => ServerMessageView::Unknown,
                }
            } else if call == "keypress"@ {
                match (e.username, e.wpm) {
                    (Some(u), Some(w)) => ServerMessageView::Keypress(u, w),
                    _ => ServerMessageView::Unknown,
                }
            } else if call == "init"@ {
                ServerMessageView::Init(
                    e.players->0.map_values(|p: PlayerEntryView| user_of_entry(p)),
                )
            } else if call == "finished"@ {
                match e.username {
                    Some(u) => ServerMessageView::Finished(u),
                    None => ServerMessageView::Unknown,
                }
            } else {
                ServerMessageView::Start(e.words->0)
            }
        },
    }
}

impl ServerMessage {
    /// Whether `from` can read the message (see `client_readable`); a client stops on
    /// the others.
    #[verifier::loop_isolation(false)]
    pub fn readable(json: &Option<Envelope>) -> (b: bool)
        ensures
            b == client_readable(opt_envelope(*json)),
    {
        proof {
            crate::wire::lemma_calls_distinct();
        }
        match json {
            None => true,
            Some(e) => match &e.call {
                None => false,
                Some(call) => {
                    let c = call.as_str();
                    if same_text(c, "join") || same_text(c, "keypress") || same_text(c, "finished") {
                        true
                    } else if same_text(c, "init") {
                        match &e.data.players {
                            None => false,
                            Some(ps) => {
                                let mut i: usize = 0;
                                while i < ps.len()
                                    invariant
                                        i <= ps.len(),
                                        forall|k: int|
                                            0 <= k < i ==> entry_complete(#[trigger] ps@[k]@),
                                    decreases ps.len() - i,
                                {
                                    if ps[i].username.is_none() || ps[i].color.is_none() {
                                        let ghost pv = crate::wire::entry_views(ps@);
                                        assert(e.data.players == Some(*ps));
                                        assert(pv[i as int] == ps@[i as int]@);
                                        assert(!players_complete(pv));
                                        return false;
                                    }
                                    i += 1;
                                }
                                assert(e@.players == Some(crate::wire::entry_views(ps@)));
                                assert forall|k: int| 0 <= k < ps@.len() implies entry_complete(
                                    #[trigger] crate::wire::entry_views(ps@)[k],
                                ) by {
                                    assert(entry_complete(ps@[k]@));
                                }
                                true
                            },
                        }
                    } else if same_text(c, "start") {
                        e.data.words.is_some()
                    } else {
                        false
                    }
                },
            },
        }
    }

    /// Reads a message from the server; `None` stands for text that is not JSON.
    pub fn from(json: Option<Envelope>) -> (m: ServerMessage)
        requires
            client_readable(opt_envelope(json)),
        ensures
            m@ == client_decode(opt_envelope(json)),
    {
        proof {
            crate::wire::lemma_calls_distinct();
        }
        match json {
            None => ServerMessage::Unknown,
            Some(e) => {
                let ghost ev = e@;
                let call = match &e.call {
                    Some(c) => c.clone(),
                    None => {
                        return ServerMessage::Unknown;
                    },
                };
                let c = call.as_str();
                if same_text(c, "join") {
                    match (e.data.username, e.data.color) {
                        (Some(u), Some(col)) => ServerMessage::Join(UserData::new(u, col, 0)),
                        _ => ServerMessage::Unknown,
                    }
                } else if same_text(c, "keypress") {
                    match (e.data.username, e.data.wpm) {
                        (Some(u), Some(w)) => ServerMessage::Keypress((u, w)),
                        _ => ServerMessage::Unknown,
                    }
                } else if same_text(c, "init") {
                    let entries = match e.data.players {
                        Some(ps) => ps,
                        None => {
                            return ServerMessage::Unknown;
                        },
                    };
                    let ghost ev_players = ev.players->0;
                    assert(ev_players == crate::wire::entry_views(entries@));
                    let mut players: Vec<UserData> = Vec::new();
                    let mut i: usize = 0;
                    while i < entries.len()
                        invariant
                            i <= entries.len(),
                            ev_players == crate::wire::entry_views(entries@),
                            forall|k: int|
                                0 <= k < ev_players.len() ==> entry_complete(#[trigger] ev_players[k]),
                            user_views(players@) =~= ev_players.take(i as int).map_values(
                                |p: PlayerEntryView| user_of_entry(p),
                            ),
                        decreases entries.len() - i,
                    {
                        assert(entry_complete(ev_players[i as int]));
                        let u = match &entries[i].username {
                            Some(u) => u.clone(),
                            None => {
                                return ServerMessage::Unknown;
                            },
                        };
                        let col = match &entries[i].color {
                            Some(col) => col.clone(),
                            None => {
                                return ServerMessage::Unknown;
                            },
                        };
                        let d = UserData::new(u, col, 0);
                        let ghost before = players@;
                        players.push(d);
                        proof {
                            assert(players@ =~= before.push(d));
                            assert(user_views(players@) =~= user_views(before).push(d@));
                            assert(ev_players.take(i + 1).map_values(
                                |p: PlayerEntryView| user_of_entry(p),
                            ) =~= ev_players.take(i as int).map_values(
                                |p: PlayerEntryView| user_of_entry(p),
                            ).push(user_of_entry(ev_players[i as int])));
                        }
                        i += 1;
                    }
                    assert(ev_players.take(i as int) =~= ev_players);
                    ServerMessage::Init(players)
                } else if same_text(c, "finished") {
                    match e.data.username {
                        Some(u) => ServerMessage::Finished(u),
                        None => ServerMessage::Unknown,
                    }
                } else {
                    match e.data.words {
                        Some(w) => ServerMessage::Start(w),
                        None => ServerMessage::Unknown,
                    }
                }
            },
        }
    }
}

} // verus!
