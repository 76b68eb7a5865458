//! What a message from the server does to the client.
use vstd::prelude::*;
use std::time::Instant;
use crate::app::{app_inv, new_player, player_views, restarted, App, AppView, Player, PlayerView, State};
use crate::server_message::{user_views, ServerMessage, ServerMessageView};
use crate::text::same_text;
use crate::wordlist::{list_of_text, Wordlist};

verus! {

/// Where the first player named `u` stands in the list; the list's length when none is.
pub open spec fn first_named(ps: Seq<PlayerView>, u: Seq<char>) -> int
    decreases ps.len(),
{
    if ps.len() == 0 {
        0
    } else if ps[0].username == u {
        0
    } else {
        1 + first_named(ps.drop_first(), u)
    }
}

/// Whether some player is named `u`.
pub open spec fn has_player(ps: Seq<PlayerView>, u: Seq<char>) -> bool {
    exists|i: int| 0 <= i < ps.len() && #[trigger] ps[i].username == u
}

/// Whether the client can take in a message: a speed report or a finish must name a
/// player the client knows (a client stops otherwise).
pub open spec fn applicable<S>(a: AppView<S>, m: ServerMessageView) -> bool {
    match m {
        ServerMessageView::Keypress(u, _) => has_player(a.players, u),
        ServerMessageView::Finished(u) => has_player(a.players, u),
        _ => true,
    }
}

/// The client after taking in a message from the server: a start begins a game with the
/// given text, an init replaces the players, a join adds one, a speed report sets the first
/// player of that name's speed, a finish marks them finished; an unknown message does
/// nothing. `timer` stands for the clock reading taken when a game starts.
pub open spec fn after_message<S>(a: AppView<S>, m: ServerMessageView, timer: Option<Instant>) -> AppView<S> {
    match m {
        ServerMessageView::Start(words) => restarted(
            AppView { wordlist: list_of_text(words), ..a },
            State::TypingGame,
            timer,
        ),
        ServerMessageView::Init(data) => AppView {
            players: Seq::new(data.len(), |i: int| new_player(data[i].username, data[i].color)),
            ..a
        },
        ServerMessageView::Keypress(u, w) => {
            let i = first_named(a.players, u);
            AppView { players: a.players.update(i, PlayerView { wpm: w, ..a.players[i] }), ..a }
        },
        ServerMessageView::Join(d) => AppView {
            players: a.players.push(new_player(d.username, d.color)),
            ..a
        },
        ServerMessageView::Finished(u) => {
            let i = first_named(a.players, u);
            AppView {
                players: a.players.update(i, PlayerView { finished: true, ..a.players[i] }),
                ..a
            }
        },
        ServerMessageView::Unknown => a,
    }
}

/// A message from the server keeps the client's invariant.
pub proof fn lemma_message_keeps_inv<S>(a: AppView<S>, m: ServerMessageView, timer: Option<Instant>)
    requires
        app_inv(a),
        m is Start ==> timer is Some,
    ensures
        app_inv(after_message(a, m, timer)),
{
}

/// Whether the client can take in the message (see `applicable`).
pub fn applies<S>(app: &App<S>, msg: &ServerMessage) -> (b: bool)
    ensures
        b == applicable(app@, msg@),
{
    let u = match msg {
        ServerMessage::Keypress(pair) => &pair.0,
        ServerMessage::Finished(u) => u,
        _ => {
            return true;
        },
    };
    let ghost ps = player_views(app.connection.players@);
    assert(applicable(app@, msg@) == has_player(ps, u@));
    let mut i: usize = 0;
    while i < app.connection.players.len()
        invariant
            i <= app.connection.players@.len(),
            ps == player_views(app.connection.players@),
            applicable(app@, msg@) == has_player(ps, u@),
            forall|k: int| 0 <= k < i ==> #[trigger] ps[k].username != u@,
        decreases app.connection.players.len() - i,
    {
        assert(ps[i as int].username == app.connection.players@[i as int].username@);
        if same_text(app.connection.players[i].username.as_str(), u.as_str()) {
            return true;
        }
        i += 1;
    }
    false
}

proof fn lemma_first_named_bounds(ps: Seq<PlayerView>, u: Seq<char>)
    ensures
        0 <= first_named(ps, u) <= ps.len(),
        first_named(ps, u) < ps.len() ==> ps[first_named(ps, u)].username == u,
        forall|j: int| 0 <= j < first_named(ps, u) ==> #[trigger] ps[j].username != u,
        has_player(ps, u) ==> first_named(ps, u) < ps.len(),
    decreases ps.len(),
{
    if ps.len() > 0 && ps[0].username != u {
        let rest = ps.drop_first();
        lemma_first_named_bounds(rest, u);
        assert forall|j: int| 0 <= j < first_named(ps, u) implies #[trigger] ps[j].username != u by {
            if j > 0 {
                assert(ps[j] == rest[j - 1]);
            }
        }
        if has_player(ps, u) {
            let k = choose|k: int| 0 <= k < ps.len() && #[trigger] ps[k].username == u;
            assert(rest[k - 1].username == u);
        }
    }
}

/// Finds the first player named `u`.
fn find_player(players: &Vec<Player>, u: &String) -> (i: usize)
    requires
        has_player(player_views(players@), u@),
    ensures
        i == first_named(player_views(players@), u@),
        i < players@.len(),
{
    let ghost ps = player_views(players@);
    proof {
        lemma_first_named_bounds(ps, u@);
    }
    let mut i: usize = 0;
    let n = players.len();
    while !same_text(players[i].username.as_str(), u.as_str())
        invariant
            n == players@.len(),
            ps == player_views(players@),
            0 <= first_named(ps, u@) < players@.len(),
            i <= first_named(ps, u@),
            ps[first_named(ps, u@)].username == u@,
            forall|j: int| 0 <= j < first_named(ps, u@) ==> #[trigger] ps[j].username != u@,
        decreases first_named(ps, u@) - i,
    {
        assert(ps[i as int].username == players@[i as int].username@);
        assert(ps[i as int].username != u@);
        assert(i < first_named(ps, u@));
        i += 1;
    }
    assert(ps[i as int].username == players@[i as int].username@);
    i
}

/// Takes in a message from the server, as `after_message` says.
pub fn handle_server_message<S>(app: &mut App<S>, msg: ServerMessage)
    requires
        applicable(old(app)@, msg@),
    ensures
        final(app)@ == after_message(old(app)@, msg@, final(app)@.timer),
        msg is Start ==> final(app)@.timer is Some,
{
    match msg {
        ServerMessage::Start(words) => {
            app.wordlist = Wordlist::from(words);
            app.restart(State::TypingGame);
        },
        ServerMessage::Init(data) => {
            let mut players: Vec<Player> = Vec::new();
            let mut i: usize = 0;
            let ghost dv = user_views(data@);
            while i < data.len()
                invariant
                    i <= data.len(),
                    dv == user_views(data@),
                    player_views(players@) =~= Seq::new(
                        i as nat,
                        |k: int| new_player(dv[k].username, dv[k].color),
                    ),
                decreases data.len() - i,
            {
                let p = Player::new(data[i].username.clone(), data[i].color.clone());
                let ghost before = players@;
                players.push(p);
                proof {
                    assert(dv[i as int] == data@[i as int]@);
                    assert(players@ =~= before.push(p));
                    assert(player_views(players@) =~= player_views(before).push(p@));
                }
                i += 1;
            }
            app.set_players(players);
        },
        ServerMessage::Keypress(pair) => {
            let (username, wpm) = pair;
            let i = find_player(&app.connection.players, &username);
            let p = &app.connection.players[i];
            let np = Player {
                pos: p.pos,
                username: p.username.clone(),
                color: p.color.clone(),
                wpm,
                finished: p.finished,
            };
            let ghost before = app.connection.players@;
            app.connection.players.set(i, np);
            proof {
                assert(player_views(app.connection.players@) =~= player_views(before).update(
                    i as int,
                    np@,
                ));
            }
        },
        ServerMessage::Join(data) => {
            let ghost before = app.connection.players@;
            let p = Player::new(data.username, data.color);
            app.connection.players.push(p);
            proof {
                assert(player_views(app.connection.players@) =~= player_views(before).push(p@));
            }
        },
        ServerMessage::Finished(username) => {
            let i = find_player(&app.connection.players, &username);
            let p = &app.connection.players[i];
            let np = Player {
                pos: p.pos,
                username: p.username.clone(),
                color: p.color.clone(),
                wpm: p.wpm,
                finished: true,
            };
            let ghost before = app.connection.players@;
            app.connection.players.set(i, np);
            proof {
                assert(player_views(app.connection.players@) =~= player_views(before).update(
                    i as int,
                    np@,
                ));
            }
        },
        ServerMessage::Unknown => {},
    }
}

} // verus!
