//! The game server's decisions: who a message goes to, what it says, and what the
//! server's operator can command. Sending is left to the caller.
pub mod message;

use vstd::prelude::*;
use crate::color::name_of_color;
use crate::server::message::{
    forwarded, server_decode, server_json, server_readable, Forwardable, Message, MessageView, UserData,
};
use crate::text::{
    is_whitespace, lemma_split_first_piece, lemma_trim_end_blank_suffix, lemma_trim_start_blank_prefix, same_text,
    split_by, split_text, trim, trim_end, trim_start, trim_text, views,
};
use crate::wire::{bare, entry_views, opt_envelope, opt_view, Envelope, EnvelopeView, PlayerEntry, PlayerEntryView};
use crate::word::Word;

verus! {

/// A player connected to the server; `W` is the stream the server writes to them on.
pub struct Client<W> {
    pub writer: W,
    pub finished: bool,
    pub input_correct: bool,
    pub input_len: u16,
    pub username: String,
    /// The player's colour, by name.
    pub color: String,
    /// Speed, as the bit pattern of a double.
    pub wpm: u64,
}

impl<W> Client<W> {
    /// A player who has just connected: not finished, nothing typed, no speed yet.
    pub fn new(writer: W, username: String, color: String) -> (c: Client<W>)
        ensures
            c.writer == writer,
            !c.finished,
            c.input_correct,
            c.input_len == 0,
            c.username@ == username@,
            c.color@ == color@,
            c.wpm == 0,
    {
        Client { writer, color, finished: false, input_correct: true, input_len: 0, username, wpm: 0 }
    }
}

/// The entry an `init` message gives a connected player: name and colour.
pub open spec fn entry_of_client<W>(c: Client<W>) -> PlayerEntryView {
    PlayerEntryView { username: Some(c.username@), color: Some(c.color@) }
}

/// The `init` message that tells a newcomer who is already there.
pub open spec fn init_envelope(players: Seq<PlayerEntryView>) -> EnvelopeView {
    EnvelopeView { players: Some(players), ..bare("init"@) }
}

/// The `start` message that starts a game with the given text.
pub open spec fn start_envelope(words: Seq<char>) -> EnvelopeView {
    EnvelopeView { words: Some(words), ..bare("start"@) }
}

/// The text of a game started by the operator.
pub open spec fn default_words() -> Seq<char> {
    "here are some random words"@
}

/// What the server does with a command line of its operator: `start` (the first word,
/// white space trimmed) starts a game for everyone; anything else does nothing.
pub open spec fn command_result(line: Seq<char>) -> Option<EnvelopeView> {
    if trim(split_by(line, seq![' '])[0]) == "start"@ {
        Some(start_envelope(default_words()))
    } else {
        None
    }
}

/// White space that holds no space character, such as the line break that ends a line
/// read from the console.
pub open spec fn blank_without_spaces(s: Seq<char>) -> bool {
    forall|i: int| 0 <= i < s.len() ==> is_whitespace(#[trigger] s[i]) && s[i] != ' '
}

/// The operator starts a game for every player by typing `start`: a command line whose
/// first word is `start`, with any white space but spaces around it (such as the line
/// break that ends a line read from the console) and anything after a space, gives the
/// `start` message with the operator's text.
pub proof fn lemma_start_command(pre: Seq<char>, post: Seq<char>, rest: Seq<char>)
    requires
        blank_without_spaces(pre),
        blank_without_spaces(post),
    ensures
        command_result(pre + "start"@ + post) == Some(start_envelope(default_words())),
        command_result(pre + "start"@ + post + seq![' '] + rest) == Some(
            start_envelope(default_words()),
        ),
{
    let word = pre + "start"@ + post;
    assert("start"@ =~= seq!['s', 't', 'a', 'r', 't']) by {
        reveal_strlit("start");
    }
    assert forall|i: int| 0 <= i < word.len() implies word[i] != ' ' by {
        if i < pre.len() {
            assert(word[i] == pre[i]);
        } else if i < pre.len() + 5 {
            assert(word[i] == "start"@[i - pre.len()]);
        } else {
            assert(word[i] == post[i - pre.len() - 5]);
        }
    }
    lemma_split_first_piece(word, ' ', Seq::<char>::empty());
    assert(word + Seq::<char>::empty() =~= word);
    lemma_split_first_piece(word, ' ', seq![' '] + rest);
    assert(word + (seq![' '] + rest) =~= pre + "start"@ + post + seq![' '] + rest);
    assert forall|i: int| 0 <= i < pre.len() implies is_whitespace(#[trigger] pre[i]) by {
        assert(is_whitespace(pre[i]) && pre[i] != ' ');
    }
    assert forall|i: int| 0 <= i < post.len() implies is_whitespace(#[trigger] post[i]) by {
        assert(is_whitespace(post[i]) && post[i] != ' ');
    }
    assert(word =~= pre + ("start"@ + post));
    lemma_trim_start_blank_prefix(pre, "start"@ + post);
    assert(!is_whitespace('s'));
    assert(!is_whitespace('t'));
    assert(trim_start("start"@ + post) == "start"@ + post);
    lemma_trim_end_blank_suffix("start"@, post);
    assert("start"@.last() == 't');
    assert(trim_end("start"@) == "start"@);
}

/// What the server passes on, to every player but the sender, of a message from a
/// player: a speed report with the sender's name. Anything else is not passed on.
pub open spec fn relayed(json: Option<EnvelopeView>, username: Seq<char>) -> Option<EnvelopeView> {
    match server_decode(json) {
        MessageView::Keypress(w) => Some(forwarded(MessageView::Keypress(w), username)),
        MessageView::Finished(w) => Some(forwarded(MessageView::Finished(w), username)),
        _ => None,
    }
}

/// The next step of a round that sends one message to the players, one by one.
#[derive(Clone, Copy, Debug, PartialEq, Eq, Structural)]
pub enum Delivery {
    /// Write the message to the player at this index.
    Write(usize),
    /// Every player of the round has had their turn.
    Done,
    /// The round reached an index past the players that are left: players were dropped
    /// during the round.
    Dropped,
}

/// The names of the players, in order.
pub open spec fn usernames<W>(clients: Seq<Client<W>>) -> Seq<Seq<char>> {
    clients.map_values(|c: Client<W>| c.username@)
}

/// The step of a round over the first `count` indexes that comes at index `from`: players
/// named `sender` are passed over, the first other player is written to, and an index past
/// the players left ends the round as dropped.
pub open spec fn delivery_from(
    names: Seq<Seq<char>>,
    from: int,
    count: int,
    sender: Option<Seq<char>>,
) -> Delivery
    decreases count - from,
{
    if from >= count {
        Delivery::Done
    } else if from >= names.len() {
        Delivery::Dropped
    } else if sender == Some(names[from]) {
        delivery_from(names, from + 1, count, sender)
    } else {
        Delivery::Write(from as usize)
    }
}

/// The game server: the players connected and the words of the game.
pub struct Server<W> {
    pub clients: Vec<Client<W>>,
    pub words: Vec<Word>,
}

impl<W> Server<W> {
    /// A server with no players and no words.
    pub fn default() -> (s: Server<W>)
        ensures
            s.clients@.len() == 0,
            s.words@.len() == 0,
    {
        Server { clients: Vec::new(), words: Vec::new() }
    }

    /// The `init` message for a newcomer: every connected player's name and colour, in order.
    pub fn create_init_message(&self) -> (e: Envelope)
        ensures
            e@ == init_envelope(self.clients@.map_values(|c: Client<W>| entry_of_client(c))),
    {
        let mut entries: Vec<PlayerEntry> = Vec::new();
        let mut i: usize = 0;
        while i < self.clients.len()
            invariant
                i <= self.clients.len(),
                entry_views(entries@) =~= self.clients@.take(i as int).map_values(
                    |c: Client<W>| entry_of_client(c),
                ),
            decreases self.clients.len() - i,
        {
            let p = PlayerEntry {
                username: Some(self.clients[i].username.clone()),
                color: Some(self.clients[i].color.clone()),
            };
            let ghost before = entries@;
            entries.push(p);
            proof {
                assert(entries@ =~= before.push(p));
                assert(entry_views(entries@) =~= entry_views(before).push(p@));
                assert(self.clients@.take(i + 1).map_values(|c: Client<W>| entry_of_client(c))
                    =~= self.clients@.take(i as int).map_values(
                    |c: Client<W>| entry_of_client(c),
                ).push(entry_of_client(self.clients@[i as int])));
            }
            i += 1;
        }
        assert(self.clients@.take(i as int) =~= self.clients@);
        let mut e = Envelope::with_call("init");
        e.data.players = Some(entries);
        e
    }

    /// Lets in a player who joined: returns the join to pass on to the others and the `init`
    /// message for the newcomer, which lists those already there; the newcomer is added last.
    pub fn let_in(&mut self, writer: W, data: UserData) -> (r: (Envelope, Envelope))
        ensures
            r.0@ == server_json(MessageView::Join(data.username@, data.color, 0)),
            r.1@ == init_envelope(old(self).clients@.map_values(|c: Client<W>| entry_of_client(c))),
            final(self).clients@.len() == old(self).clients@.len() + 1,
            final(self).clients@.take(old(self).clients@.len() as int) == old(self).clients@,
            final(self).clients@.last().writer == writer,
            final(self).clients@.last().username@ == data.username@,
            final(self).clients@.last().color@ == name_of_color(data.color),
            !final(self).clients@.last().finished,
            final(self).clients@.last().input_correct,
            final(self).clients@.last().input_len == 0,
            final(self).clients@.last().wpm == 0,
            final(self).words@ == old(self).words@,
    {
        let joined = Message::Join(UserData::new(data.username.clone(), data.color, 0)).to_json();
        let init = self.create_init_message();
        let client = Client::new(writer, data.username, data.color.to_string());
        let ghost before = self.clients@;
        self.clients.push(client);
        assert(self.clients@.take(before.len() as int) =~= before);
        (joined, init)
    }

    /// Whether player `i` gets a message that `sender` sent: everyone but the sender does.
    pub fn receives(&self, i: usize, sender: &String) -> (b: bool)
        requires
            i < self.clients@.len(),
        ensures
            b == (self.clients@[i as int].username@ != sender@),
    {
        !same_text(self.clients[i].username.as_str(), sender.as_str())
    }

    /// The next step of a round that sends a message to the players among the first
    /// `count` indexes, going on from index `from`; a message from `sender` is not sent
    /// back to players of that name, and a broadcast (`None`) goes to everyone.
    pub fn next_delivery(&self, from: usize, count: usize, sender: &Option<String>) -> (d:
        Delivery)
        ensures
            d == delivery_from(usernames(self.clients@), from as int, count as int, opt_view(*sender)),
    {
        let ghost names = usernames(self.clients@);
        let ghost s = opt_view(*sender);
        let mut i: usize = from;
        while i < count
            invariant
                from <= i,
                names == usernames(self.clients@),
                s == opt_view(*sender),
                delivery_from(names, from as int, count as int, s) == delivery_from(
                    names,
                    i as int,
                    count as int,
                    s,
                ),
            decreases count - i,
        {
            if i >= self.clients.len() {
                return Delivery::Dropped;
            }
            assert(names[i as int] == self.clients@[i as int].username@);
            match sender {
                Some(name) => {
                    if same_text(self.clients[i].username.as_str(), name.as_str()) {
                        i += 1;
                        continue;
                    }
                },
                None => {},
            }
            return Delivery::Write(i);
        }
        Delivery::Done
    }

    /// After the message was written to player `i` (or failed to be): drops that player if
    /// the write failed, and gives the index the round goes on from, the one after `i`, so
    /// that the player who moved into a dropped player's place is passed over.
    pub fn delivered(&mut self, i: usize, failed: bool) -> (next: usize)
        requires
            i < old(self).clients@.len(),
        ensures
            next == i + 1,
            final(self).clients@ == if failed {
                old(self).clients@.remove(i as int)
            } else {
                old(self).clients@
            },
            final(self).words@ == old(self).words@,
    {
        let n = self.clients.len();
        assert(i + 1 <= n);
        if failed {
            self.remove_client(i);
        }
        i + 1
    }

    /// Drops player `i`, whose stream failed.
    pub fn remove_client(&mut self, i: usize)
        requires
            i < old(self).clients@.len(),
        ensures
            final(self).clients@ == old(self).clients@.remove(i as int),
            final(self).words@ == old(self).words@,
    {
        self.clients.remove(i);
    }

    /// What to pass on of a message from player `username`; `None` stands for text that is
    /// not JSON. Returns `None` for a message that is not passed on.
    pub fn process_message(&self, json: Option<Envelope>, username: String) -> (r: Option<
        Envelope,
    >)
        requires
            server_readable(opt_envelope(json)),
        ensures
            opt_envelope(r) == relayed(opt_envelope(json), username@),
    {
        let m = Message::from(json);
        match m {
            Message::Keypress(wpm) => Some(Message::Keypress(wpm).forwardable(username)),
            Message::Finished(wpm) => Some(Message::Finished(wpm).forwardable(username)),
            _ => None,
        }
    }
}

/// The `start` message for a game with the given text.
pub fn start_message(words: &str) -> (e: Envelope)
    ensures
        e@ == start_envelope(words@),
{
    let mut e = Envelope::with_call("start");
    e.data.words = Some(words.to_owned());
    e
}

/// Reads a command line of the server's operator; returns the message to send every player.
pub fn input_handler(data: &str) -> (r: Option<Envelope>)
    ensures
        opt_envelope(r) == command_result(data@),
{
    proof {
        reveal_strlit(" ");
        assert(" "@ =~= seq![' ']);
        crate::text::lemma_split_nonempty(data@, seq![' ']);
    }
    let args = split_text(data, " ");
    let first = trim_text(args[0].as_str());
    assert(args@[0]@ == views(args@)[0]);
    if same_text(first.as_str(), "start") {
        Some(start_message("here are some random words"))
    } else {
        None
    }
}

} // verus!
