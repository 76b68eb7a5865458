//! What the game's messages carry on the wire. Each message is a JSON object
//! `{"call": .., "data": {..}}`; an [`Envelope`] holds the fields of it that the game
//! reads or writes, each one present exactly when the JSON holds it with the right type.
//! Turning JSON text into an envelope and back is done outside this crate.
use vstd::prelude::*;
use vstd::utf8::{
    decode_utf8, encode_scalar, encode_utf8, has_width_1_encoding, valid_utf8,
};

verus! {

/// One entry of the `players` array of an `init` message.
pub struct PlayerEntry {
    pub username: Option<String>,
    pub color: Option<String>,
}

/// The `data` object of a message.
pub struct Payload {
    pub username: Option<String>,
    pub color: Option<String>,
    /// A number, as the bit pattern of the IEEE-754 double it reads as.
    pub wpm: Option<u64>,
    pub words: Option<String>,
    pub players: Option<Vec<PlayerEntry>>,
}

/// A message: its `call` and its `data`.
pub struct Envelope {
    pub call: Option<String>,
    pub data: Payload,
}

/// The view of an optional string.
pub open spec fn opt_view(o: Option<String>) -> Option<Seq<char>> {
    match o {
        Some(s) => Some(s@),
        None => None,
    }
}

/// A player entry as plain values.
pub struct PlayerEntryView {
    pub username: Option<Seq<char>>,
    pub color: Option<Seq<char>>,
}

impl View for PlayerEntry {
    type V = PlayerEntryView;

    open spec fn view(&self) -> PlayerEntryView {
        PlayerEntryView { username: opt_view(self.username), color: opt_view(self.color) }
    }
}

/// The views of a list of optional strings.
pub open spec fn opt_views(v: Seq<Option<String>>) -> Seq<Option<Seq<char>>> {
    v.map_values(|o: Option<String>| opt_view(o))
}

/// The views of a list of player entries.
pub open spec fn entry_views(v: Seq<PlayerEntry>) -> Seq<PlayerEntryView> {
    v.map_values(|p: PlayerEntry| p@)
}

/// A message as plain values.
pub struct EnvelopeView {
    pub call: Option<Seq<char>>,
    pub username: Option<Seq<char>>,
    pub color: Option<Seq<char>>,
    pub wpm: Option<u64>,
    pub words: Option<Seq<char>>,
    pub players: Option<Seq<PlayerEntryView>>,
}

impl View for Envelope {
    type V = EnvelopeView;

    open spec fn view(&self) -> EnvelopeView {
        EnvelopeView {
            call: opt_view(self.call),
            username: opt_view(self.data.username),
            color: opt_view(self.data.color),
            wpm: self.data.wpm,
            words: opt_view(self.data.words),
            players: match self.data.players {
                Some(v) => Some(entry_views(v@)),
                None => None,
            },
        }
    }
}

/// A message with the given call and nothing else.
pub open spec fn bare(call: Seq<char>) -> EnvelopeView {
    EnvelopeView {
        call: Some(call),
        username: None,
        color: None,
        wpm: None,
        words: None,
        players: None,
    }
}

/// The message of no call and no data: the JSON `{}`.
pub open spec fn empty_envelope() -> EnvelopeView {
    EnvelopeView { call: None, ..bare(Seq::<char>::empty()) }
}

/// The view of an optional message, `None` standing for text that is not JSON.
pub open spec fn opt_envelope(o: Option<Envelope>) -> Option<EnvelopeView> {
    match o {
        Some(e) => Some(e@),
        None => None,
    }
}

impl Envelope {
    /// A message with the given call and no data.
    pub fn with_call(call: &str) -> (e: Envelope)
        ensures
            e@ == bare(call@),
    {
        Envelope {
            call: Some(call.to_owned()),
            data: Payload { username: None, color: None, wpm: None, words: None, players: None },
        }
    }

    /// The message `{}`.
    pub fn empty() -> (e: Envelope)
        ensures
            e@ == empty_envelope(),
    {
        Envelope {
            call: None,
            data: Payload { username: None, color: None, wpm: None, words: None, players: None },
        }
    }
}

/// The names of the calls differ from each other.
pub proof fn lemma_calls_distinct()
    ensures
        "join"@ != "keypress"@,
        "join"@ != "finished"@,
        "join"@ != "init"@,
        "join"@ != "start"@,
        "keypress"@ != "finished"@,
        "keypress"@ != "init"@,
        "keypress"@ != "start"@,
        "finished"@ != "init"@,
        "finished"@ != "start"@,
        "init"@ != "start"@,
{
    reveal_strlit("join");
    reveal_strlit("keypress");
    reveal_strlit("finished");
    reveal_strlit("init");
    reveal_strlit("start");
    assert("join"@[0] == 'j' && "keypress"@[0] == 'k' && "finished"@[0] == 'f' && "init"@[0]
        == 'i' && "start"@[0] == 's');
}

/// The bytes of a read buffer without its zero bytes, which are padding.
pub open spec fn strip_zeros(b: Seq<u8>) -> Seq<u8>
    decreases b.len(),
{
    if b.len() == 0 {
        b
    } else if b.last() == 0 {
        strip_zeros(b.drop_last())
    } else {
        strip_zeros(b.drop_last()).push(b.last())
    }
}

/// `k` zero bytes: the padding of a read buffer.
pub open spec fn padding(k: nat) -> Seq<u8> {
    Seq::new(k, |i: int| 0u8)
}

/// No character of the text is NUL.
pub open spec fn nul_free(s: Seq<char>) -> bool {
    forall|i: int| 0 <= i < s.len() ==> #[trigger] s[i] != '\0'
}

proof fn lemma_scalar_bytes_nonzero(c: char)
    requires
        c != '\0',
    ensures
        forall|i: int|
            0 <= i < encode_scalar(c as u32).len() ==> #[trigger] encode_scalar(c as u32)[i] != 0,
{
    let u = c as u32;
    vstd::utf8::char_is_scalar(c);
    assert(u != 0);
    if has_width_1_encoding(u) {
        assert(u >= 1 && u <= 0x7F ==> ((u & 0x7F) as u8) != 0) by (bit_vector);
    } else {
        assert(((0xC0u8 | ((u >> 6) & 0x1F) as u8)) != 0) by (bit_vector);
        assert(((0xE0u8 | ((u >> 12) & 0x0F) as u8)) != 0) by (bit_vector);
        assert(((0xF0u8 | ((u >> 18) & 0x7) as u8)) != 0) by (bit_vector);
        assert(((0x80u8 | (u & 0x3F) as u8)) != 0) by (bit_vector);
        assert(((0x80u8 | ((u >> 6) & 0x3F) as u8)) != 0) by (bit_vector);
        assert(((0x80u8 | ((u >> 12) & 0x3F) as u8)) != 0) by (bit_vector);
    }
}

proof fn lemma_encoding_nonzero(s: Seq<char>)
    requires
        nul_free(s),
    ensures
        forall|i: int| 0 <= i < encode_utf8(s).len() ==> #[trigger] encode_utf8(s)[i] != 0,
    decreases s.len(),
{
    if s.len() > 0 {
        lemma_scalar_bytes_nonzero(s[0]);
        assert(nul_free(s.drop_first()));
        lemma_encoding_nonzero(s.drop_first());
        let head = encode_scalar(s[0] as u32);
        let tail = encode_utf8(s.drop_first());
        assert forall|i: int| 0 <= i < encode_utf8(s).len() implies #[trigger] encode_utf8(s)[i] != 0 by {
            if i < head.len() {
                assert(encode_utf8(s)[i] == head[i]);
            } else {
                assert(encode_utf8(s)[i] == tail[i - head.len()]);
            }
        }
    }
}

proof fn lemma_strip_zeros_of_nonzero(b: Seq<u8>)
    requires
        forall|i: int| 0 <= i < b.len() ==> #[trigger] b[i] != 0,
    ensures
        strip_zeros(b) == b,
    decreases b.len(),
{
    if b.len() > 0 {
        lemma_strip_zeros_of_nonzero(b.drop_last());
        assert(b.drop_last().push(b.last()) =~= b);
    }
}

proof fn lemma_strip_padding(b: Seq<u8>, k: nat)
    ensures
        strip_zeros(b + padding(k)) == strip_zeros(b),
    decreases k,
{
    if k == 0 {
        assert(b + padding(0) =~= b);
    } else {
        assert((b + padding(k)).drop_last() =~= b + padding((k - 1) as nat));
        lemma_strip_padding(b, (k - 1) as nat);
    }
}

/// A text without NUL characters, sent as UTF-8 and read into a buffer padded with zero
/// bytes, reads back as the same text.
pub proof fn lemma_frame_roundtrip(s: Seq<char>, k: nat)
    requires
        s.len() > 0,
        nul_free(s),
    ensures
        strip_zeros(encode_utf8(s) + padding(k)).len() > 0,
        valid_utf8(strip_zeros(encode_utf8(s) + padding(k))),
        decode_utf8(strip_zeros(encode_utf8(s) + padding(k))) == s,
{
    lemma_strip_padding(encode_utf8(s), k);
    lemma_encoding_nonzero(s);
    lemma_strip_zeros_of_nonzero(encode_utf8(s));
    vstd::utf8::encode_utf8_valid_utf8(s);
    vstd::utf8::encode_utf8_decode_utf8(s);
    vstd::utf8::char_is_scalar(s[0]);
}

/// What one read from a socket gives.
pub enum Frame {
    /// Nothing but padding.
    Empty,
    /// Text.
    Text(String),
    /// Bytes that are not UTF-8.
    NotUtf8,
}

/// `String::from_utf8`: the text that the bytes encode in UTF-8, or `None` when they are
/// not UTF-8.
#[verifier::external_body]
fn text_from_utf8(bytes: Vec<u8>) -> (r: Option<String>)
    ensures
        r is Some <==> valid_utf8(bytes@),
        r matches Some(s) ==> s@ == decode_utf8(bytes@),
{
    match String::from_utf8(bytes) {
        Ok(s) => Some(s),
        Err(_) => None,
    }
}

/// Reads a buffer filled from a socket: its zero bytes dropped, then decoded as UTF-8.
pub fn read_frame(buf: Vec<u8>) -> (f: Frame)
    ensures
        strip_zeros(buf@).len() == 0 ==> f is Empty,
        strip_zeros(buf@).len() > 0 && valid_utf8(strip_zeros(buf@)) ==> (f matches Frame::Text(
            s,
        ) && s@ == decode_utf8(strip_zeros(buf@))),
        strip_zeros(buf@).len() > 0 && !valid_utf8(strip_zeros(buf@)) ==> f is NotUtf8,
{
    let mut kept: Vec<u8> = Vec::new();
    let mut i: usize = 0;
    assert(buf@.take(0) =~= Seq::<u8>::empty());
    while i < buf.len()
        invariant
            i <= buf.len(),
            kept@ == strip_zeros(buf@.take(i as int)),
        decreases buf.len() - i,
    {
        assert(buf@.take(i + 1).drop_last() =~= buf@.take(i as int));
        if buf[i] != 0 {
            kept.push(buf[i]);
        }
        i += 1;
    }
    assert(buf@.take(i as int) =~= buf@);
    if kept.len() == 0 {
        Frame::Empty
    } else {
        match text_from_utf8(kept) {
            Some(s) => Frame::Text(s),
            None => Frame::NotUtf8,
        }
    }
}

} // verus!
