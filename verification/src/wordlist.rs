//! The text a player types: a list of words with their definitions.
use vstd::prelude::*;
use crate::text::{
    byte_count, byte_len, byte_prefix, join_text, join_with, lemma_join_split, lemma_trim_byte_len, on_char_boundary, prefix_bytes, split_by, split_text,
    trim, trim_text, views,
};
use crate::word::Word;

verus! {

/// The words of a list of (word, definition) pairs.
pub open spec fn words_of(l: Seq<(Seq<char>, Seq<char>)>) -> Seq<Seq<char>> {
    l.map_values(|p: (Seq<char>, Seq<char>)| p.0)
}

/// The definitions of a list of (word, definition) pairs.
pub open spec fn defs_of(l: Seq<(Seq<char>, Seq<char>)>) -> Seq<Seq<char>> {
    l.map_values(|p: (Seq<char>, Seq<char>)| p.1)
}

/// The text to type: the words separated by single spaces, without surrounding white space.
pub open spec fn text_of(l: Seq<(Seq<char>, Seq<char>)>) -> Seq<char> {
    trim(join_with(words_of(l), seq![' ']))
}

/// The word list read from a text: its pieces between spaces, each without a definition.
pub open spec fn list_of_text(s: Seq<char>) -> Seq<(Seq<char>, Seq<char>)> {
    split_by(s, seq![' ']).map_values(|w: Seq<char>| (w, Seq::<char>::empty()))
}

/// The word list after `resize(width)`: cut to the first `width` bytes of its text
/// when the text is longer, else unchanged.
pub open spec fn resized(l: Seq<(Seq<char>, Seq<char>)>, width: int) -> Seq<(Seq<char>, Seq<char>)> {
    if byte_len(text_of(l)) > width {
        list_of_text(byte_prefix(text_of(l), width))
    } else {
        l
    }
}

/// The text of the word list read from a text is that text, trimmed; no word has a definition.
pub proof fn lemma_text_of_list_of_text(s: Seq<char>)
    ensures
        text_of(list_of_text(s)) == trim(s),
        words_of(list_of_text(s)) == split_by(s, seq![' ']),
        forall|i: int| 0 <= i < list_of_text(s).len() ==> #[trigger] list_of_text(s)[i].1 == Seq::<char>::empty(),
{
    assert(words_of(list_of_text(s)) =~= split_by(s, seq![' ']));
    lemma_join_split(s, seq![' ']);
}

/// After `resize(width)` the text to type takes at most `width` bytes.
pub proof fn lemma_resized_fits(l: Seq<(Seq<char>, Seq<char>)>, width: int)
    requires
        width >= 0,
        byte_len(text_of(l)) > width ==> on_char_boundary(text_of(l), width),
    ensures
        byte_len(text_of(resized(l, width))) <= width,
{
    if byte_len(text_of(l)) > width {
        let cut = byte_prefix(text_of(l), width);
        lemma_text_of_list_of_text(cut);
        lemma_trim_byte_len(cut);
    }
}

/// Resizing to the same width twice is resizing once.
pub proof fn lemma_resize_idempotent(l: Seq<(Seq<char>, Seq<char>)>, width: int)
    requires
        width >= 0,
        byte_len(text_of(l)) > width ==> on_char_boundary(text_of(l), width),
    ensures
        resized(resized(l, width), width) == resized(l, width),
{
    lemma_resized_fits(l, width);
}

/// The words to type in a game, with their definitions.
pub struct Wordlist {
    words: Vec<Word>,
}

impl View for Wordlist {
    /// The (word, definition) pairs in order.
    type V = Seq<(Seq<char>, Seq<char>)>;

    closed spec fn view(&self) -> Seq<(Seq<char>, Seq<char>)> {
        self.words@.map_values(|w: Word| w@)
    }
}

impl Wordlist {
    /// A word list of the given words.
    pub fn new(words: Vec<Word>) -> (l: Wordlist)
        ensures
            l@ == words@.map_values(|w: Word| w@),
    {
        Wordlist { words }
    }

    /// The word list of a text: one word, without definition, per piece between spaces.
    pub fn from(data: String) -> (l: Wordlist)
        ensures
            l@ == list_of_text(data@),
    {
        proof {
            reveal_strlit(" ");
            assert(" "@ =~= seq![' ']);
        }
        let pieces = split_text(data.as_str(), " ");
        let mut words: Vec<Word> = Vec::new();
        let mut i: usize = 0;
        while i < pieces.len()
            invariant
                i <= pieces.len(),
                views(pieces@) == split_by(data@, seq![' ']),
                words@.map_values(|w: Word| w@) =~= split_by(data@, seq![' ']).take(
                    i as int,
                ).map_values(|w: Seq<char>| (w, Seq::<char>::empty())),
            decreases pieces.len() - i,
        {
            let w = Word::new(pieces[i].as_str(), "");
            proof {
                reveal_strlit("");
                assert(""@ =~= Seq::<char>::empty());
            }
            assert(pieces@[i as int]@ == views(pieces@)[i as int]);
            let ghost before = words@;
            words.push(w);
            proof {
                let sp = split_by(data@, seq![' ']);
                assert(words@ =~= before.push(w));
                assert(words@.map_values(|w: Word| w@) =~= before.map_values(|w: Word| w@).push(w@));
                assert(sp.take(i + 1).map_values(|w: Seq<char>| (w, Seq::<char>::empty())) =~= sp.take(
                    i as int,
                ).map_values(|w: Seq<char>| (w, Seq::<char>::empty())).push((sp[i as int], Seq::<char>::empty())));
            }
            i += 1;
        }
        assert(split_by(data@, seq![' ']).take(i as int) =~= split_by(data@, seq![' ']));
        Wordlist { words }
    }

    /// The text to type: the words joined by spaces, trimmed.
    pub fn to_string(&self) -> (s: String)
        ensures
            s@ == text_of(self@),
    {
        let words = self.words();
        let joined = join_text(&words, " ");
        proof {
            reveal_strlit(" ");
            assert(" "@ =~= seq![' ']);
            assert(views(words@) =~= words_of(self@));
        }
        trim_text(joined.as_str())
    }

    /// The definitions, in order.
    pub fn defs(&self) -> (d: Vec<String>)
        ensures
            views(d@) == defs_of(self@),
    {
        let mut d: Vec<String> = Vec::new();
        let mut i: usize = 0;
        while i < self.words.len()
            invariant
                i <= self.words.len(),
                views(d@) =~= defs_of(self@).take(i as int),
            decreases self.words.len() - i,
        {
            let ghost before = d@;
            let x = self.words[i].get_definition().clone();
            d.push(x);
            assert(d@ =~= before.push(x));
            assert(views(d@) =~= views(before).push(x@));
            assert(defs_of(self@).take(i + 1) =~= defs_of(self@).take(i as int).push(
                self.words@[i as int]@.1,
            ));
            i += 1;
        }
        assert(defs_of(self@).take(i as int) =~= defs_of(self@));
        d
    }

    /// The words, in order.
    pub fn words(&self) -> (w: Vec<String>)
        ensures
            views(w@) == words_of(self@),
    {
        let mut w: Vec<String> = Vec::new();
        let mut i: usize = 0;
        while i < self.words.len()
            invariant
                i <= self.words.len(),
                views(w@) =~= words_of(self@).take(i as int),
            decreases self.words.len() - i,
        {
            let ghost before = w@;
            let x = self.words[i].get_word().clone();
            w.push(x);
            assert(w@ =~= before.push(x));
            assert(views(w@) =~= views(before).push(x@));
            assert(words_of(self@).take(i + 1) =~= words_of(self@).take(i as int).push(
                self.words@[i as int]@.0,
            ));
            i += 1;
        }
        assert(words_of(self@).take(i as int) =~= words_of(self@));
        w
    }

    /// Cuts the text to its first `width` bytes when it is longer, keeping whole
    /// characters; the words then have no definitions.
    pub fn resize(&mut self, width: u16)
        requires
            byte_len(text_of(old(self)@)) > width ==> on_char_boundary(
                text_of(old(self)@),
                width as int,
            ),
        ensures
            final(self)@ == resized(old(self)@, width as int),
    {
        let before = self.to_string();
        if byte_count(before.as_str()) > width as u128 {
            let cut = prefix_bytes(before.as_str(), width as usize);
            self.words = Self::from(cut).words;
        }
    }
}

} // verus!
