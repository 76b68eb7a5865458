//! What the typing screen shows: the text, each character marked as typed right, typed
//! wrong or still to type, and the definition of the word being typed.
use vstd::prelude::*;
use crate::app::App;
use crate::text::{byte_count, byte_len, byte_prefix, chars_of, is_boundary, on_char_boundary, prefix_bytes, split_by, split_text, views};
use crate::wordlist::{defs_of, text_of};

verus! {

/// How a character of the text is shown.
#[derive(Clone, Copy, Debug, PartialEq, Eq, Structural)]
pub enum Mark {
    /// Typed, and typed right.
    Right,
    /// Typed, and typed wrong.
    Wrong,
    /// Not typed yet.
    Pending,
}

/// The text as the screen shows it: cut to the first `width` bytes when longer.
pub open spec fn shown_words(text: Seq<char>, width: u16) -> Seq<char> {
    if byte_len(text) > width {
        byte_prefix(text, width as int)
    } else {
        text
    }
}

/// Piece `i` of a text split into single characters with an empty piece at each end:
/// the character at `i - 1`, or nothing at the ends and beyond.
pub open spec fn piece(s: Seq<char>, i: int) -> Option<char> {
    if 1 <= i <= s.len() {
        Some(s[i - 1])
    } else {
        None
    }
}

/// How piece `i` of the text is shown: pieces before the cursor are right when they match
/// the piece typed, wrong otherwise; the others are still to type.
pub open spec fn mark_at(words: Seq<char>, input: Seq<char>, cursor: int, i: int) -> Mark {
    if i < cursor {
        if piece(words, i) == piece(input, i) {
            Mark::Right
        } else {
            Mark::Wrong
        }
    } else {
        Mark::Pending
    }
}

/// The marks of all pieces of the text: one for each character and one for each end.
pub open spec fn marks_of(words: Seq<char>, input: Seq<char>, cursor: int) -> Seq<Mark> {
    Seq::new(words.len() + 2, |i: int| mark_at(words, input, cursor, i))
}

/// The definition shown: that of the word being typed (counted by the spaces typed), or
/// nothing past the last word.
pub open spec fn shown_definition(defs: Seq<Seq<char>>, input: Seq<char>) -> Seq<char> {
    let index = split_by(input, seq![' ']).len() - 1;
    if defs.len() > index {
        defs[index]
    } else {
        Seq::<char>::empty()
    }
}

/// A text typed exactly, with the cursor after it, shows every character as right and
/// only the closing empty piece as still to type.
pub proof fn lemma_exact_typing_all_right(words: Seq<char>)
    ensures
        marks_of(words, words, words.len() + 1 as int) == Seq::new(
            words.len() + 2,
            |i: int| if i <= words.len() { Mark::Right } else { Mark::Pending },
        ),
{
    assert(marks_of(words, words, words.len() + 1 as int) =~= Seq::new(
        words.len() + 2,
        |i: int| if i <= words.len() { Mark::Right } else { Mark::Pending },
    ));
}

/// What the typing screen shows.
pub struct TypingView {
    /// The text, cut to the screen's width.
    pub text: String,
    /// One mark per piece of the text: an empty piece, each character, an empty piece.
    pub marks: Vec<Mark>,
    /// The definition of the word being typed.
    pub definition: String,
}

/// Whether the typing screen can be drawn without failing: there is a screen area, the cut
/// of the text falls between characters, and every piece before the cursor has a piece
/// typed to compare with.
pub open spec fn drawable<S>(app: App<S>) -> bool {
    let text = text_of(app.wordlist@);
    &&& app.chunks@.len() > 0
    &&& byte_len(text) > app.chunks@[0].width ==> on_char_boundary(text, app.chunks@[0].width as int)
    &&& (if app.current_index < shown_words(text, app.chunks@[0].width).len() + 2 {
        app.current_index as int
    } else {
        shown_words(text, app.chunks@[0].width).len() + 2 as int
    }) <= app.input_string@.len() + 2
}

/// During a game, the typing screen can always be drawn once there is a screen area whose
/// width cuts the text between characters: the cursor never runs past what was typed.
pub proof fn lemma_game_drawable<S>(app: App<S>)
    requires
        crate::app::app_inv(app@),
        app.state == crate::app::State::TypingGame,
        app.chunks@.len() > 0,
        byte_len(text_of(app.wordlist@)) > app.chunks@[0].width ==> on_char_boundary(
            text_of(app.wordlist@),
            app.chunks@[0].width as int,
        ),
    ensures
        drawable(app),
{
}

/// Whether the typing screen can be drawn (see `drawable`).
pub fn can_draw<S>(app: &App<S>) -> (b: bool)
    ensures
        b == drawable(*app),
{
    if app.chunks.len() == 0 {
        return false;
    }
    let full = app.wordlist.to_string();
    let width = app.chunks[0].width;
    let text = if byte_count(full.as_str()) > width as u128 {
        if !is_boundary(full.as_str(), width as usize) {
            return false;
        }
        prefix_bytes(full.as_str(), width as usize)
    } else {
        full
    };
    let n = chars_of(text.as_str()).len() as u128 + 2;
    let typed = chars_of(app.input_string.as_str()).len() as u128 + 2;
    let limit = if (app.current_index as u128) < n {
        app.current_index as u128
    } else {
        n
    };
    limit <= typed
}

/// What the typing screen shows of a game.
pub fn typing_view<S>(app: &App<S>) -> (v: TypingView)
    requires
        drawable(*app),
    ensures
        v.text@ == shown_words(text_of(app.wordlist@), app.chunks@[0].width),
        v.marks@ == marks_of(v.text@, app.input_string@, app.current_index as int),
        v.definition@ == shown_definition(defs_of(app.wordlist@), app.input_string@),
{
    let full = app.wordlist.to_string();
    let width = app.chunks[0].width;
    let text = if byte_count(full.as_str()) > width as u128 {
        prefix_bytes(full.as_str(), width as usize)
    } else {
        full
    };
    let w = chars_of(text.as_str());
    let t = chars_of(app.input_string.as_str());
    proof {
        crate::text::lemma_byte_len_take_mono(w@, 0, w@.len() as int);
        assert(w@.take(0) =~= Seq::<char>::empty());
        assert(w@.take(w@.len() as int) =~= w@);
    }
    let mut marks: Vec<Mark> = Vec::new();
    let mut i: usize = 0;
    let n = w.len() + 2;
    let ghost target = marks_of(w@, t@, app.current_index as int);
    while i < n
        invariant
            i <= n,
            n == w@.len() + 2,
            target == marks_of(w@, t@, app.current_index as int),
            marks@ =~= target.take(i as int),
        decreases n - i,
    {
        let m = if i < app.current_index {
            let a = if 1 <= i && i <= w.len() {
                Some(w[i - 1])
            } else {
                None
            };
            let b = if 1 <= i && i <= t.len() {
                Some(t[i - 1])
            } else {
                None
            };
            if a == b {
                Mark::Right
            } else {
                Mark::Wrong
            }
        } else {
            Mark::Pending
        };
        assert(m == target[i as int]);
        marks.push(m);
        assert(target.take(i + 1) =~= target.take(i as int).push(m));
        i += 1;
    }
    assert(target.take(i as int) =~= target);
    proof {
        reveal_strlit(" ");
        assert(" "@ =~= seq![' ']);
        crate::text::lemma_split_nonempty(app.input_string@, seq![' ']);
    }
    let typed_words = split_text(app.input_string.as_str(), " ");
    let index = typed_words.len() - 1;
    let defs = app.wordlist.defs();
    assert(defs@.len() == views(defs@).len());
    let definition = if defs.len() > index {
        assert(defs@[index as int]@ == views(defs@)[index as int]);
        defs[index].clone()
    } else {
        String::new()
    };
    TypingView { text, marks, definition }
}

} // verus!
