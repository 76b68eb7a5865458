//! Writing word lists: for each word of a text, an entry with the word and the definition
//! found for it, in the format the parser reads.
use vstd::prelude::*;
use crate::parser::{chunks_of, entry_of, is_comment, lines_of};
use crate::text::{chars_of, has_prefix, push_char, split_by, split_text, views};
use crate::wire::{opt_view, opt_views};

verus! {

/// `s` without any occurrence of `c`.
pub open spec fn without_char(s: Seq<char>, c: char) -> Seq<char>
    decreases s.len(),
{
    if s.len() == 0 {
        s
    } else if s.last() == c {
        without_char(s.drop_last(), c)
    } else {
        without_char(s.drop_last(), c).push(s.last())
    }
}

/// The entry written for a word and its definition: the word without line breaks, a line
/// break, the definition, and a blank line.
pub open spec fn entry_text(word: Seq<char>, definition: Seq<char>) -> Seq<char> {
    without_char(word, '\n') + seq!['\n'] + definition + seq!['\n', '\n']
}

/// The address that asks the dictionary for a word.
pub open spec fn lookup_url_of(word: Seq<char>) -> Seq<char> {
    "https://api.urbandictionary.com/v0/define?term="@ + word + "&page=1"@
}

/// The address that asks the dictionary for `word`.
pub fn lookup_url(word: &str) -> (u: String)
    ensures
        u@ == lookup_url_of(word@),
{
    "https://api.urbandictionary.com/v0/define?term=".to_owned().concat(word).concat("&page=1")
}

/// The words to look up: the pieces of the text between spaces.
pub fn generator_terms(data: &str) -> (terms: Vec<String>)
    ensures
        views(terms@) == split_by(data@, seq![' ']),
{
    proof {
        reveal_strlit(" ");
        assert(" "@ =~= seq![' ']);
    }
    split_text(data, " ")
}

/// The definitions of a dictionary reply: `None` where the reply is not JSON or its `list`
/// is not an array, else for each element of the list its `definition` where that is a
/// string.
pub uninterp spec fn reply_definitions(reply: Seq<char>) -> Option<Seq<Option<Seq<char>>>>;

/// `serde_json::from_str` into a `serde_json::Value`, then for each element of the array
/// at `list` the string at `definition`. The contract names the outcome
/// (`reply_definitions`) as a function of the reply alone.
#[verifier::external_body]
fn reply_texts(reply: &str) -> (r: Option<Vec<Option<String>>>)
    ensures
        match r {
            Some(v) => reply_definitions(reply@) == Some(opt_views(v@)),
            None => reply_definitions(reply@) is None,
        },
{
    let json: serde_json::Value = serde_json::from_str(reply).ok()?;
    let list = json["list"].as_array()?;
    Some(list.iter().map(|d| d["definition"].as_str().map(|s| s.to_string())).collect())
}

/// The first definition of a dictionary reply: `None` where the reply has no list of
/// definitions, the list is empty, or its first element has no definition text.
pub fn first_definition(reply: &str) -> (d: Option<String>)
    ensures
        d is Some <==> (reply_definitions(reply@) is Some && reply_definitions(reply@)->0.len() > 0
            && reply_definitions(reply@)->0[0] is Some),
        d matches Some(s) ==> s@ == reply_definitions(reply@)->0[0]->0,
{
    match reply_texts(reply) {
        None => None,
        Some(texts) => {
            if texts.len() > 0 {
                assert(opt_views(texts@)[0] == opt_view(texts@[0]));
                match &texts[0] {
                    Some(s) => Some(s.clone()),
                    None => None,
                }
            } else {
                None
            }
        },
    }
}

/// The entry for `word` with its definition.
pub fn wordlist_entry(word: &str, definition: &str) -> (e: String)
    ensures
        e@ == entry_text(word@, definition@),
{
    let v = chars_of(word);
    let mut e = String::new();
    let mut i: usize = 0;
    assert(v@.take(0) =~= Seq::<char>::empty());
    while i < v.len()
        invariant
            i <= v.len(),
            v@ == word@,
            e@ == without_char(v@.take(i as int), '\n'),
        decreases v.len() - i,
    {
        assert(v@.take(i + 1).drop_last() =~= v@.take(i as int));
        if v[i] != '\n' {
            push_char(&mut e, v[i]);
        }
        i += 1;
    }
    assert(v@.take(i as int) =~= v@);
    push_char(&mut e, '\n');
    let e = e.concat(definition);
    let mut e = e;
    push_char(&mut e, '\n');
    push_char(&mut e, '\n');
    assert(e@ =~= entry_text(word@, definition@));
    e
}

// ---------------------------------------------------------------------------
// Reading back what was written
// ---------------------------------------------------------------------------
/// The word list written for a list of (word, definition) pairs.
pub open spec fn written(entries: Seq<(Seq<char>, Seq<char>)>) -> Seq<char>
    decreases entries.len(),
{
    if entries.len() == 0 {
        Seq::<char>::empty()
    } else {
        entry_text(entries[0].0, entries[0].1) + written(entries.drop_first())
    }
}

/// `s` holds no `c`.
pub open spec fn free_of(s: Seq<char>, c: char) -> bool {
    forall|i: int| 0 <= i < s.len() ==> #[trigger] s[i] != c
}

proof fn lemma_without_char_free(s: Seq<char>, c: char)
    ensures
        free_of(without_char(s, c), c),
    decreases s.len(),
{
    if s.len() > 0 {
        lemma_without_char_free(s.drop_last(), c);
    }
}

/// No occurrence of `sep` starts before position `n` of `s`.
pub open spec fn no_match_before(s: Seq<char>, sep: Seq<char>, n: int) -> bool {
    forall|i: int| 0 <= i < n ==> !(#[trigger] s.skip(i).len() >= sep.len() && s.skip(i).take(
        sep.len() as int,
    ) == sep)
}

/// Splitting `x`, the separator and `y`, where no occurrence of the separator starts within
/// `x`, gives `x` and then the pieces of `y`.
proof fn lemma_split_front(x: Seq<char>, sep: Seq<char>, y: Seq<char>)
    requires
        sep.len() > 0,
        no_match_before(x + sep + y, sep, x.len() as int),
    ensures
        split_by(x + sep + y, sep) == seq![x] + split_by(y, sep),
    decreases x.len(),
{
    let s = x + sep + y;
    if x.len() == 0 {
        assert(s =~= sep + y);
        assert(s.take(sep.len() as int) =~= sep);
        assert(s.skip(sep.len() as int) =~= y);
        assert(x =~= Seq::<char>::empty());
    } else {
        assert(s.skip(0) =~= s);
        assert(!(s.len() >= sep.len() && s.take(sep.len() as int) == sep));
        let t = x.drop_first() + sep + y;
        assert(s.drop_first() =~= t);
        assert forall|i: int| 0 <= i < x.drop_first().len() implies !(#[trigger] t.skip(i).len()
            >= sep.len() && t.skip(i).take(sep.len() as int) == sep) by {
            assert(s.skip(i + 1) =~= t.skip(i));
        }
        lemma_split_front(x.drop_first(), sep, y);
        crate::text::lemma_split_nonempty(y, sep);
        assert(seq![s[0]] + x.drop_first() =~= x);
        assert((seq![x.drop_first()] + split_by(y, sep)).update(0, seq![s[0]] + x.drop_first())
            =~= seq![x] + split_by(y, sep));
    }
}

/// A text that holds no `c` splits at `c` into itself.
proof fn lemma_split_free(s: Seq<char>, c: char)
    requires
        free_of(s, c),
    ensures
        split_by(s, seq![c]) == seq![s],
    decreases s.len(),
{
    if s.len() > 0 {
        assert(s.take(1)[0] == s[0]);
        assert(s.take(1) != seq![c]);
        lemma_split_free(s.drop_first(), c);
        assert(seq![s[0]] + s.drop_first() =~= s);
        assert(seq![s.drop_first()].update(0, seq![s[0]] + s.drop_first()) =~= seq![s]);
    } else {
        assert(s =~= Seq::<char>::empty());
    }
}

/// The entry the parser reads for a written word and definition.
pub open spec fn chunk_text(word: Seq<char>, definition: Seq<char>) -> Seq<char> {
    without_char(word, '\n') + seq!['\n'] + definition
}

/// A written word list reads back, entry by entry, as the entries written and a last empty
/// one, provided every definition is a single non-empty line.
pub proof fn lemma_written_chunks(entries: Seq<(Seq<char>, Seq<char>)>)
    requires
        forall|k: int|
            0 <= k < entries.len() ==> (#[trigger] entries[k]).1.len() > 0 && free_of(
                entries[k].1,
                '\n',
            ),
    ensures
        chunks_of(written(entries)) == entries.map_values(
            |e: (Seq<char>, Seq<char>)| chunk_text(e.0, e.1),
        ).push(Seq::<char>::empty()),
    decreases entries.len(),
{
    let sep = seq!['\n', '\n'];
    if entries.len() == 0 {
        assert(chunks_of(written(entries)) =~= seq![Seq::<char>::empty()]);
    } else {
        let (w, d) = entries[0];
        let rest = entries.drop_first();
        let x = chunk_text(w, d);
        let w1 = without_char(w, '\n');
        lemma_without_char_free(w, '\n');
        let s = x + sep + written(rest);
        assert(written(entries) =~= s);
        assert forall|i: int| 0 <= i < x.len() implies !(#[trigger] s.skip(i).len() >= sep.len()
            && s.skip(i).take(sep.len() as int) == sep) by {
            if s.skip(i).len() >= sep.len() && s.skip(i).take(sep.len() as int) == sep {
                assert(s[i] == '\n');
                assert(s[i + 1] == '\n');
                if i < w1.len() {
                    assert(s[i] == w1[i]);
                } else if i == w1.len() {
                    assert(s[i + 1] == d[0]);
                } else {
                    assert(s[i] == d[i - w1.len() - 1]);
                }
            }
        }
        lemma_split_front(x, sep, written(rest));
        lemma_written_chunks(rest);
        assert(entries.map_values(|e: (Seq<char>, Seq<char>)| chunk_text(e.0, e.1)).push(
            Seq::<char>::empty(),
        ) =~= seq![x] + rest.map_values(|e: (Seq<char>, Seq<char>)| chunk_text(e.0, e.1)).push(
            Seq::<char>::empty(),
        ));
    }
}

/// An entry written for a word and a single-line definition reads back as the word without
/// line breaks and that definition, and is a comment exactly when that word starts with `#`.
pub proof fn lemma_entry_reads_back(word: Seq<char>, definition: Seq<char>)
    requires
        free_of(definition, '\n'),
    ensures
        entry_of(chunk_text(word, definition), true) == (without_char(word, '\n'), definition),
        is_comment(chunk_text(word, definition)) == has_prefix(without_char(word, '\n'), seq!['#']),
{
    let w1 = without_char(word, '\n');
    lemma_without_char_free(word, '\n');
    let s = w1 + seq!['\n'] + definition;
    assert forall|i: int| 0 <= i < w1.len() implies !(#[trigger] s.skip(i).len() >= 1 && s.skip(
        i,
    ).take(1) == seq!['\n']) by {
        if s.skip(i).len() >= 1 && s.skip(i).take(1) == seq!['\n'] {
            assert(s.skip(i).take(1)[0] == s[i]);
            assert(s[i] == w1[i]);
        }
    }
    lemma_split_front(w1, seq!['\n'], definition);
    lemma_split_free(definition, '\n');
    assert(lines_of(chunk_text(word, definition)) =~= seq![w1, definition]);
}

} // verus!
