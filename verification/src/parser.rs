//! Reading word lists: files of entries separated by blank lines, each entry a word on
//! its first line and its definition on the second; entries whose word starts with `#` are
//! comments. A game draws entries at random.
use vstd::prelude::*;
use rand::rngs::ThreadRng;
use rand::Rng;
use crate::text::{has_prefix, split_by, split_text, starts_with_text, views};
use crate::wire::{opt_view, opt_views};
use crate::word::Word;
use crate::wordlist::list_of_text;

verus! {

/// How many entries a game draws from a word list file.
pub const WORDLIST_DRAWS: u32 = 10;

/// `rand::rngs::ThreadRng`, the thread's random number generator; opaque here.
#[verifier::external_type_specification]
#[verifier::external_body]
pub struct ExThreadRng(ThreadRng);

/// `rand::thread_rng`: the thread's random number generator.
#[verifier::external_body]
fn thread_rng() -> (rng: ThreadRng)
{
    rand::thread_rng()
}

/// `Rng::gen_range` over `0..n`: a random index below `n`. It panics on an empty range,
/// so `n` must be positive; which index comes out is left open.
#[verifier::external_body]
fn gen_index(rng: &mut ThreadRng, n: usize) -> (i: usize)
    requires
        n > 0,
    ensures
        i < n,
{
    rng.gen_range(0..n)
}

/// The entries of a word list text: its pieces between blank lines.
pub open spec fn chunks_of(text: Seq<char>) -> Seq<Seq<char>> {
    split_by(text, seq!['\n', '\n'])
}

/// The lines of an entry.
pub open spec fn lines_of(chunk: Seq<char>) -> Seq<Seq<char>> {
    split_by(chunk, seq!['\n'])
}

/// An entry whose word starts with `#`.
pub open spec fn is_comment(chunk: Seq<char>) -> bool {
    has_prefix(lines_of(chunk)[0], seq!['#'])
}

/// An entry as a word and its definition: the first line, and the second when definitions
/// are wanted (else nothing).
pub open spec fn entry_of(chunk: Seq<char>, definitions: bool) -> (Seq<char>, Seq<char>) {
    (lines_of(chunk)[0], if definitions {
        lines_of(chunk)[1]
    } else {
        Seq::<char>::empty()
    })
}

/// The words drawn: for each pick in order, the entry picked unless it is a comment.
pub open spec fn picked(chunks: Seq<Seq<char>>, picks: Seq<usize>, definitions: bool) -> Seq<
    (Seq<char>, Seq<char>),
>
    decreases picks.len(),
{
    if picks.len() == 0 {
        Seq::empty()
    } else {
        let before = picked(chunks, picks.drop_last(), definitions);
        let chunk = chunks[picks.last() as int];
        if is_comment(chunk) {
            before
        } else {
            before.push(entry_of(chunk, definitions))
        }
    }
}

/// Whether every entry that is not a comment has a definition line.
pub open spec fn all_defined(chunks: Seq<Seq<char>>) -> bool {
    forall|i: int|
        0 <= i < chunks.len() && !is_comment(#[trigger] chunks[i]) ==> lines_of(chunks[i]).len() >= 2
}

/// An entry that is not a comment and has no definition line.
pub open spec fn undefined(chunk: Seq<char>) -> bool {
    !is_comment(chunk) && lines_of(chunk).len() < 2
}

/// Whether every entry picked that is not a comment has a definition line.
pub open spec fn picks_defined(chunks: Seq<Seq<char>>, picks: Seq<usize>) -> bool {
    forall|i: int| 0 <= i < picks.len() ==> !undefined(chunks[#[trigger] picks[i] as int])
}

/// Whether `picks` is a draw of `count` entries among `chunks`: as many picks as `draws`
/// gives, each the index of an entry.
pub open spec fn is_draw(chunks: Seq<Seq<char>>, count: u32, picks: Seq<usize>) -> bool {
    &&& picks.len() == draws(chunks.len(), count)
    &&& forall|i: int| 0 <= i < picks.len() ==> #[trigger] picks[i] < chunks.len()
}

/// How many entries are drawn: `count`, but no more than there are entries (the number of
/// entries taken as a `u32`).
pub open spec fn draws(n: nat, count: u32) -> nat {
    if count > (n as u32) {
        (n as u32) as nat
    } else {
        count as nat
    }
}

/// The views of a list of words.
pub open spec fn word_views(v: Seq<Word>) -> Seq<(Seq<char>, Seq<char>)> {
    v.map_values(|w: Word| w@)
}

/// The words of the given picks among the entries.
pub fn select_words(chunks: &Vec<String>, picks: &Vec<usize>, definitions: bool) -> (words: Vec<
    Word,
>)
    requires
        forall|i: int| 0 <= i < picks@.len() ==> #[trigger] picks@[i] < chunks@.len(),
        definitions ==> picks_defined(views(chunks@), picks@),
    ensures
        word_views(words@) == picked(views(chunks@), picks@, definitions),
{
    let ghost cv = views(chunks@);
    let mut words: Vec<Word> = Vec::new();
    let mut i: usize = 0;
    assert(picks@.take(0) =~= Seq::<usize>::empty());
    while i < picks.len()
        invariant
            i <= picks.len(),
            cv == views(chunks@),
            forall|k: int| 0 <= k < picks@.len() ==> #[trigger] picks@[k] < chunks@.len(),
            definitions ==> picks_defined(cv, picks@),
            word_views(words@) == picked(cv, picks@.take(i as int), definitions),
        decreases picks.len() - i,
    {
        let p = picks[i];
        assert(picks@.take(i + 1).drop_last() =~= picks@.take(i as int));
        assert(chunks@[p as int]@ == cv[p as int]);
        proof {
            reveal_strlit("\n");
            reveal_strlit("#");
            assert("\n"@ =~= seq!['\n']);
            assert("#"@ =~= seq!['#']);
            crate::text::lemma_split_nonempty(cv[p as int], seq!['\n']);
        }
        let lines = split_text(chunks[p].as_str(), "\n");
        assert(lines@[0]@ == views(lines@)[0]);
        if !starts_with_text(lines[0].as_str(), "#") {
            let ghost before = words@;
            let w = if definitions {
                assert(lines@[1]@ == views(lines@)[1]);
                Word::new(lines[0].as_str(), lines[1].as_str())
            } else {
                proof {
                    reveal_strlit("");
                }
                assert(""@ =~= Seq::<char>::empty());
                Word::new(lines[0].as_str(), "")
            };
            words.push(w);
            assert(words@ =~= before.push(w));
            assert(word_views(words@) =~= word_views(before).push(w@));
        }
        i += 1;
    }
    assert(picks@.take(i as int) =~= picks@);
    words
}

/// Draws `count` entries (no more than there are) at random from a word list text; an
/// entry may be drawn more than once, and comments drawn give no word.
pub fn parse_wordlist(text: &str, count: u32, definitions: bool) -> (words: Vec<Word>)
    requires
        definitions ==> all_defined(chunks_of(text@)),
    ensures
        exists|picks: Seq<usize>|
            {
                &&& picks.len() == draws(chunks_of(text@).len(), count)
                &&& forall|i: int| 0 <= i < picks.len() ==> #[trigger] picks[i] < chunks_of(text@).len()
                &&& word_views(words@) == picked(chunks_of(text@), picks, definitions)
            },
{
    proof {
        reveal_strlit("\n\n");
        assert("\n\n"@ =~= seq!['\n', '\n']);
        crate::text::lemma_split_nonempty(text@, seq!['\n', '\n']);
    }
    let chunks = split_text(text, "\n\n");
    let n = chunks.len();
    let total: u32 = if count > n as u32 {
        n as u32
    } else {
        count
    };
    let picks = draw_picks(n, total);
    let words = select_words(&chunks, &picks, definitions);
    assert(picks@.len() == draws(chunks_of(text@).len(), count));
    words
}

/// `total` indexes below `n`, each drawn at random.
fn draw_picks(n: usize, total: u32) -> (picks: Vec<usize>)
    requires
        n > 0,
    ensures
        picks@.len() == total,
        forall|i: int| 0 <= i < picks@.len() ==> #[trigger] picks@[i] < n,
{
    let mut rng = thread_rng();
    let mut picks: Vec<usize> = Vec::new();
    let mut k: u32 = 0;
    while k < total
        invariant
            k <= total,
            n > 0,
            picks@.len() == k,
            forall|i: int| 0 <= i < picks@.len() ==> #[trigger] picks@[i] < n,
        decreases total - k,
    {
        let p = gen_index(&mut rng, n);
        picks.push(p);
        k += 1;
    }
    picks
}

/// Whether every entry picked that is not a comment has a definition line.
pub fn picked_defined(chunks: &Vec<String>, picks: &Vec<usize>) -> (b: bool)
    requires
        forall|i: int| 0 <= i < picks@.len() ==> #[trigger] picks@[i] < chunks@.len(),
    ensures
        b == picks_defined(views(chunks@), picks@),
{
    let ghost cv = views(chunks@);
    let mut i: usize = 0;
    while i < picks.len()
        invariant
            i <= picks.len(),
            cv == views(chunks@),
            forall|k: int| 0 <= k < picks@.len() ==> #[trigger] picks@[k] < chunks@.len(),
            forall|k: int| 0 <= k < i ==> !undefined(cv[#[trigger] picks@[k] as int]),
        decreases picks.len() - i,
    {
        let p = picks[i];
        assert(chunks@[p as int]@ == cv[p as int]);
        proof {
            reveal_strlit("\n");
            assert("\n"@ =~= seq!['\n']);
            reveal_strlit("#");
            assert("#"@ =~= seq!['#']);
            crate::text::lemma_split_nonempty(cv[p as int], seq!['\n']);
        }
        let lines = split_text(chunks[p].as_str(), "\n");
        assert(lines@[0]@ == views(lines@)[0]);
        if !starts_with_text(lines[0].as_str(), "#") && lines.len() < 2 {
            assert(undefined(cv[picks@[i as int] as int]));
            return false;
        }
        i += 1;
    }
    true
}

/// Draws `count` entries (no more than there are) at random from a word list text, as
/// `parse_wordlist` does, and gives `None` where definitions are wanted and an entry
/// drawn that is not a comment has no definition line.
pub fn try_parse_wordlist(text: &str, count: u32, definitions: bool) -> (r: Option<Vec<Word>>)
    ensures
        exists|picks: Seq<usize>|
            #![trigger is_draw(chunks_of(text@), count, picks)]
            {
                &&& is_draw(chunks_of(text@), count, picks)
                &&& (r is None <==> definitions && !picks_defined(chunks_of(text@), picks))
                &&& (r matches Some(words) ==> word_views(words@) == picked(
                    chunks_of(text@),
                    picks,
                    definitions,
                ))
            },
{
    proof {
        reveal_strlit("\n\n");
        assert("\n\n"@ =~= seq!['\n', '\n']);
        crate::text::lemma_split_nonempty(text@, seq!['\n', '\n']);
    }
    let chunks = split_text(text, "\n\n");
    let n = chunks.len();
    let total: u32 = if count > n as u32 {
        n as u32
    } else {
        count
    };
    let picks = draw_picks(n, total);
    assert(picks@.len() == draws(chunks_of(text@).len(), count));
    assert(views(chunks@) == chunks_of(text@));
    assert(is_draw(chunks_of(text@), count, picks@));
    if definitions && !picked_defined(&chunks, &picks) {
        return None;
    }
    let words = select_words(&chunks, &picks, definitions);
    Some(words)
}

/// Whether every entry of a word list text that is not a comment has a definition line,
/// as drawing with definitions needs.
pub fn entries_defined(text: &str) -> (b: bool)
    ensures
        b == all_defined(chunks_of(text@)),
{
    proof {
        reveal_strlit("\n\n");
        assert("\n\n"@ =~= seq!['\n', '\n']);
        reveal_strlit("\n");
        assert("\n"@ =~= seq!['\n']);
        reveal_strlit("#");
        assert("#"@ =~= seq!['#']);
    }
    let chunks = split_text(text, "\n\n");
    let ghost cv = views(chunks@);
    let mut i: usize = 0;
    while i < chunks.len()
        invariant
            i <= chunks.len(),
            cv == views(chunks@),
            cv == chunks_of(text@),
            forall|k: int|
                0 <= k < i && !is_comment(#[trigger] cv[k]) ==> lines_of(cv[k]).len() >= 2,
        decreases chunks.len() - i,
    {
        assert(chunks@[i as int]@ == cv[i as int]);
        proof {
            reveal_strlit("\n");
            assert("\n"@ =~= seq!['\n']);
            reveal_strlit("#");
            assert("#"@ =~= seq!['#']);
            crate::text::lemma_split_nonempty(cv[i as int], seq!['\n']);
        }
        let lines = split_text(chunks[i].as_str(), "\n");
        assert(lines@[0]@ == views(lines@)[0]);
        if !starts_with_text(lines[0].as_str(), "#") && lines.len() < 2 {
            return false;
        }
        i += 1;
    }
    true
}

/// The words of a quote: its pieces between spaces, without definitions.
pub fn quote_words(quote: &str) -> (words: Vec<Word>)
    ensures
        word_views(words@) == list_of_text(quote@),
{
    proof {
        reveal_strlit(" ");
        assert(" "@ =~= seq![' ']);
        reveal_strlit("");
        assert(""@ =~= Seq::<char>::empty());
    }
    let pieces = split_text(quote, " ");
    let mut words: Vec<Word> = Vec::new();
    let mut i: usize = 0;
    while i < pieces.len()
        invariant
            i <= pieces.len(),
            views(pieces@) == split_by(quote@, seq![' ']),
            word_views(words@) =~= list_of_text(quote@).take(i as int),
        decreases pieces.len() - i,
    {
        let w = Word::new(pieces[i].as_str(), "");
        let ghost before = words@;
        words.push(w);
        proof {
            reveal_strlit("");
            assert(""@ =~= Seq::<char>::empty());
            assert(pieces@[i as int]@ == views(pieces@)[i as int]);
            assert(words@ =~= before.push(w));
            assert(word_views(words@) =~= word_views(before).push(w@));
            assert(list_of_text(quote@).take(i + 1) =~= list_of_text(quote@).take(i as int).push(
                list_of_text(quote@)[i as int],
            ));
        }
        i += 1;
    }
    assert(list_of_text(quote@).take(i as int) =~= list_of_text(quote@));
    words
}

/// The self texts of the posts of a listing reply: `None` where the reply is not JSON or
/// its `data.children` is not an array, else for each child its `data.selftext` where that
/// is a string.
pub uninterp spec fn listing_selftexts(body: Seq<char>) -> Option<Seq<Option<Seq<char>>>>;

/// `serde_json::from_str` into a `serde_json::Value`, then for each element of the array
/// at `data.children` the string at `data.selftext`. The contract names the outcome
/// (`listing_selftexts`) as a function of the reply alone.
#[verifier::external_body]
fn listing_texts(body: &str) -> (r: Option<Vec<Option<String>>>)
    ensures
        match r {
            Some(v) => listing_selftexts(body@) == Some(opt_views(v@)),
            None => listing_selftexts(body@) is None,
        },
{
    let json: serde_json::Value = serde_json::from_str(body).ok()?;
    let children = json["data"]["children"].as_array()?;
    Some(children.iter().map(|c| c["data"]["selftext"].as_str().map(|s| s.to_string())).collect())
}

/// The words of the quote at `pick` in a listing reply: `None` where the reply has no list
/// of posts, `pick` is past its end, or that post has no text.
pub fn quote_from_listing(body: &str, pick: usize) -> (r: Option<Vec<Word>>)
    ensures
        r is Some <==> (listing_selftexts(body@) is Some && pick < listing_selftexts(body@)->0.len()
            && listing_selftexts(body@)->0[pick as int] is Some),
        r matches Some(ws) ==> word_views(ws@) == list_of_text(
            listing_selftexts(body@)->0[pick as int]->0,
        ),
{
    match listing_texts(body) {
        None => None,
        Some(texts) => {
            if pick < texts.len() {
                assert(opt_views(texts@)[pick as int] == opt_view(texts@[pick as int]));
                match &texts[pick] {
                    Some(quote) => Some(quote_words(quote.as_str())),
                    None => None,
                }
            } else {
                None
            }
        },
    }
}

/// The words of a quote picked at random among the hundred posts of a listing reply;
/// `None` where the reply has no list of posts or the post picked has no text.
pub fn quote_from_reply(body: &str) -> (r: Option<Vec<Word>>)
    ensures
        exists|pick: usize|
            {
                &&& pick < 100
                &&& (r is Some <==> (listing_selftexts(body@) is Some && pick
                    < listing_selftexts(body@)->0.len() && listing_selftexts(body@)->0[pick as int] is Some))
                &&& (r matches Some(ws) ==> word_views(ws@) == list_of_text(
                    listing_selftexts(body@)->0[pick as int]->0,
                ))
            },
{
    let pick = pick_quote();
    quote_from_listing(body, pick)
}

/// Which of the hundred quotes fetched to use: one picked at random.
pub fn pick_quote() -> (i: usize)
    ensures
        i < 100,
{
    let mut rng = thread_rng();
    gen_index(&mut rng, 100)
}

/// Draws `count` entries from a word list text, with definitions unless the program's
/// arguments hold `--no-defs`.
pub fn parse(text: &str, count: u32, args: &Vec<String>) -> (words: Vec<Word>)
    requires
        definitions_wanted(args@) ==> all_defined(chunks_of(text@)),
    ensures
        exists|picks: Seq<usize>|
            {
                &&& picks.len() == draws(chunks_of(text@).len(), count)
                &&& forall|i: int| 0 <= i < picks.len() ==> #[trigger] picks[i] < chunks_of(text@).len()
                &&& word_views(words@) == picked(chunks_of(text@), picks, definitions_wanted(args@))
            },
{
    let definitions = wants_definitions(args);
    parse_wordlist(text, count, definitions)
}

/// Draws `count` entries from a word list text as `parse` does, and gives `None` where
/// definitions are wanted and an entry drawn that is not a comment has no definition line.
pub fn try_parse(text: &str, count: u32, args: &Vec<String>) -> (r: Option<Vec<Word>>)
    ensures
        exists|picks: Seq<usize>|
            #![trigger is_draw(chunks_of(text@), count, picks)]
            {
                &&& is_draw(chunks_of(text@), count, picks)
                &&& (r is None <==> definitions_wanted(args@) && !picks_defined(chunks_of(text@), picks))
                &&& (r matches Some(words) ==> word_views(words@) == picked(
                    chunks_of(text@),
                    picks,
                    definitions_wanted(args@),
                ))
            },
{
    let definitions = wants_definitions(args);
    try_parse_wordlist(text, count, definitions)
}

/// Definitions are wanted unless `--no-defs` is among the arguments.
pub open spec fn definitions_wanted(args: Seq<String>) -> bool {
    !(exists|i: int| 0 <= i < args.len() && #[trigger] args[i]@ == "--no-defs"@)
}

/// Whether definitions are wanted: unless `--no-defs` is among the arguments.
pub fn wants_definitions(args: &Vec<String>) -> (b: bool)
    ensures
        b == definitions_wanted(args@),
{
    let mut i: usize = 0;
    while i < args.len()
        invariant
            i <= args.len(),
            forall|k: int| 0 <= k < i ==> #[trigger] args@[k]@ != "--no-defs"@,
        decreases args.len() - i,
    {
        if same_text_arg(&args[i]) {
            return false;
        }
        i += 1;
    }
    true
}

fn same_text_arg(a: &String) -> (b: bool)
    ensures
        b == (a@ == "--no-defs"@),
{
    crate::text::same_text(a.as_str(), "--no-defs")
}

} // verus!
