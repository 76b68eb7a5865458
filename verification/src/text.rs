//! Text primitives the game is built on: splitting, joining, trimming and
//! measuring strings, each stated over the character sequence of the string.
use vstd::prelude::*;
use vstd::utf8::*;

verus! {

// ---------------------------------------------------------------------------
// Specifications
// ---------------------------------------------------------------------------
/// The pieces of `s` between non-overlapping occurrences of `sep`, found from
/// the left; `n` occurrences give `n + 1` pieces, some of them possibly empty.
pub open spec fn split_by(s: Seq<char>, sep: Seq<char>) -> Seq<Seq<char>>
    decreases s.len(),
{
    if sep.len() > 0 && s.len() >= sep.len() && s.take(sep.len() as int) == sep {
        seq![Seq::<char>::empty()] + split_by(s.skip(sep.len() as int), sep)
    } else if s.len() == 0 {
        seq![Seq::<char>::empty()]
    } else {
        let rest = split_by(s.drop_first(), sep);
        rest.update(0, seq![s[0]] + rest[0])
    }
}

/// The pieces laid end to end with `sep` between each two of them.
pub open spec fn join_with(pieces: Seq<Seq<char>>, sep: Seq<char>) -> Seq<char>
    decreases pieces.len(),
{
    if pieces.len() == 0 {
        Seq::<char>::empty()
    } else if pieces.len() == 1 {
        pieces[0]
    } else {
        join_with(pieces.drop_last(), sep) + sep + pieces.last()
    }
}

/// The views of a list of strings.
pub open spec fn views(v: Seq<String>) -> Seq<Seq<char>> {
    v.map_values(|s: String| s@)
}

/// Whether a character is white space in the sense of Unicode's `White_Space` property:
/// the controls from tab to carriage return, the space, next line, no-break space, the
/// Ogham space mark, the spaces from en quad to hair space, the line and paragraph
/// separators, the narrow no-break space, the medium mathematical space and the
/// ideographic space.
pub open spec fn is_whitespace(c: char) -> bool {
    let u = c as u32;
    ||| 0x09 <= u <= 0x0D
    ||| u == 0x20
    ||| u == 0x85
    ||| u == 0xA0
    ||| u == 0x1680
    ||| 0x2000 <= u <= 0x200A
    ||| u == 0x2028
    ||| u == 0x2029
    ||| u == 0x202F
    ||| u == 0x205F
    ||| u == 0x3000
}

/// `s` without its leading white space.
pub open spec fn trim_start(s: Seq<char>) -> Seq<char>
    decreases s.len(),
{
    if s.len() > 0 && is_whitespace(s[0]) {
        trim_start(s.drop_first())
    } else {
        s
    }
}

/// `s` without its trailing white space.
pub open spec fn trim_end(s: Seq<char>) -> Seq<char>
    decreases s.len(),
{
    if s.len() > 0 && is_whitespace(s.last()) {
        trim_end(s.drop_last())
    } else {
        s
    }
}

/// `s` without leading and trailing white space.
pub open spec fn trim(s: Seq<char>) -> Seq<char> {
    trim_end(trim_start(s))
}

/// The number of bytes of the UTF-8 encoding of `s`: what `str::len` returns.
pub open spec fn byte_len(s: Seq<char>) -> nat {
    encode_utf8(s).len()
}

/// The number of bytes that encode one character.
pub open spec fn char_width(c: char) -> nat {
    encode_scalar(c as u32).len()
}

/// The longest prefix of `s` whose encoding takes at most `n` bytes.
pub open spec fn byte_prefix(s: Seq<char>, n: int) -> Seq<char>
    decreases s.len(),
{
    if s.len() == 0 || n < char_width(s[0]) {
        Seq::<char>::empty()
    } else {
        seq![s[0]] + byte_prefix(s.drop_first(), n - char_width(s[0]))
    }
}

/// Byte offset `n` lies between two characters of `s` (or at one of its ends):
/// slicing `s` at `n` does not panic.
pub open spec fn on_char_boundary(s: Seq<char>, n: int) -> bool {
    byte_len(byte_prefix(s, n)) == n
}

/// `s` begins with `prefix`.
pub open spec fn has_prefix(s: Seq<char>, prefix: Seq<char>) -> bool {
    prefix.len() <= s.len() && s.take(prefix.len() as int) == prefix
}

/// `s` ends with `suffix`.
pub open spec fn has_suffix(s: Seq<char>, suffix: Seq<char>) -> bool {
    suffix.len() <= s.len() && s.skip(s.len() - suffix.len()) == suffix
}

// ---------------------------------------------------------------------------
// Lemmas
// ---------------------------------------------------------------------------
/// Splitting always gives at least one piece.
pub proof fn lemma_split_nonempty(s: Seq<char>, sep: Seq<char>)
    ensures
        split_by(s, sep).len() >= 1,
    decreases s.len(),
{
    if sep.len() > 0 && s.len() >= sep.len() && s.take(sep.len() as int) == sep {
        lemma_split_nonempty(s.skip(sep.len() as int), sep);
    } else if s.len() == 0 {
    } else {
        lemma_split_nonempty(s.drop_first(), sep);
    }
}

/// Joining a piece in front of a non-empty list of pieces.
pub proof fn lemma_join_cons(first: Seq<char>, rest: Seq<Seq<char>>, sep: Seq<char>)
    requires
        rest.len() >= 1,
    ensures
        join_with(seq![first] + rest, sep) == first + sep + join_with(rest, sep),
    decreases rest.len(),
{
    let all = seq![first] + rest;
    if rest.len() == 1 {
        assert(all.drop_last() =~= seq![first]);
        assert(all.last() == rest[0]);
        assert(join_with(seq![first], sep) == first);
        assert(join_with(rest, sep) == rest[0]);
        assert(join_with(all, sep) == join_with(all.drop_last(), sep) + sep + all.last());
    } else {
        lemma_join_cons(first, rest.drop_last(), sep);
        assert(all.drop_last() =~= seq![first] + rest.drop_last());
        assert(all.last() == rest.last());
        assert(join_with(all, sep) == join_with(all.drop_last(), sep) + sep + all.last());
        assert(join_with(rest, sep) == join_with(rest.drop_last(), sep) + sep + rest.last());
        assert(first + sep + join_with(rest.drop_last(), sep) + sep + rest.last() =~= first + sep
            + (join_with(rest.drop_last(), sep) + sep + rest.last()));
    }
}

/// Joining the pieces of a split with the separator gives the text back.
pub proof fn lemma_join_split(s: Seq<char>, sep: Seq<char>)
    requires
        sep.len() > 0,
    ensures
        join_with(split_by(s, sep), sep) == s,
    decreases s.len(),
{
    if s.len() >= sep.len() && s.take(sep.len() as int) == sep {
        let tail = s.skip(sep.len() as int);
        lemma_join_split(tail, sep);
        lemma_split_nonempty(tail, sep);
        lemma_join_cons(Seq::<char>::empty(), split_by(tail, sep), sep);
        assert(Seq::<char>::empty() + sep + tail =~= s);
    } else if s.len() == 0 {
    } else {
        let tail = s.drop_first();
        let rest = split_by(tail, sep);
        lemma_join_split(tail, sep);
        lemma_split_nonempty(tail, sep);
        let first = seq![s[0]] + rest[0];
        if rest.len() == 1 {
            assert(split_by(s, sep) =~= seq![first]);
            assert(first =~= s);
        } else {
            lemma_join_cons(rest[0], rest.drop_first(), sep);
            assert(seq![rest[0]] + rest.drop_first() =~= rest);
            lemma_join_cons(first, rest.drop_first(), sep);
            assert(seq![first] + rest.drop_first() =~= split_by(s, sep));
            assert(first + sep + join_with(rest.drop_first(), sep) =~= seq![s[0]] + (rest[0] + sep
                + join_with(rest.drop_first(), sep)));
            assert(seq![s[0]] + tail =~= s);
        }
    }
}

/// The first piece of a split on one character is everything before that character's
/// first occurrence.
pub proof fn lemma_split_first_piece(x: Seq<char>, c: char, rest: Seq<char>)
    requires
        forall|i: int| 0 <= i < x.len() ==> x[i] != c,
        rest.len() == 0 || rest[0] == c,
    ensures
        split_by(x + rest, seq![c])[0] == x,
    decreases x.len(),
{
    let s = x + rest;
    let sep = seq![c];
    if x.len() == 0 {
        assert(s =~= rest);
        if rest.len() > 0 {
            assert(s.take(1) =~= sep);
        }
    } else {
        assert(s[0] == x[0]);
        assert(s.take(1) != sep) by {
            if s.take(1) == sep {
                assert(s.take(1)[0] == c);
            }
        }
        assert(s.drop_first() =~= x.drop_first() + rest);
        lemma_split_first_piece(x.drop_first(), c, rest);
        lemma_split_nonempty(s.drop_first(), sep);
        assert(seq![x[0]] + x.drop_first() =~= x);
    }
}

/// White space in front does not survive `trim_start`.
pub proof fn lemma_trim_start_blank_prefix(pre: Seq<char>, s: Seq<char>)
    requires
        forall|i: int| 0 <= i < pre.len() ==> is_whitespace(#[trigger] pre[i]),
    ensures
        trim_start(pre + s) == trim_start(s),
    decreases pre.len(),
{
    if pre.len() == 0 {
        assert(pre + s =~= s);
    } else {
        assert((pre + s)[0] == pre[0]);
        assert((pre + s).drop_first() =~= pre.drop_first() + s);
        lemma_trim_start_blank_prefix(pre.drop_first(), s);
    }
}

/// White space behind does not survive `trim_end`.
pub proof fn lemma_trim_end_blank_suffix(s: Seq<char>, post: Seq<char>)
    requires
        forall|i: int| 0 <= i < post.len() ==> is_whitespace(#[trigger] post[i]),
    ensures
        trim_end(s + post) == trim_end(s),
    decreases post.len(),
{
    if post.len() == 0 {
        assert(s + post =~= s);
    } else {
        assert((s + post).last() == post.last());
        assert((s + post).drop_last() =~= s + post.drop_last());
        lemma_trim_end_blank_suffix(s, post.drop_last());
    }
}

/// The encoding of two sequences laid end to end is the two encodings laid end to end.
pub proof fn lemma_encode_concat(a: Seq<char>, b: Seq<char>)
    ensures
        encode_utf8(a + b) == encode_utf8(a) + encode_utf8(b),
    decreases a.len(),
{
    if a.len() == 0 {
        assert(a + b =~= b);
    } else {
        lemma_encode_concat(a.drop_first(), b);
        assert((a + b).drop_first() =~= a.drop_first() + b);
        assert((a + b)[0] == a[0]);
    }
}

/// One character takes its width.
pub proof fn lemma_byte_len_single(c: char)
    ensures
        byte_len(seq![c]) == char_width(c),
{
    assert(seq![c].drop_first() =~= Seq::<char>::empty());
    assert(encode_utf8(seq![c]) == encode_scalar(c as u32) + encode_utf8(Seq::<char>::empty()));
    assert(encode_utf8(seq![c]) =~= encode_scalar(c as u32));
}

/// Adding a character adds its width to the byte length.
pub proof fn lemma_byte_len_push(s: Seq<char>, c: char)
    ensures
        byte_len(s.push(c)) == byte_len(s) + char_width(c),
{
    lemma_encode_concat(s, seq![c]);
    assert(s.push(c) =~= s + seq![c]);
    lemma_byte_len_single(c);
}

/// The bytes of a prefix with one more character.
pub proof fn lemma_byte_len_take(s: Seq<char>, k: int)
    requires
        0 <= k < s.len(),
    ensures
        byte_len(s.take(k + 1)) == byte_len(s.take(k)) + char_width(s[k]),
{
    lemma_byte_len_push(s.take(k), s[k]);
    assert(s.take(k).push(s[k]) =~= s.take(k + 1));
}

/// Every character takes at least one byte.
pub proof fn lemma_char_width_positive(c: char)
    ensures
        1 <= char_width(c) <= 4,
{
    vstd::utf8::char_is_scalar(c);
}

/// Byte length grows with the number of characters taken.
pub proof fn lemma_byte_len_take_mono(s: Seq<char>, j: int, k: int)
    requires
        0 <= j <= k <= s.len(),
    ensures
        byte_len(s.take(j)) + (k - j) <= byte_len(s.take(k)),
    decreases k - j,
{
    if j < k {
        lemma_byte_len_take_mono(s, j, k - 1);
        lemma_byte_len_take(s, k - 1);
        lemma_char_width_positive(s[k - 1]);
    }
}

/// Trimming never adds bytes.
pub proof fn lemma_trim_byte_len(s: Seq<char>)
    ensures
        byte_len(trim(s)) <= byte_len(s),
{
    lemma_trim_start_byte_len(s);
    lemma_trim_end_byte_len(trim_start(s));
}

/// Dropping leading white space never adds bytes.
pub proof fn lemma_trim_start_byte_len(s: Seq<char>)
    ensures
        byte_len(trim_start(s)) <= byte_len(s),
    decreases s.len(),
{
    if s.len() > 0 && is_whitespace(s[0]) {
        lemma_trim_start_byte_len(s.drop_first());
    }
}

/// Dropping trailing white space never adds bytes.
pub proof fn lemma_trim_end_byte_len(s: Seq<char>)
    ensures
        byte_len(trim_end(s)) <= byte_len(s),
    decreases s.len(),
{
    if s.len() > 0 && is_whitespace(s.last()) {
        lemma_trim_end_byte_len(s.drop_last());
        lemma_byte_len_push(s.drop_last(), s.last());
        assert(s.drop_last().push(s.last()) =~= s);
    }
}

// ---------------------------------------------------------------------------
// Trusted items of std
// ---------------------------------------------------------------------------
/// `char::is_whitespace`: whether the character has Unicode's `White_Space` property,
/// the set of code points that `is_whitespace` lists.
#[verifier::external_body]
fn char_is_whitespace(c: char) -> (b: bool)
    ensures
        b == is_whitespace(c),
{
    c.is_whitespace()
}

/// `String::push`: appends one character at the end of the string.
#[verifier::external_body]
pub(crate) fn push_char(s: &mut String, c: char)
    ensures
        final(s)@ == old(s)@.push(c),
{
    s.push(c)
}

// ---------------------------------------------------------------------------
// Executable functions
// ---------------------------------------------------------------------------
/// The characters of a string slice, in order.
pub fn chars_of(s: &str) -> (v: Vec<char>)
    ensures
        v@ == s@,
{
    let mut v: Vec<char> = Vec::new();
    for c in it: s.chars()
        invariant
            v@ == it.seq().take(it.index() as int),
    {
        v.push(c);
    }
    v
}

/// The characters `v[lo..hi]` as a string.
pub fn string_of(v: &Vec<char>, lo: usize, hi: usize) -> (s: String)
    requires
        lo <= hi <= v.len(),
    ensures
        s@ == v@.subrange(lo as int, hi as int),
{
    let mut s = String::new();
    let mut i = lo;
    while i < hi
        invariant
            lo <= i <= hi <= v.len(),
            s@ == v@.subrange(lo as int, i as int),
        decreases hi - i,
    {
        push_char(&mut s, v[i]);
        assert(v@.subrange(lo as int, i as int).push(v@[i as int]) =~= v@.subrange(
            lo as int,
            i + 1 as int,
        ));
        i += 1;
    }
    s
}

/// Whether `p` occurs in `v` at position `i`.
fn occurs_at(v: &Vec<char>, i: usize, p: &Vec<char>) -> (b: bool)
    requires
        i <= v.len(),
    ensures
        b == (v@.skip(i as int).len() >= p@.len() && v@.skip(i as int).take(p@.len() as int)
            == p@),
{
    if p.len() > v.len() - i {
        return false;
    }
    let mut j: usize = 0;
    while j < p.len()
        invariant
            i + p.len() <= v.len(),
            j <= p.len(),
            forall|k: int| 0 <= k < j ==> v@[i + k] == p@[k],
        decreases p.len() - j,
    {
        if v[i + j] != p[j] {
            assert(v@.skip(i as int).take(p@.len() as int)[j as int] != p@[j as int]);
            return false;
        }
        j += 1;
    }
    assert(v@.skip(i as int).take(p@.len() as int) =~= p@);
    true
}

/// Splits `s` at every non-overlapping occurrence of `sep`, found from the left: `str::split`.
pub fn split_text(s: &str, sep: &str) -> (pieces: Vec<String>)
    requires
        sep@.len() > 0,
    ensures
        views(pieces@) == split_by(s@, sep@),
{
    let v = chars_of(s);
    let p = chars_of(sep);
    let mut pieces: Vec<String> = Vec::new();
    let mut cur = String::new();
    let mut i: usize = 0;
    assert(v@.skip(0) =~= v@);
    proof {
        lemma_split_nonempty(v@, p@);
        let sp = split_by(v@, p@);
        assert(sp =~= views(pieces@) + seq![cur@ + sp[0]] + sp.drop_first());
    }
    while i < v.len()
        invariant
            i <= v.len(),
            v@ == s@,
            p@ == sep@,
            p@.len() > 0,
            split_by(v@.skip(i as int), p@).len() >= 1,
            split_by(v@, p@) == views(pieces@) + seq![cur@ + split_by(v@.skip(i as int), p@)[0]]
                + split_by(v@.skip(i as int), p@).drop_first(),
        decreases v.len() - i,
    {
        let ghost tail = v@.skip(i as int);
        if occurs_at(&v, i, &p) {
            let ghost after = v@.skip(i + p.len());
            assert(tail.skip(p@.len() as int) =~= after);
            assert(split_by(tail, p@) == seq![Seq::<char>::empty()] + split_by(after, p@));
            proof {
                lemma_split_nonempty(after, p@);
            }
            let ghost old_pieces = pieces@;
            let ghost old_cur = cur;
            pieces.push(cur);
            cur = String::new();
            i = i + p.len();
            assert(views(pieces@) =~= views(old_pieces) + seq![old_cur@]) by {
                assert(pieces@ =~= old_pieces.push(old_cur));
            }
            assert(split_by(tail, p@).drop_first() =~= split_by(after, p@));
            assert(cur@ + split_by(after, p@)[0] =~= split_by(after, p@)[0]);
            assert(split_by(v@, p@) =~= views(pieces@) + seq![cur@ + split_by(after, p@)[0]]
                + split_by(after, p@).drop_first());
        } else {
            let c = v[i];
            let ghost after = v@.skip(i + 1);
            assert(tail.drop_first() =~= after);
            let ghost rest = split_by(after, p@);
            proof {
                lemma_split_nonempty(after, p@);
            }
            assert(tail.len() > 0);
            assert(split_by(tail, p@) == rest.update(0, seq![c] + rest[0]));
            let ghost old_cur = cur@;
            push_char(&mut cur, c);
            i = i + 1;
            assert(split_by(tail, p@).drop_first() =~= rest.drop_first());
            assert(old_cur + (seq![c] + rest[0]) =~= cur@ + rest[0]);
        }
    }
    assert(v@.skip(i as int) =~= Seq::<char>::empty());
    let ghost old_pieces = pieces@;
    let ghost last = cur;
    pieces.push(cur);
    assert(pieces@ =~= old_pieces.push(last));
    assert(views(pieces@) =~= split_by(v@, p@));
    pieces
}

/// Lays the pieces end to end with `sep` between each two of them: `[String]::join`.
pub fn join_text(pieces: &Vec<String>, sep: &str) -> (s: String)
    ensures
        s@ == join_with(views(pieces@), sep@),
{
    let mut s = String::new();
    let mut i: usize = 0;
    while i < pieces.len()
        invariant
            i <= pieces.len(),
            s@ == join_with(views(pieces@.take(i as int)), sep@),
        decreases pieces.len() - i,
    {
        let ghost before = views(pieces@.take(i as int));
        let ghost after = views(pieces@.take(i + 1));
        assert(after.drop_last() =~= before);
        assert(after.last() == pieces@[i as int]@);
        if i > 0 {
            s.append(sep);
        } else {
            assert(after =~= seq![pieces@[0]@]);
        }
        s.append(pieces[i].as_str());
        i += 1;
    }
    assert(pieces@.take(pieces.len() as int) =~= pieces@);
    s
}

/// `s` without leading and trailing white space: `str::trim`.
pub fn trim_text(s: &str) -> (t: String)
    ensures
        t@ == trim(s@),
{
    let v = chars_of(s);
    let mut lo: usize = 0;
    assert(v@.skip(0) =~= v@);
    while lo < v.len() && char_is_whitespace(v[lo])
        invariant
            lo <= v.len(),
            v@ == s@,
            trim_start(v@) == trim_start(v@.skip(lo as int)),
        decreases v.len() - lo,
    {
        assert(v@.skip(lo as int).drop_first() =~= v@.skip(lo + 1));
        lo += 1;
    }
    assert(trim_start(v@.skip(lo as int)) == v@.skip(lo as int));
    let mut hi: usize = v.len();
    assert(v@.subrange(lo as int, v.len() as int) =~= v@.skip(lo as int));
    while hi > lo && char_is_whitespace(v[hi - 1])
        invariant
            lo <= hi <= v.len(),
            v@ == s@,
            trim(v@) == trim_end(v@.subrange(lo as int, hi as int)),
        decreases hi - lo,
    {
        assert(v@.subrange(lo as int, hi as int).drop_last() =~= v@.subrange(
            lo as int,
            hi - 1 as int,
        ));
        hi -= 1;
    }
    string_of(&v, lo, hi)
}

/// The number of bytes that encode one character: `char::len_utf8`.
pub fn utf8_width(c: char) -> (w: usize)
    ensures
        w == char_width(c),
{
    proof {
        vstd::utf8::char_is_scalar(c);
    }
    let u = c as u32;
    if u <= 0x7F {
        1
    } else if u <= 0x7FF {
        2
    } else if u <= 0xFFFF {
        3
    } else {
        4
    }
}

/// The number of bytes of the UTF-8 encoding of `s`: `str::len`, counted in a type wide
/// enough that the count cannot overflow.
pub fn byte_count(s: &str) -> (n: u128)
    ensures
        n == byte_len(s@),
{
    let v = chars_of(s);
    let mut n: u128 = 0;
    let mut i: usize = 0;
    assert(v@.take(0) =~= Seq::<char>::empty());
    while i < v.len()
        invariant
            i <= v.len(),
            v@ == s@,
            n == byte_len(v@.take(i as int)),
            n <= 4 * i,
        decreases v.len() - i,
    {
        proof {
            lemma_byte_len_take(v@, i as int);
            lemma_char_width_positive(v@[i as int]);
        }
        n = n + utf8_width(v[i]) as u128;
        i += 1;
    }
    assert(v@.take(i as int) =~= v@);
    n
}

/// How many characters the longest prefix of `v` that fits in `n` bytes has, and how many
/// bytes it takes.
fn fitting_prefix(v: &Vec<char>, n: usize) -> (r: (usize, usize))
    ensures
        r.0 <= v@.len(),
        byte_prefix(v@, n as int) == v@.take(r.0 as int),
        byte_len(v@.take(r.0 as int)) == r.1,
        r.1 <= n,
{
    let mut i: usize = 0;
    let mut used: usize = 0;
    assert(v@.skip(0) =~= v@);
    assert(v@.take(0) =~= Seq::<char>::empty());
    while i < v.len() && utf8_width(v[i]) <= n - used
        invariant
            i <= v.len(),
            used <= n,
            used == byte_len(v@.take(i as int)),
            byte_prefix(v@, n as int) == v@.take(i as int) + byte_prefix(
                v@.skip(i as int),
                n - used,
            ),
        decreases v.len() - i,
    {
        let w = utf8_width(v[i]);
        let ghost tail = v@.skip(i as int);
        assert(tail.drop_first() =~= v@.skip(i + 1));
        assert(v@.take(i as int) + (seq![v@[i as int]] + byte_prefix(v@.skip(i + 1), n - used - w))
            =~= v@.take(i + 1) + byte_prefix(v@.skip(i + 1), n - used - w));
        proof {
            lemma_byte_len_take(v@, i as int);
        }
        used = used + w;
        i += 1;
    }
    assert(byte_prefix(v@.skip(i as int), n - used) =~= Seq::<char>::empty());
    assert(v@.take(i as int) + Seq::<char>::empty() =~= v@.take(i as int));
    (i, used)
}

/// The first `n` bytes of `s`, which must end on a character boundary: `&s[..n]`.
pub fn prefix_bytes(s: &str, n: usize) -> (t: String)
    requires
        on_char_boundary(s@, n as int),
    ensures
        t@ == byte_prefix(s@, n as int),
        byte_len(t@) == n,
{
    let v = chars_of(s);
    let (i, _used) = fitting_prefix(&v, n);
    string_of(&v, 0, i)
}

/// Whether byte offset `n` lies between two characters of `s` or at one of its ends:
/// `str::is_char_boundary`.
pub fn is_boundary(s: &str, n: usize) -> (b: bool)
    ensures
        b == on_char_boundary(s@, n as int),
{
    let v = chars_of(s);
    let (_i, used) = fitting_prefix(&v, n);
    used == n
}

/// Whether `s` ends with `suffix`: `str::ends_with`.
pub fn ends_with_text(s: &str, suffix: &str) -> (b: bool)
    ensures
        b == has_suffix(s@, suffix@),
{
    let v = chars_of(s);
    let p = chars_of(suffix);
    if p.len() > v.len() {
        return false;
    }
    let start = v.len() - p.len();
    let b = occurs_at(&v, start, &p);
    assert(v@.skip(start as int).take(p@.len() as int) =~= v@.skip(start as int));
    b
}

/// Whether `s` begins with `prefix`: `str::starts_with`.
pub fn starts_with_text(s: &str, prefix: &str) -> (b: bool)
    ensures
        b == has_prefix(s@, prefix@),
{
    let v = chars_of(s);
    let p = chars_of(prefix);
    assert(v@.skip(0) =~= v@);
    occurs_at(&v, 0, &p)
}

/// Whether two strings hold the same characters.
pub fn same_text(a: &str, b: &str) -> (r: bool)
    ensures
        r == (a@ == b@),
{
    a.to_owned() == b.to_owned()
}

} // verus!
