use basedtyper::color::Color;
use basedtyper::text::{
    byte_count, ends_with_text, join_text, prefix_bytes, split_text, starts_with_text, trim_text,
};
use basedtyper::word::Word;
use basedtyper::wordlist::Wordlist;

#[test]
fn split_on_space_keeps_empty_pieces() {
    let pieces = split_text(" a  b ", " ");
    assert_eq!(pieces, vec!["", "a", "", "b", ""]);
}

#[test]
fn split_on_blank_line_is_leftmost_and_non_overlapping() {
    let pieces = split_text("a\n\n\nb", "\n\n");
    assert_eq!(pieces, vec!["a", "\nb"]);
    assert_eq!(split_text("", "\n\n"), vec![""]);
}

#[test]
fn join_undoes_split() {
    let text = "the quick  brown fox ";
    let pieces = split_text(text, " ");
    assert_eq!(join_text(&pieces, " "), text);
}

#[test]
fn trim_drops_unicode_white_space_at_both_ends() {
    assert_eq!(trim_text("\u{3000} \tabc d\n\u{a0}"), "abc d");
    assert_eq!(trim_text("   "), "");
}

#[test]
fn byte_count_counts_utf8_bytes() {
    assert_eq!(byte_count("abc"), 3);
    assert_eq!(byte_count("é€😀"), 2 + 3 + 4);
}

#[test]
fn prefix_bytes_cuts_between_characters() {
    assert_eq!(prefix_bytes("héllo", 3), "hé");
    assert_eq!(prefix_bytes("hello", 0), "");
}

#[test]
fn prefix_and_suffix_checks() {
    assert!(ends_with_text("list.basedtyper", ".basedtyper"));
    assert!(!ends_with_text("basedtyper", ".basedtyper"));
    assert!(starts_with_text("#comment", "#"));
    assert!(!starts_with_text("", "#"));
}

#[test]
fn color_names_round_trip() {
    for c in [
        Color::Red,
        Color::Green,
        Color::Yellow,
        Color::Blue,
        Color::Magenta,
        Color::Cyan,
        Color::Unknown,
    ] {
        assert_eq!(Color::from(c.to_string().as_str()), c);
    }
    assert_eq!(Color::from("purple"), Color::Unknown);
    assert_eq!(Color::Unknown.to_string(), "white");
    assert_eq!(Color::from("cyan").to_string(), "cyan");
}

#[test]
fn word_keeps_word_and_definition() {
    let w = Word::new("cat", "a small animal");
    assert_eq!(w.get_word(), "cat");
    assert_eq!(w.get_definition(), "a small animal");
}

#[test]
fn wordlist_from_text_reads_back_trimmed() {
    let l = Wordlist::from(String::from(" one two  three "));
    assert_eq!(l.words(), vec!["", "one", "two", "", "three", ""]);
    assert_eq!(l.defs(), vec!["", "", "", "", "", ""]);
    assert_eq!(l.to_string(), "one two  three");
}

#[test]
fn wordlist_keeps_definitions() {
    let l = Wordlist::new(vec![Word::new("a", "first"), Word::new("b", "second")]);
    assert_eq!(l.words(), vec!["a", "b"]);
    assert_eq!(l.defs(), vec!["first", "second"]);
    assert_eq!(l.to_string(), "a b");
}

#[test]
fn resize_cuts_long_text_to_width() {
    let mut l = Wordlist::new(vec![
        Word::new("alpha", "x"),
        Word::new("beta", "y"),
        Word::new("gamma", "z"),
    ]);
    l.resize(8);
    assert_eq!(l.to_string(), "alpha be");
    assert_eq!(l.words(), vec!["alpha", "be"]);
    assert_eq!(l.defs(), vec!["", ""]);
    assert!(l.to_string().len() <= 8);
}

#[test]
fn resize_keeps_short_text() {
    let mut l = Wordlist::new(vec![Word::new("ab", "def")]);
    l.resize(10);
    assert_eq!(l.words(), vec!["ab"]);
    assert_eq!(l.defs(), vec!["def"]);
}

#[test]
fn resize_at_a_space_trims_it() {
    let mut l = Wordlist::from(String::from("ab cd"));
    l.resize(3);
    assert_eq!(l.to_string(), "ab");
    assert!(l.to_string().len() <= 3);
}

#[test]
fn resizing_twice_is_resizing_once() {
    let mut l = Wordlist::from(String::from("lorem ipsum dolor"));
    l.resize(9);
    let once = l.words();
    l.resize(9);
    assert_eq!(l.words(), once);
    assert_eq!(once, vec!["lorem", "ips"]);
}
