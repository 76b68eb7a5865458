use basedtyper::cli::{parse_command, parse_port, server_port, Command, DEFAULT_PORT};
use basedtyper::config::{config_file, data_dir, wordlist_dir};
use basedtyper::generator::{first_definition, generator_terms, lookup_url, wordlist_entry};
use basedtyper::parser::{
    parse_wordlist, pick_quote, quote_from_listing, quote_from_reply, quote_words, select_words, try_parse,
    try_parse_wordlist, wants_definitions, WORDLIST_DRAWS,
};

fn args(v: &[&str]) -> Vec<String> {
    v.iter().map(|s| s.to_string()).collect()
}

#[test]
fn ports_parse_like_std() {
    for s in ["0", "1337", "+80", "4294967295", "007"] {
        assert_eq!(parse_port(s), s.parse::<u32>().ok());
    }
    for s in ["", "+", "-1", "4294967296", "12a", " 1", "99999999999999999999"] {
        assert_eq!(parse_port(s), None);
        assert_eq!(s.parse::<u32>().ok(), None);
    }
}

#[test]
fn commands() {
    assert!(matches!(parse_command(&args(&["bt"])), Command::Client));
    assert!(matches!(parse_command(&args(&["bt", "serve"])), Command::Serve(p) if p == DEFAULT_PORT));
    assert!(matches!(parse_command(&args(&["bt", "serve", " 8080 "])), Command::Serve(8080)));
    assert!(matches!(parse_command(&args(&["bt", "serve", "x"])), Command::Serve(1337)));
    assert!(matches!(parse_command(&args(&["bt", "generate", "f.txt"])), Command::Generate(p) if p == "f.txt"));
    assert!(matches!(parse_command(&args(&["bt", "generate"])), Command::MissingPath));
    assert!(matches!(parse_command(&args(&["bt", "dance"])), Command::Nothing));
    assert_eq!(server_port(&args(&["srv", "9000"])), 9000);
    assert_eq!(server_port(&args(&["srv", " 9000"])), 1337);
    assert_eq!(server_port(&args(&["srv"])), 1337);
}

#[test]
fn config_paths() {
    assert_eq!(data_dir("/h"), "/h/.local/share/basedtyper");
    assert_eq!(wordlist_dir("/h"), "/h/.local/share/basedtyper/wordlists");
    assert_eq!(config_file("/h"), "/h/.config/basedtyper/config.toml");
}

#[test]
fn select_words_skips_comments_and_keeps_order() {
    let chunks = args(&["cat\nanimal", "#note\nx", "dog\npet"]);
    let w = select_words(&chunks, &vec![2, 1, 0, 2], true);
    let words: Vec<(String, String)> =
        w.iter().map(|w| (w.get_word().clone(), w.get_definition().clone())).collect();
    assert_eq!(
        words,
        vec![
            ("dog".to_string(), "pet".to_string()),
            ("cat".to_string(), "animal".to_string()),
            ("dog".to_string(), "pet".to_string()),
        ]
    );
    let w = select_words(&chunks, &vec![0], false);
    assert_eq!(w[0].get_definition(), "");
}

#[test]
fn parse_wordlist_draws_from_entries() {
    let text = "cat\nanimal\n\ndog\npet\n\n#c\nz";
    let w = parse_wordlist(text, WORDLIST_DRAWS, false);
    assert!(w.len() <= 3);
    for word in &w {
        assert!(["cat", "dog", ""].contains(&word.get_word().as_str()));
        assert_eq!(word.get_definition(), "");
    }
    let w = parse_wordlist("solo\ndef", 5, true);
    assert_eq!(w.len(), 1);
    assert_eq!(w[0].get_word(), "solo");
    assert_eq!(w[0].get_definition(), "def");
    assert!(parse_wordlist("a\nb", 0, true).is_empty());
}

#[test]
fn quotes_and_flags() {
    let w = quote_words("to be or");
    assert_eq!(w.len(), 3);
    assert_eq!(w[2].get_word(), "or");
    assert!(pick_quote() < 100);
    assert!(wants_definitions(&args(&["x", "y"])));
    assert!(!wants_definitions(&args(&["x", "--no-defs"])));
}

#[test]
fn generated_entries_read_back() {
    assert_eq!(
        lookup_url("cat"),
        "https://api.urbandictionary.com/v0/define?term=cat&page=1"
    );
    assert_eq!(generator_terms("a b"), vec!["a", "b"]);
    let text = wordlist_entry("c\nat", "small animal") + &wordlist_entry("dog", "pet");
    assert_eq!(text, "cat\nsmall animal\n\ndog\npet\n\n");
    let w = parse_wordlist(&text, 1, false);
    assert_eq!(w.len(), 1);
    let chunks = args(&["cat\nsmall animal", "dog\npet"]);
    let w = select_words(&chunks, &vec![0, 1], true);
    assert_eq!(w[0].get_word(), "cat");
    assert_eq!(w[0].get_definition(), "small animal");
    assert_eq!(w[1].get_word(), "dog");
}

fn word_pairs(words: &[basedtyper::word::Word]) -> Vec<(String, String)> {
    words.iter().map(|w| (w.get_word().clone(), w.get_definition().clone())).collect()
}

#[test]
fn quote_is_read_from_the_listing() {
    let body = r#"{"data":{"children":[{"data":{"selftext":"one two"}},{"data":{"selftext":"a  b"}},{"data":{}}]}}"#;
    let ws = quote_from_listing(body, 1).expect("a quote");
    assert_eq!(
        word_pairs(&ws),
        vec![("a".to_string(), String::new()), ("".to_string(), String::new()), ("b".to_string(), String::new())]
    );
    let ws = quote_from_listing(body, 0).expect("a quote");
    assert_eq!(word_pairs(&ws), vec![("one".to_string(), String::new()), ("two".to_string(), String::new())]);
}

#[test]
fn quote_is_missing_where_the_listing_has_none() {
    let body = r#"{"data":{"children":[{"data":{"selftext":"x"}},{"data":{"selftext":3}},{"data":{}}]}}"#;
    assert!(quote_from_listing(body, 1).is_none());
    assert!(quote_from_listing(body, 2).is_none());
    assert!(quote_from_listing(body, 3).is_none());
    assert!(quote_from_listing("not json", 0).is_none());
    assert!(quote_from_listing(r#"{"data":{"children":{}}}"#, 0).is_none());
}

#[test]
fn quote_from_reply_picks_one_of_a_hundred() {
    let child = r#"{"data":{"selftext":"same words"}}"#;
    let body = format!(r#"{{"data":{{"children":[{}]}}}}"#, vec![child; 100].join(","));
    let ws = quote_from_reply(&body).expect("a quote");
    assert_eq!(word_pairs(&ws), vec![("same".to_string(), String::new()), ("words".to_string(), String::new())]);
    assert!(quote_from_reply(r#"{"data":{"children":[]}}"#).is_none());
    assert!(quote_from_reply("<html>").is_none());
}

#[test]
fn first_definition_of_a_dictionary_reply() {
    assert_eq!(
        first_definition(r#"{"list":[{"definition":"a thing"},{"definition":"other"}]}"#),
        Some("a thing".to_string())
    );
    assert_eq!(first_definition(r#"{"list":[]}"#), None);
    assert_eq!(first_definition(r#"{"list":[{"word":"w"}]}"#), None);
    assert_eq!(first_definition(r#"{"list":"none"}"#), None);
    assert_eq!(first_definition("oops"), None);
}

#[test]
fn drawing_fails_only_on_an_undefined_entry() {
    assert!(try_parse_wordlist("lonely", 5, true).is_none());
    let ws = try_parse_wordlist("lonely", 5, false).expect("words");
    assert_eq!(word_pairs(&ws), vec![("lonely".to_string(), String::new())]);
    let ws = try_parse_wordlist("#note", 5, true).expect("comments have no definition");
    assert!(ws.is_empty());
    let ws = try_parse_wordlist("lonely", 0, true).expect("nothing drawn");
    assert!(ws.is_empty());
    let ws = try_parse_wordlist("w\nd", 3, true).expect("words");
    assert_eq!(word_pairs(&ws), vec![("w".to_string(), "d".to_string())]);
}

#[test]
fn try_parse_reads_the_arguments() {
    assert!(try_parse("lonely", 5, &args(&["basedtyper"])).is_none());
    let ws = try_parse("lonely", 5, &args(&["basedtyper", "--no-defs"])).expect("words");
    assert_eq!(word_pairs(&ws), vec![("lonely".to_string(), String::new())]);
}
