use blocklist::parse_from_string;

#[test]
fn absent_or_empty_input_yields_nothing() {
    assert_eq!(parse_from_string(None, None), None);
    assert_eq!(parse_from_string(Some(""), None), None);
    assert_eq!(parse_from_string(Some(""), Some(",")), None);
}

#[test]
fn whitespace_split_takes_the_runs() {
    let got = parse_from_string(Some("  10.0.0.1/32 \t 10.0.0.2/32\n10.0.0.3/32  "), None);
    assert_eq!(
        got,
        Some(vec![
            "10.0.0.1/32".to_string(),
            "10.0.0.2/32".to_string(),
            "10.0.0.3/32".to_string(),
        ])
    );
}

#[test]
fn whitespace_split_of_only_spaces_is_empty() {
    assert_eq!(parse_from_string(Some("   \t\n "), None), Some(vec![]));
}

#[test]
fn separator_split_keeps_empty_pieces_and_trims() {
    let got = parse_from_string(Some("a , b ,, c"), Some(","));
    assert_eq!(
        got,
        Some(vec![
            "a".to_string(),
            "b".to_string(),
            "".to_string(),
            "c".to_string(),
        ])
    );
}

#[test]
fn separator_at_the_edges_yields_empty_pieces() {
    let got = parse_from_string(Some(",x,"), Some(","));
    assert_eq!(
        got,
        Some(vec!["".to_string(), "x".to_string(), "".to_string()])
    );
}

#[test]
fn multi_character_separator_splits_whole_occurrences() {
    let got = parse_from_string(Some("one::two::three"), Some("::"));
    assert_eq!(
        got,
        Some(vec![
            "one".to_string(),
            "two".to_string(),
            "three".to_string(),
        ])
    );
}

#[test]
fn empty_separator_splits_between_every_character() {
    let got = parse_from_string(Some("ab"), Some(""));
    assert_eq!(
        got,
        Some(vec![
            "".to_string(),
            "a".to_string(),
            "b".to_string(),
            "".to_string(),
        ])
    );
}

#[test]
fn separator_absent_from_the_text_yields_one_trimmed_piece() {
    let got = parse_from_string(Some("  lonely  "), Some(","));
    assert_eq!(got, Some(vec!["lonely".to_string()]));
}
