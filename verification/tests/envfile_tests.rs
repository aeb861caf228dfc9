use apply_env::parse_env_text;

fn owned(pairs: &[(&str, &str)]) -> Vec<(String, String)> {
    pairs.iter().map(|(k, v)| (k.to_string(), v.to_string())).collect()
}

#[test]
fn parses_plain_bindings() {
    let (pairs, bad) = parse_env_text("FOO=bar\nBAZ=qux\n");
    assert_eq!(pairs, owned(&[("FOO", "bar"), ("BAZ", "qux")]));
    assert!(bad.is_empty());
}

#[test]
fn skips_blank_lines_and_comments() {
    let (pairs, bad) = parse_env_text("\n# comment\n   \nFOO=bar\n  # indented comment\n");
    assert_eq!(pairs, owned(&[("FOO", "bar")]));
    assert!(bad.is_empty());
}

#[test]
fn strips_export_prefix() {
    let (pairs, bad) = parse_env_text("export FOO=bar\n");
    assert_eq!(pairs, owned(&[("FOO", "bar")]));
    assert!(bad.is_empty());
}

#[test]
fn trims_key_and_value() {
    let (pairs, _) = parse_env_text("  FOO =  bar baz  \n");
    assert_eq!(pairs, owned(&[("FOO", "bar baz")]));
}

#[test]
fn unquotes_double_and_single_quotes() {
    let (pairs, _) = parse_env_text("A=\"hello world\"\nB='x y'\nC=\"unbalanced\n");
    assert_eq!(pairs, owned(&[("A", "hello world"), ("B", "x y"), ("C", "\"unbalanced")]));
}

#[test]
fn lone_quote_value_is_kept() {
    let (pairs, _) = parse_env_text("A=\"\n");
    assert_eq!(pairs, owned(&[("A", "\"")]));
}

#[test]
fn line_without_equals_binds_empty_value() {
    let (pairs, bad) = parse_env_text("FOO\n");
    assert_eq!(pairs, owned(&[("FOO", "")]));
    assert!(bad.is_empty());
}

#[test]
fn malformed_lines_are_reported_with_their_numbers() {
    let (pairs, bad) = parse_env_text("=nokey\nFOO=bar\n   =alsobad\n");
    assert_eq!(pairs, owned(&[("FOO", "bar")]));
    assert_eq!(bad, vec![1, 3]);
}

#[test]
fn handles_crlf_line_endings() {
    let (pairs, bad) = parse_env_text("FOO=bar\r\nBAZ=qux\r\n");
    assert_eq!(pairs, owned(&[("FOO", "bar"), ("BAZ", "qux")]));
    assert!(bad.is_empty());
}

#[test]
fn final_line_without_newline_is_parsed() {
    let (pairs, _) = parse_env_text("FOO=bar");
    assert_eq!(pairs, owned(&[("FOO", "bar")]));
}

#[test]
fn empty_text_has_no_bindings() {
    let (pairs, bad) = parse_env_text("");
    assert!(pairs.is_empty());
    assert!(bad.is_empty());
}
