use apply_env::{escape_special_chars, is_helm_wrapped, match_at_position, placeholder_matches};

#[test]
fn finds_all_placeholders_left_to_right() {
    let t = "a {{X}} b {{ Y_2 }} c";
    let ms = placeholder_matches(t);
    assert_eq!(ms.len(), 2);

    assert_eq!(ms[0].start, 2);
    assert_eq!(ms[0].end, 7);
    assert_eq!(&t[ms[0].name_start..ms[0].name_end], "X");

    assert_eq!(ms[1].start, 10);
    assert_eq!(ms[1].end, 19);
    assert_eq!(&t[ms[1].name_start..ms[1].name_end], "Y_2");
}

#[test]
fn extra_braces_do_not_start_a_match() {
    let t = "{{{{A}}";
    let ms = placeholder_matches(t);
    assert_eq!(ms.len(), 1);
    assert_eq!(ms[0].start, 2);
    assert_eq!(ms[0].end, 7);
}

#[test]
fn name_must_be_word_characters() {
    assert!(placeholder_matches("{{A B}}").is_empty());
    assert!(placeholder_matches("{{}}").is_empty());
    assert!(placeholder_matches("{{ }}").is_empty());
    assert!(placeholder_matches("{{A-B}}").is_empty());
    assert_eq!(placeholder_matches("{{A_B9}}").len(), 1);
}

#[test]
fn match_at_position_requires_exact_start() {
    let t = "x{{A}}";
    assert!(match_at_position(t, 0).is_none());
    let m = match_at_position(t, 1).expect("a placeholder starts here");
    assert_eq!(m.start, 1);
    assert_eq!(m.end, 6);
    assert!(match_at_position(t, 2).is_none());
    assert!(match_at_position(t, 99).is_none());
}

#[test]
fn positions_count_characters_not_bytes() {
    // The first character is two bytes long; positions are in characters.
    let t = "é{{A}}";
    let ms = placeholder_matches(t);
    assert_eq!(ms.len(), 1);
    assert_eq!(ms[0].start, 1);
    assert_eq!(ms[0].end, 6);
}

#[test]
fn wrap_detection_checks_both_markers() {
    //         0123456789012345
    let t = "{{`{{FOO}}`}}";
    assert!(is_helm_wrapped(t, 3, 10));

    let only_left = "{{`{{FOO}}";
    assert!(!is_helm_wrapped(only_left, 3, 10));

    let only_right = "{{FOO}}`}}";
    assert!(!is_helm_wrapped(only_right, 0, 7));
}

#[test]
fn wrap_detection_is_false_near_the_boundaries() {
    let t = "x{{FOO}}y";
    assert!(!is_helm_wrapped(t, 1, 8));
    assert!(!is_helm_wrapped(t, 0, 9));
}

#[test]
fn escape_rewrites_each_special_character() {
    assert_eq!(escape_special_chars("a\"b\\c\n\r\t"), "a\\\"b\\\\c\\n\\r\\t");
    assert_eq!(escape_special_chars("\u{8}\u{c}"), "\\b\\f");
    assert_eq!(escape_special_chars("plain/slash"), "plain/slash");
    assert_eq!(escape_special_chars(""), "");
}
