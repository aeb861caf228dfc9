use apply_env::{render_template_str, render_template_with_lookup, TemplateConfig};

fn vars(pairs: &[(&str, &str)]) -> Vec<(String, String)> {
    pairs.iter().map(|(k, v)| (k.to_string(), v.to_string())).collect()
}

#[test]
fn replaces_env_without_escape() {
    let cfg = TemplateConfig { escape: false, ..Default::default() };

    let rendered =
        render_template_with_lookup("hello {{FOO}} world", &cfg, &vars(&[("FOO", "bar")]));

    assert_eq!(rendered, "hello bar world");
}

#[test]
fn leaves_placeholder_when_missing_and_no_default() {
    let cfg = TemplateConfig::default();

    let rendered = render_template_with_lookup("x {{MISSING}} y", &cfg, &vars(&[]));

    assert_eq!(rendered, "x {{MISSING}} y");
}

#[test]
fn uses_default_when_missing() {
    let cfg = TemplateConfig { default: Some("42".to_string()), ..Default::default() };

    let rendered = render_template_with_lookup("x {{MISSING}} y", &cfg, &vars(&[]));

    assert_eq!(rendered, "x 42 y");
}

#[test]
fn helm_only_wraps_placeholder() {
    let cfg = TemplateConfig { helm_only: true, ..Default::default() };

    let rendered = render_template_str("{{FOO}}", &cfg, &vars(&[]));
    assert_eq!(rendered, "{{`{{FOO}}`}}");
}

#[test]
fn helm_only_does_not_double_wrap() {
    let cfg = TemplateConfig { helm_only: true, ..Default::default() };

    let rendered = render_template_str("hello: {{`{{FOO}}`}}", &cfg, &vars(&[]));
    assert_eq!(rendered, "hello: {{`{{FOO}}`}}");
}

#[test]
fn helm_only_multiple_occurrences_in_one_string() {
    let cfg = TemplateConfig { helm_only: true, ..Default::default() };
    let rendered =
        render_template_str(r#"hello: "{{FOO}} -> {{FOO}} -> {{FOO}}""#, &cfg, &vars(&[]));
    assert_eq!(rendered, r#"hello: "{{`{{FOO}}`}} -> {{`{{FOO}}`}} -> {{`{{FOO}}`}}""#);
}

#[test]
fn replaces_multiple_occurrences_in_one_string_no_helm() {
    let cfg = TemplateConfig { ..Default::default() };

    let rendered = render_template_with_lookup(
        r#"hello: "{{FOO}} -> {{FOO}} -> {{FOO}}""#,
        &cfg,
        &vars(&[("FOO", "hello")]),
    );

    assert_eq!(rendered, r#"hello: "hello -> hello -> hello""#);
}

#[test]
fn escape_mode_escapes_special_chars() {
    let cfg = TemplateConfig { escape: true, ..Default::default() };

    let rendered =
        render_template_with_lookup("{{FOO}}", &cfg, &vars(&[("FOO", "a\"b\\c\n\r\t")]));

    assert_eq!(rendered, "a\\\"b\\\\c\\n\\r\\t");
}

#[test]
fn uses_env_vars_map_instead_of_process_env() {
    let cfg = TemplateConfig {
        env_vars: Some(vars(&[("FOO", "from_file")])),
        ..Default::default()
    };

    // The environment snapshot binds the same name differently; the explicit
    // map must win.
    let rendered = render_template_str("x {{FOO}} y", &cfg, &vars(&[("FOO", "from_process")]));
    assert_eq!(rendered, "x from_file y");
}

#[test]
fn text_without_placeholders_is_unchanged() {
    let cfg = TemplateConfig::default();
    let input = "no pattern here: { single } {{ no name: ?! }} {{}} {{ two words }}";

    let rendered = render_template_with_lookup(input, &cfg, &vars(&[("FOO", "bar")]));
    assert_eq!(rendered, input);
}

#[test]
fn empty_input_renders_empty() {
    let plain = TemplateConfig::default();
    let busy = TemplateConfig {
        helm_only: true,
        escape: true,
        default: Some("d".to_string()),
        ..Default::default()
    };

    assert_eq!(render_template_with_lookup("", &plain, &vars(&[("A", "b")])), "");
    assert_eq!(render_template_with_lookup("", &busy, &vars(&[])), "");
}

#[test]
fn unresolved_render_is_a_fixed_point() {
    let cfg = TemplateConfig::default();
    let input = "a {{ONE}} b {{ TWO }} c";

    let once = render_template_with_lookup(input, &cfg, &vars(&[]));
    let twice = render_template_with_lookup(&once, &cfg, &vars(&[]));
    assert_eq!(once, input);
    assert_eq!(twice, once);
}

#[test]
fn helm_wrap_is_idempotent() {
    let cfg = TemplateConfig { helm_only: true, ..Default::default() };

    let once = render_template_str("{{FOO}}", &cfg, &vars(&[]));
    assert_eq!(once, "{{`{{FOO}}`}}");
    let twice = render_template_str(&once, &cfg, &vars(&[]));
    assert_eq!(twice, once);
}

#[test]
fn partial_marker_is_still_wrapped() {
    let cfg = TemplateConfig { helm_only: true, ..Default::default() };

    // Only the left half of the marker is present: not wrapped, so wrap it.
    let rendered = render_template_str("{{`{{FOO}}", &cfg, &vars(&[]));
    assert_eq!(rendered, "{{`{{`{{FOO}}`}}");

    // Only the right half: the same.
    let rendered = render_template_str("{{FOO}}`}}", &cfg, &vars(&[]));
    assert_eq!(rendered, "{{`{{FOO}}`}}`}}");
}

#[test]
fn multibyte_text_around_placeholders_is_kept() {
    let cfg = TemplateConfig::default();

    let rendered = render_template_with_lookup("é {{FOO}} ü", &cfg, &vars(&[("FOO", "v")]));
    assert_eq!(rendered, "é v ü");
}

#[test]
fn default_is_used_verbatim_even_with_escape_enabled() {
    let cfg = TemplateConfig {
        escape: true,
        default: Some("a\"b".to_string()),
        ..Default::default()
    };

    let rendered = render_template_with_lookup("x {{MISSING}} y", &cfg, &vars(&[]));
    assert_eq!(rendered, "x a\"b y");
}

#[test]
fn helm_only_ignores_values_and_default() {
    let cfg = TemplateConfig {
        helm_only: true,
        default: Some("42".to_string()),
        ..Default::default()
    };

    let rendered = render_template_with_lookup("{{FOO}}", &cfg, &vars(&[("FOO", "bar")]));
    assert_eq!(rendered, "{{`{{FOO}}`}}");
}

#[test]
fn whitespace_inside_braces_is_matched_and_replaced() {
    let cfg = TemplateConfig::default();

    let rendered =
        render_template_with_lookup("v: {{  FOO\t}} w", &cfg, &vars(&[("FOO", "x")]));
    assert_eq!(rendered, "v: x w");
}

#[test]
fn later_binding_of_same_key_wins() {
    let cfg = TemplateConfig::default();

    let rendered = render_template_with_lookup(
        "{{FOO}}",
        &cfg,
        &vars(&[("FOO", "first"), ("FOO", "second")]),
    );
    assert_eq!(rendered, "second");
}

#[test]
fn lookup_is_case_sensitive() {
    let cfg = TemplateConfig::default();

    let rendered =
        render_template_with_lookup("{{foo}} {{FOO}}", &cfg, &vars(&[("FOO", "x")]));
    assert_eq!(rendered, "{{foo}} x");
}
