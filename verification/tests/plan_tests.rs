use apply_env::{run_from_stdio, OutputPlan, TemplateConfig};

fn vars(pairs: &[(&str, &str)]) -> Vec<(String, String)> {
    pairs.iter().map(|(k, v)| (k.to_string(), v.to_string())).collect()
}

#[test]
fn rewrite_with_file_plans_a_file_write_with_final_newline() {
    let cfg = TemplateConfig {
        file_name: Some("tpl.yaml".to_string()),
        rewrite: true,
        ..Default::default()
    };

    let plan = run_from_stdio("v: {{FOO}}", &cfg, &vars(&[("FOO", "1")]));
    match plan {
        OutputPlan::WriteFile { name, text } => {
            assert_eq!(name, "tpl.yaml");
            assert_eq!(text, "v: 1\n");
        }
        OutputPlan::PrintStdout { .. } => panic!("expected a file write"),
    }
}

#[test]
fn without_rewrite_the_rendered_text_is_printed_unchanged() {
    let cfg = TemplateConfig {
        file_name: Some("tpl.yaml".to_string()),
        rewrite: false,
        ..Default::default()
    };

    let plan = run_from_stdio("v: {{FOO}}", &cfg, &vars(&[("FOO", "1")]));
    match plan {
        OutputPlan::PrintStdout { text } => assert_eq!(text, "v: 1"),
        OutputPlan::WriteFile { .. } => panic!("expected printing"),
    }
}

#[test]
fn rewrite_of_empty_output_prints_instead() {
    let cfg = TemplateConfig {
        file_name: Some("tpl.yaml".to_string()),
        rewrite: true,
        ..Default::default()
    };

    let plan = run_from_stdio("", &cfg, &vars(&[]));
    match plan {
        OutputPlan::PrintStdout { text } => assert_eq!(text, ""),
        OutputPlan::WriteFile { .. } => panic!("expected printing"),
    }
}

#[test]
fn rewrite_without_a_file_prints_instead() {
    let cfg = TemplateConfig { rewrite: true, ..Default::default() };

    let plan = run_from_stdio("v: {{FOO}}", &cfg, &vars(&[("FOO", "1")]));
    match plan {
        OutputPlan::PrintStdout { text } => assert_eq!(text, "v: 1"),
        OutputPlan::WriteFile { .. } => panic!("expected printing"),
    }
}
