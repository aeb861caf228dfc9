//! A placeholder-substitution engine for text templates.
//!
//! The engine scans a template for `{{ NAME }}` placeholders, resolves each
//! name against a key/value list, and rebuilds the text with the chosen
//! replacements: a resolved value (optionally escaped for embedding in a JSON
//! string), a configured default, the placeholder kept verbatim, or — in the
//! helm-compatibility mode — the placeholder wrapped in a backtick marker.

pub mod args;
pub mod config;
pub mod envfile;
pub mod escape;
pub mod laws;
pub mod matcher;
pub mod render;
pub mod text;

pub use args::normalize_args;
pub use config::TemplateConfig;
pub use envfile::parse_env_text;
pub use escape::escape_special_chars;
pub use matcher::{is_helm_wrapped, match_at_position, placeholder_matches, Match};
pub use render::{
    lookup_pairs, render_template_str, render_template_with_lookup, resolve_match, run_from_stdio,
    OutputPlan,
};
