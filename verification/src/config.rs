//! The render configuration: an immutable value object read by one render
//! call.

use vstd::prelude::*;

verus! {

/// Configuration of one render.
#[derive(Debug, Clone)]
pub struct TemplateConfig {
    /// The template file to read, if any; the surrounding layer reads the
    /// standard input when it is absent.
    pub file_name: Option<String>,
    /// Write the rendered text back to the input file instead of printing it,
    /// when the rendered text is non-empty.
    pub rewrite: bool,
    /// Helm-compatibility mode: wrap each placeholder in a backtick marker
    /// instead of resolving it; never queries variable values.
    pub helm_only: bool,
    /// Apply the escape transform to resolved values.
    pub escape: bool,
    /// The replacement for a placeholder whose name resolves to nothing; used
    /// verbatim, never escaped.
    pub default: Option<String>,
    /// Emit a trace line for each placeholder decision; a side channel of the
    /// surrounding layer with no influence on the rendered text.
    pub debug: bool,
    /// Explicit key/value bindings. When present, lookups read these and
    /// never the environment snapshot handed to the render call.
    pub env_vars: Option<Vec<(String, String)>>,
}

impl Default for TemplateConfig {
    fn default() -> (c: Self)
        ensures
            c.file_name is None,
            !c.rewrite,
            !c.helm_only,
            !c.escape,
            c.default is None,
            !c.debug,
            c.env_vars is None,
    {
        TemplateConfig {
            file_name: None,
            rewrite: false,
            helm_only: false,
            escape: false,
            default: None,
            debug: false,
            env_vars: None,
        }
    }
}

} // verus!
