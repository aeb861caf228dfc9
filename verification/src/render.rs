//! The resolver and renderer: decides a replacement for every placeholder
//! match and rebuilds the output by interleaving the unmatched spans, copied
//! verbatim, with the replacements, in left-to-right match order.

use vstd::prelude::*;

use crate::config::TemplateConfig;
use crate::escape::{escape_seq, escape_special_chars};
use crate::matcher::{
    is_helm_wrapped, is_wrapped, lemma_match_at_bounds, match_at, match_at_position, Match,
};
use crate::text::str_eq;

verus! {

/// The value bound to `name` in a key/value list, where a later binding of
/// the same key overrides an earlier one; `None` when the key is absent.
pub open spec fn lookup(pairs: Seq<(String, String)>, name: Seq<char>) -> Option<Seq<char>>
    decreases pairs.len(),
{
    if pairs.len() == 0 {
        None
    } else if pairs.last().0@ == name {
        Some(pairs.last().1@)
    } else {
        lookup(pairs.drop_last(), name)
    }
}

/// Executable counterpart of [`lookup`].
pub fn lookup_pairs(pairs: &Vec<(String, String)>, name: &str) -> (r: Option<String>)
    ensures
        match r {
            Some(v) => lookup(pairs@, name@) == Some(v@),
            None => lookup(pairs@, name@) is None,
        },
{
    proof {
        assert(pairs@.take(pairs@.len() as int) =~= pairs@);
    }
    let mut j: usize = pairs.len();
    while j > 0
        invariant
            j <= pairs@.len(),
            lookup(pairs@, name@) == lookup(pairs@.take(j as int), name@),
        decreases j,
    {
        j -= 1;
        let p = &pairs[j];
        proof {
            assert(pairs@.take(j + 1).last() == pairs@[j as int]);
        }
        if str_eq(p.0.as_str(), name) {
            return Some(p.1.clone());
        }
        proof {
            assert(pairs@.take(j + 1).drop_last() =~= pairs@.take(j as int));
        }
    }
    None
}

/// The replacement for the placeholder `(start, a, b, e)` of `s` — full span
/// `[start, e)`, name span `[a, b)` — under the configured policy:
/// in helm-only mode the matched text is kept when already wrapped and
/// wrapped in the backtick marker otherwise; in normal mode a resolved value
/// is substituted (escaped when escaping is on), an unresolvable name falls
/// back to the configured default, and without a default the matched text is
/// kept verbatim.
pub open spec fn replacement_seq(
    s: Seq<char>,
    start: int,
    a: int,
    b: int,
    e: int,
    cfg: TemplateConfig,
    vars: Seq<(String, String)>,
) -> Seq<char> {
    let orig = s.subrange(start, e);
    let name = s.subrange(a, b);
    if cfg.helm_only {
        if is_wrapped(s, start, e) {
            orig
        } else {
            seq!['{', '{', '`'] + orig + seq!['`', '}', '}']
        }
    } else {
        match lookup(vars, name) {
            Some(v) => if cfg.escape {
                escape_seq(v)
            } else {
                v
            },
            None => match cfg.default {
                Some(d) => d@,
                None => orig,
            },
        }
    }
}

/// The rendered form of the part of `s` at and after position `i`: each
/// placeholder becomes its replacement, every other character is copied.
pub open spec fn render_from(
    s: Seq<char>,
    cfg: TemplateConfig,
    vars: Seq<(String, String)>,
    i: int,
) -> Seq<char>
    recommends
        0 <= i,
    decreases s.len() - i,
{
    if i < 0 || i >= s.len() {
        Seq::empty()
    } else {
        match match_at(s, i) {
            Some((a, b, e)) => {
                proof {
                    lemma_match_at_bounds(s, i);
                }
                replacement_seq(s, i, a, b, e, cfg, vars) + render_from(s, cfg, vars, e)
            },
            None => seq![s[i]] + render_from(s, cfg, vars, i + 1),
        }
    }
}

/// The rendered form of the whole template under `cfg`, with `vars` as the
/// lookup source.
pub open spec fn rendered(s: Seq<char>, cfg: TemplateConfig, vars: Seq<(String, String)>) -> Seq<
    char,
> {
    render_from(s, cfg, vars, 0)
}

/// The lookup source a render uses: the explicit bindings of the
/// configuration when present, else the environment snapshot handed in.
pub open spec fn effective_vars(cfg: TemplateConfig, env: Seq<(String, String)>) -> Seq<
    (String, String),
> {
    match cfg.env_vars {
        Some(m) => m@,
        None => env,
    }
}

/// The rendered form of the template under `cfg` with an environment
/// snapshot `env` as the fallback lookup source.
pub open spec fn rendered_str(s: Seq<char>, cfg: TemplateConfig, env: Seq<(String, String)>) -> Seq<
    char,
> {
    rendered(s, cfg, effective_vars(cfg, env))
}

/// The replacement text for one placeholder match of `template`.
pub fn resolve_match(
    template: &str,
    m: &Match,
    cfg: &TemplateConfig,
    vars: &Vec<(String, String)>,
) -> (r: String)
    requires
        m.valid(template@),
    ensures
        r@ == replacement_seq(
            template@,
            m.start as int,
            m.name_start as int,
            m.name_end as int,
            m.end as int,
            *cfg,
            vars@,
        ),
{
    proof {
        lemma_match_at_bounds(template@, m.start as int);
    }
    if cfg.helm_only {
        let orig = template.substring_char(m.start, m.end);
        if is_helm_wrapped(template, m.start, m.end) {
            orig.to_owned()
        } else {
            proof {
                reveal_strlit("{{`");
                reveal_strlit("`}}");
            }
            let mut w = String::from_str("{{`");
            w.append(orig);
            w.append("`}}");
            proof {
                assert(w@ =~= seq!['{', '{', '`'] + orig@ + seq!['`', '}', '}']);
            }
            w
        }
    } else {
        let name = template.substring_char(m.name_start, m.name_end);
        match lookup_pairs(vars, name) {
            Some(v) => if cfg.escape {
                escape_special_chars(v.as_str())
            } else {
                v
            },
            None => match &cfg.default {
                Some(d) => d.clone(),
                None => {
                    let orig = template.substring_char(m.start, m.end);
                    orig.to_owned()
                },
            },
        }
    }
}

/// Renders the template: copies each unmatched span verbatim and substitutes
/// each placeholder with its replacement, strictly in left-to-right match
/// order, with `vars` as the only lookup source.
pub fn render_template_with_lookup(
    template: &str,
    cfg: &TemplateConfig,
    vars: &Vec<(String, String)>,
) -> (r: String)
    ensures
        r@ == rendered(template@, *cfg, vars@),
{
    let n = template.unicode_len();
    let mut out = String::new();
    let mut i: usize = 0;
    while i < n
        invariant
            n == template@.len(),
            i <= n,
            rendered(template@, *cfg, vars@) == out@ + render_from(template@, *cfg, vars@, i as int),
        decreases n - i,
    {
        let ghost prev = out@;
        match match_at_position(template, i) {
            Some(m) => {
                proof {
                    lemma_match_at_bounds(template@, i as int);
                }
                let rep = resolve_match(template, &m, cfg, vars);
                out.append(rep.as_str());
                proof {
                    assert(prev + (rep@ + render_from(template@, *cfg, vars@, m.end as int)) =~= (
                    prev + rep@) + render_from(template@, *cfg, vars@, m.end as int));
                }
                i = m.end;
            },
            None => {
                let piece = template.substring_char(i, i + 1);
                out.append(piece);
                proof {
                    assert(piece@ =~= seq![template@[i as int]]);
                    assert(prev + (seq![template@[i as int]] + render_from(
                        template@,
                        *cfg,
                        vars@,
                        i + 1,
                    )) =~= (prev + piece@) + render_from(template@, *cfg, vars@, i + 1));
                }
                i += 1;
            },
        }
    }
    proof {
        assert(out@ + render_from(template@, *cfg, vars@, n as int) =~= out@);
    }
    out
}

/// Renders the template, resolving names against the explicit bindings of the
/// configuration when they are present, and against the environment snapshot
/// `env` otherwise.
pub fn render_template_str(template: &str, cfg: &TemplateConfig, env: &Vec<(String, String)>) -> (r:
    String)
    ensures
        r@ == rendered_str(template@, *cfg, env@),
{
    match &cfg.env_vars {
        Some(m) => render_template_with_lookup(template, cfg, m),
        None => render_template_with_lookup(template, cfg, env),
    }
}

/// What the surrounding I/O layer must do with the rendered text: overwrite
/// the input file, or print to the standard output.
#[derive(Debug, Clone)]
pub enum OutputPlan {
    /// Overwrite the named file with `text` (the rendered text plus a final
    /// newline, as a line-wise write leaves it).
    WriteFile { name: String, text: String },
    /// Print `text` exactly as rendered.
    PrintStdout { text: String },
}

/// One full run over already-read input: renders `content` and decides where
/// the result must go. The file is overwritten only when rewriting is enabled,
/// the rendered text is non-empty and an input file is named; in every other
/// case the rendered text is printed unchanged.
pub fn run_from_stdio(content: &str, cfg: &TemplateConfig, env: &Vec<(String, String)>) -> (plan:
    OutputPlan)
    ensures
        ({
            let out = rendered_str(content@, *cfg, env@);
            if cfg.rewrite && out.len() > 0 && cfg.file_name is Some {
                &&& plan matches OutputPlan::WriteFile { name, text }
                &&& name@ == cfg.file_name->0@
                &&& text@ == out + seq!['\n']
            } else {
                &&& plan matches OutputPlan::PrintStdout { text }
                &&& text@ == out
            }
        }),
{
    let out = render_template_str(content, cfg, env);
    if cfg.rewrite && out.unicode_len() > 0 {
        match &cfg.file_name {
            Some(file_name) => {
                let mut text = out;
                text.append("\n");
                proof {
                    reveal_strlit("\n");
                    assert(text@ =~= rendered_str(content@, *cfg, env@) + seq!['\n']);
                }
                OutputPlan::WriteFile { name: file_name.clone(), text }
            },
            None => OutputPlan::PrintStdout { text: out },
        }
    } else {
        OutputPlan::PrintStdout { text: out }
    }
}

} // verus!
