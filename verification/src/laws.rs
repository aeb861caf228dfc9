//! Laws of the renderer, stated over the same spec functions its contracts
//! use.

use vstd::prelude::*;

use crate::config::TemplateConfig;
use crate::matcher::{is_wrapped, lemma_match_at_bounds, match_at};
use crate::render::{
    effective_vars, lookup, render_from, rendered, rendered_str, replacement_seq,
};

verus! {

proof fn lemma_render_from_copies(
    s: Seq<char>,
    cfg: TemplateConfig,
    vars: Seq<(String, String)>,
    i: int,
)
    requires
        0 <= i <= s.len(),
        forall|k: int| i <= k < s.len() && #[trigger] match_at(s, k) is Some ==> ({
            let (a, b, e) = match_at(s, k)->0;
            replacement_seq(s, k, a, b, e, cfg, vars) == s.subrange(k, e)
        }),
    ensures
        render_from(s, cfg, vars, i) == s.subrange(i, s.len() as int),
    decreases s.len() - i,
{
    if i >= s.len() {
        assert(s.subrange(i, s.len() as int) =~= Seq::<char>::empty());
    } else {
        match match_at(s, i) {
            Some((a, b, e)) => {
                lemma_match_at_bounds(s, i);
                lemma_render_from_copies(s, cfg, vars, e);
                assert(s.subrange(i, e) + s.subrange(e, s.len() as int) =~= s.subrange(
                    i,
                    s.len() as int,
                ));
            },
            None => {
                lemma_render_from_copies(s, cfg, vars, i + 1);
                assert(seq![s[i]] + s.subrange(i + 1, s.len() as int) =~= s.subrange(
                    i,
                    s.len() as int,
                ));
            },
        }
    }
}

/// Law: a template in which no position begins a placeholder renders to
/// itself, under every configuration and lookup source.
pub proof fn lemma_no_placeholder_identity(
    s: Seq<char>,
    cfg: TemplateConfig,
    vars: Seq<(String, String)>,
)
    requires
        forall|i: int| match_at(s, i) is None,
    ensures
        rendered(s, cfg, vars) == s,
{
    lemma_render_from_copies(s, cfg, vars, 0);
    assert(s.subrange(0, s.len() as int) =~= s);
}

/// Law: empty input renders to empty output, under every configuration and
/// lookup source.
pub proof fn lemma_empty_renders_empty(
    s: Seq<char>,
    cfg: TemplateConfig,
    vars: Seq<(String, String)>,
)
    requires
        s.len() == 0,
    ensures
        rendered(s, cfg, vars) == Seq::<char>::empty(),
{
}

/// Law: in normal mode, when no name resolves and no default is set,
/// rendering leaves the template unchanged — so rendering is a fixed point,
/// and re-rendering the output reproduces it.
pub proof fn lemma_unresolved_fixed_point(
    s: Seq<char>,
    cfg: TemplateConfig,
    vars: Seq<(String, String)>,
)
    requires
        !cfg.helm_only,
        cfg.default is None,
        forall|n: Seq<char>| #[trigger] lookup(vars, n) is None,
    ensures
        rendered(s, cfg, vars) == s,
        rendered(rendered(s, cfg, vars), cfg, vars) == rendered(s, cfg, vars),
{
    lemma_render_from_copies(s, cfg, vars, 0);
    assert(s.subrange(0, s.len() as int) =~= s);
}

proof fn lemma_render_from_helm_syntactic(
    s: Seq<char>,
    cfg1: TemplateConfig,
    cfg2: TemplateConfig,
    vars1: Seq<(String, String)>,
    vars2: Seq<(String, String)>,
    i: int,
)
    requires
        cfg1.helm_only,
        cfg2.helm_only,
    ensures
        render_from(s, cfg1, vars1, i) == render_from(s, cfg2, vars2, i),
    decreases s.len() - i,
{
    if 0 <= i < s.len() {
        match match_at(s, i) {
            Some((a, b, e)) => {
                lemma_match_at_bounds(s, i);
                lemma_render_from_helm_syntactic(s, cfg1, cfg2, vars1, vars2, e);
            },
            None => {
                lemma_render_from_helm_syntactic(s, cfg1, cfg2, vars1, vars2, i + 1);
            },
        }
    }
}

/// Law: helm-compatibility mode is purely syntactic — it never queries the
/// lookup source and never reads the default, so its output is the same under
/// every lookup source and every otherwise-differing configuration.
pub proof fn lemma_helm_mode_is_syntactic(
    s: Seq<char>,
    cfg1: TemplateConfig,
    cfg2: TemplateConfig,
    vars1: Seq<(String, String)>,
    vars2: Seq<(String, String)>,
)
    requires
        cfg1.helm_only,
        cfg2.helm_only,
    ensures
        rendered(s, cfg1, vars1) == rendered(s, cfg2, vars2),
{
    lemma_render_from_helm_syntactic(s, cfg1, cfg2, vars1, vars2, 0);
}

/// Law: a helm-mode render leaves a template unchanged when every placeholder
/// in it is already wrapped — re-wrapping never happens.
pub proof fn lemma_wrapped_template_unchanged(
    s: Seq<char>,
    cfg: TemplateConfig,
    vars: Seq<(String, String)>,
)
    requires
        cfg.helm_only,
        forall|k: int| #[trigger] match_at(s, k) is Some ==> ({
            let (a, b, e) = match_at(s, k)->0;
            is_wrapped(s, k, e)
        }),
    ensures
        rendered(s, cfg, vars) == s,
{
    assert forall|k: int|
        0 <= k < s.len() && #[trigger] match_at(s, k) is Some implies ({
        let (a, b, e) = match_at(s, k)->0;
        replacement_seq(s, k, a, b, e, cfg, vars) == s.subrange(k, e)
    }) by {
        let (a, b, e) = match_at(s, k)->0;
        assert(is_wrapped(s, k, e));
    }
    lemma_render_from_copies(s, cfg, vars, 0);
    assert(s.subrange(0, s.len() as int) =~= s);
}

/// Law: when explicit bindings are supplied, rendering reads only them — the
/// environment snapshot has no effect on the output.
pub proof fn lemma_explicit_map_overrides_env(
    s: Seq<char>,
    cfg: TemplateConfig,
    env1: Seq<(String, String)>,
    env2: Seq<(String, String)>,
)
    requires
        cfg.env_vars is Some,
    ensures
        effective_vars(cfg, env1) == cfg.env_vars->0@,
        rendered_str(s, cfg, env1) == rendered_str(s, cfg, env2),
{
}

} // verus!
