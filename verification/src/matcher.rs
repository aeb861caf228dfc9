//! The placeholder matcher: finds every `{{ NAME }}` token in a template, in
//! left-to-right, non-overlapping order, and detects the backtick wrapping
//! used by the helm-compatibility mode.
//!
//! A placeholder is the literal `{{`, optional whitespace, one or more word
//! characters (the name), optional whitespace, and the literal `}}`.

use vstd::prelude::*;

use crate::text::{
    is_space_char, lemma_skip_spaces_bounds, lemma_skip_word_bounds, skip_spaces, skip_word,
    space_char, word_char,
};

verus! {

/// The placeholder that begins exactly at position `i` of `s`, if any:
/// `Some((name_start, name_end, end))` when `s` holds `{{`, whitespace, a
/// non-empty word-character run spanning `[name_start, name_end)`, whitespace,
/// and `}}` ending at `end`; `None` otherwise.
pub open spec fn match_at(s: Seq<char>, i: int) -> Option<(int, int, int)> {
    if 0 <= i && i + 2 <= s.len() && s[i] == '{' && s[i + 1] == '{' {
        let a = skip_spaces(s, i + 2);
        let b = skip_word(s, a);
        let c = skip_spaces(s, b);
        if b > a && c + 2 <= s.len() && s[c] == '}' && s[c + 1] == '}' {
            Some((a, b, c + 2))
        } else {
            None
        }
    } else {
        None
    }
}

/// A placeholder is at least five characters long (`{{x}}`), lies inside the
/// template, and its name span lies between the delimiters.
pub proof fn lemma_match_at_bounds(s: Seq<char>, i: int)
    requires
        match_at(s, i) is Some,
    ensures
        ({
            let (a, b, e) = match_at(s, i)->0;
            0 <= i && i + 2 <= a && a < b && b <= e - 2 && i + 5 <= e && e <= s.len()
        }),
{
    lemma_skip_spaces_bounds(s, i + 2);
    let a = skip_spaces(s, i + 2);
    lemma_skip_word_bounds(s, a);
    let b = skip_word(s, a);
    lemma_skip_spaces_bounds(s, b);
}

/// A placeholder occurrence: the span `[start, end)` of the whole matched
/// text, delimiters included, and the span `[name_start, name_end)` of the
/// extracted name.
#[derive(Clone, Copy, Debug)]
pub struct Match {
    pub start: usize,
    pub name_start: usize,
    pub name_end: usize,
    pub end: usize,
}

impl Match {
    /// The match is exactly what the pattern recognises at `start` in `s`.
    pub open spec fn valid(self, s: Seq<char>) -> bool {
        match_at(s, self.start as int) == Some(
            (self.name_start as int, self.name_end as int, self.end as int),
        )
    }
}

impl View for Match {
    type V = (int, int, int, int);

    open spec fn view(&self) -> (int, int, int, int) {
        (self.start as int, self.name_start as int, self.name_end as int, self.end as int)
    }
}

/// All placeholders of `s` at or after position `i`, in increasing,
/// non-overlapping order, each as `(start, name_start, name_end, end)`.
pub open spec fn matches_from(s: Seq<char>, i: int) -> Seq<(int, int, int, int)>
    recommends
        0 <= i,
    decreases s.len() - i,
{
    if i < 0 || i >= s.len() {
        Seq::empty()
    } else {
        match match_at(s, i) {
            Some((a, b, e)) => {
                proof {
                    lemma_match_at_bounds(s, i);
                }
                seq![(i, a, b, e)] + matches_from(s, e)
            },
            None => matches_from(s, i + 1),
        }
    }
}

/// The placeholder occurrences of the whole template, first to last.
pub open spec fn matches_of(s: Seq<char>) -> Seq<(int, int, int, int)> {
    matches_from(s, 0)
}

/// The placeholder that begins exactly at position `i` of `s`, if any.
pub fn match_at_position(s: &str, i: usize) -> (r: Option<Match>)
    ensures
        match r {
            Some(m) => m.start == i && m.valid(s@),
            None => match_at(s@, i as int) is None,
        },
{
    let n = s.unicode_len();
    if i >= n || n - i < 2 {
        return None;
    }
    if s.get_char(i) != '{' || s.get_char(i + 1) != '{' {
        return None;
    }
    let mut j: usize = i + 2;
    while j < n && space_char(s.get_char(j))
        invariant
            n == s@.len(),
            i + 2 <= j <= n,
            skip_spaces(s@, i + 2) == skip_spaces(s@, j as int),
        decreases n - j,
    {
        j += 1;
    }
    assert(skip_spaces(s@, j as int) == j as int);
    let a = j;
    while j < n && word_char(s.get_char(j))
        invariant
            n == s@.len(),
            a <= j <= n,
            skip_word(s@, a as int) == skip_word(s@, j as int),
        decreases n - j,
    {
        j += 1;
    }
    assert(skip_word(s@, j as int) == j as int);
    let b = j;
    if b == a {
        return None;
    }
    while j < n && space_char(s.get_char(j))
        invariant
            n == s@.len(),
            b <= j <= n,
            skip_spaces(s@, b as int) == skip_spaces(s@, j as int),
        decreases n - j,
    {
        j += 1;
    }
    assert(skip_spaces(s@, j as int) == j as int);
    let c = j;
    if n - c < 2 {
        return None;
    }
    if s.get_char(c) != '}' || s.get_char(c + 1) != '}' {
        return None;
    }
    Some(Match { start: i, name_start: a, name_end: b, end: c + 2 })
}

/// All placeholders of the template, in left-to-right, non-overlapping order.
pub fn placeholder_matches(s: &str) -> (r: Vec<Match>)
    ensures
        r@.map_values(|m: Match| m@) == matches_of(s@),
        forall|k: int| 0 <= k < r@.len() ==> (#[trigger] r@[k]).valid(s@),
{
    let n = s.unicode_len();
    let mut out: Vec<Match> = Vec::new();
    let mut i: usize = 0;
    while i < n
        invariant
            n == s@.len(),
            i <= n,
            matches_of(s@) == out@.map_values(|m: Match| m@) + matches_from(s@, i as int),
            forall|k: int| 0 <= k < out@.len() ==> (#[trigger] out@[k]).valid(s@),
        decreases n - i,
    {
        let ghost prev = out@.map_values(|m: Match| m@);
        match match_at_position(s, i) {
            Some(m) => {
                proof {
                    lemma_match_at_bounds(s@, i as int);
                }
                out.push(m);
                proof {
                    assert(out@.map_values(|mm: Match| mm@) =~= prev + seq![m@]);
                    assert(seq![m@] + matches_from(s@, m.end as int) == matches_from(
                        s@,
                        i as int,
                    ));
                    assert(prev + (seq![m@] + matches_from(s@, m.end as int)) =~= (prev + seq![
                        m@,
                    ]) + matches_from(s@, m.end as int));
                }
                i = m.end;
            },
            None => {
                i += 1;
            },
        }
    }
    proof {
        assert(matches_of(s@) =~= out@.map_values(|m: Match| m@));
    }
    out
}

/// Whether the span `[start, end)` of a placeholder match is already wrapped
/// by the helm-compatibility marker: the three characters `{{` plus backtick
/// just before it, and backtick plus `}}` just after it. False whenever the
/// span is within three characters of either end of the text.
pub open spec fn is_wrapped(s: Seq<char>, start: int, end: int) -> bool {
    &&& start >= 3
    &&& end + 3 <= s.len()
    &&& s[start - 3] == '{'
    &&& s[start - 2] == '{'
    &&& s[start - 1] == '`'
    &&& s[end] == '`'
    &&& s[end + 1] == '}'
    &&& s[end + 2] == '}'
}

/// Executable test for [`is_wrapped`], on a match's span within `content`.
pub fn is_helm_wrapped(content: &str, start: usize, end: usize) -> (r: bool)
    requires
        start <= end && end <= content@.len(),
    ensures
        r == is_wrapped(content@, start as int, end as int),
{
    let n = content.unicode_len();
    if start < 3 || n - end < 3 {
        return false;
    }
    content.get_char(start - 3) == '{' && content.get_char(start - 2) == '{' && content.get_char(
        start - 1,
    ) == '`' && content.get_char(end) == '`' && content.get_char(end + 1) == '}'
        && content.get_char(end + 2) == '}'
}

} // verus!
