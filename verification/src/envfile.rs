//! Parsing of key/value text in the `.env` style: one `KEY=VALUE` binding per
//! line, an optional leading `export `, optional single or double quotes
//! around the value, blank lines and `#`-comments ignored, and a line without
//! a key skipped as malformed — with a warning left to the caller, never an
//! abort.

use vstd::prelude::*;

use crate::text::{
    find_char, lemma_find_char_bounds, starts_with, str_starts_with, str_trim, trim_seq,
};

verus! {

/// The prefix a line may carry in front of its key, as a shell export does.
pub open spec fn export_prefix() -> Seq<char> {
    seq!['e', 'x', 'p', 'o', 'r', 't', ' ']
}

/// What one line of a key/value file means.
pub enum LineParse {
    /// Blank, or a comment.
    Skip,
    /// Nothing but whitespace in front of the `=`: ignored with a warning.
    Malformed,
    /// A binding of `key` to `value`.
    Bind { key: Seq<char>, value: Seq<char> },
}

/// The value with one pair of enclosing quotes removed: quotes are stripped
/// only when the value is at least two characters long and begins and ends
/// with the same quote character, so a lone quote stays as it is.
pub open spec fn unquote(v: Seq<char>) -> Seq<char> {
    if v.len() >= 2 && ((v[0] == '"' && v.last() == '"') || (v[0] == '\'' && v.last() == '\'')) {
        v.subrange(1, v.len() - 1)
    } else {
        v
    }
}

/// The meaning of one line: trim it; skip it when blank or a comment; strip a
/// leading `export `; split at the first `=` (a line without `=` binds the
/// whole trimmed text, as a key, to the empty value); a line whose key part
/// trims to nothing is malformed; the value part is trimmed and unquoted.
pub open spec fn parse_line(line: Seq<char>) -> LineParse {
    let t = trim_seq(line);
    if t.len() == 0 || t[0] == '#' {
        LineParse::Skip
    } else {
        let u = if starts_with(t, export_prefix()) {
            t.skip(7)
        } else {
            t
        };
        let p = find_char(u, '=', 0);
        let key = trim_seq(u.subrange(0, p));
        if key.len() == 0 {
            LineParse::Malformed
        } else {
            let value = if p < u.len() {
                trim_seq(u.subrange(p + 1, u.len() as int))
            } else {
                Seq::empty()
            };
            LineParse::Bind { key, value: unquote(value) }
        }
    }
}

/// A line with its trailing carriage return stripped, as line-wise reading of
/// text with CRLF endings leaves it.
pub open spec fn strip_cr(line: Seq<char>) -> Seq<char> {
    if line.len() > 0 && line.last() == '\r' {
        line.drop_last()
    } else {
        line
    }
}

/// The lines of `s` at or after position `i`: one line per line feed, the
/// final line unterminated, and no empty line after a terminating line feed.
pub open spec fn lines_from(s: Seq<char>, i: int) -> Seq<Seq<char>>
    recommends
        0 <= i,
    decreases s.len() - i + 1,
{
    if i < 0 || i >= s.len() {
        Seq::empty()
    } else {
        let p = find_char(s, '\n', i);
        proof {
            lemma_find_char_bounds(s, '\n', i);
        }
        seq![strip_cr(s.subrange(i, p))] + lines_from(s, p + 1)
    }
}

/// The lines of a whole text.
pub open spec fn lines_of(s: Seq<char>) -> Seq<Seq<char>> {
    lines_from(s, 0)
}

/// The bindings the given lines make, in line order.
pub open spec fn binds_of(lines: Seq<Seq<char>>) -> Seq<(Seq<char>, Seq<char>)>
    decreases lines.len(),
{
    if lines.len() == 0 {
        Seq::empty()
    } else {
        let rest = binds_of(lines.drop_first());
        match parse_line(lines[0]) {
            LineParse::Bind { key, value } => seq![(key, value)] + rest,
            _ => rest,
        }
    }
}

/// The numbers of the malformed lines, the first line given being line
/// `first`.
pub open spec fn malformed_of(lines: Seq<Seq<char>>, first: int) -> Seq<int>
    decreases lines.len(),
{
    if lines.len() == 0 {
        Seq::empty()
    } else {
        let rest = malformed_of(lines.drop_first(), first + 1);
        if parse_line(lines[0]) is Malformed {
            seq![first] + rest
        } else {
            rest
        }
    }
}

proof fn lemma_binds_cons(l: Seq<char>, rest: Seq<Seq<char>>)
    ensures
        binds_of(seq![l] + rest) == (match parse_line(l) {
            LineParse::Bind { key, value } => seq![(key, value)] + binds_of(rest),
            _ => binds_of(rest),
        }),
{
    assert((seq![l] + rest)[0] == l);
    assert((seq![l] + rest).drop_first() =~= rest);
}

proof fn lemma_malformed_cons(l: Seq<char>, rest: Seq<Seq<char>>, first: int)
    ensures
        malformed_of(seq![l] + rest, first) == (if parse_line(l) is Malformed {
            seq![first] + malformed_of(rest, first + 1)
        } else {
            malformed_of(rest, first + 1)
        }),
{
    assert((seq![l] + rest)[0] == l);
    assert((seq![l] + rest).drop_first() =~= rest);
}

/// The parse of one line, with owned key and value.
enum ParsedLine {
    Skip,
    Malformed,
    Bind(String, String),
}

fn parse_env_line(line: &str) -> (r: ParsedLine)
    ensures
        ({
            match parse_line(line@) {
                LineParse::Skip => r is Skip,
                LineParse::Malformed => r is Malformed,
                LineParse::Bind { key, value } => r matches ParsedLine::Bind(k, v) && k@ == key
                    && v@ == value,
            }
        }),
{
    let t = str_trim(line);
    let tn = t.unicode_len();
    if tn == 0 {
        return ParsedLine::Skip;
    }
    if t.get_char(0) == '#' {
        return ParsedLine::Skip;
    }
    proof {
        reveal_strlit("export ");
        assert("export "@ =~= export_prefix());
    }
    let u: &str = if str_starts_with(t, "export ") {
        let stripped = t.substring_char(7, tn);
        proof {
            assert(stripped@ =~= t@.skip(7));
        }
        stripped
    } else {
        t
    };
    let un = u.unicode_len();
    let mut p: usize = 0;
    while p < un && u.get_char(p) != '='
        invariant
            un == u@.len(),
            p <= un,
            find_char(u@, '=', 0) == find_char(u@, '=', p as int),
        decreases un - p,
    {
        p += 1;
    }
    assert(find_char(u@, '=', p as int) == p as int);
    let key = str_trim(u.substring_char(0, p));
    if key.unicode_len() == 0 {
        return ParsedLine::Malformed;
    }
    let value_trimmed: &str = if p < un {
        str_trim(u.substring_char(p + 1, un))
    } else {
        proof {
            reveal_strlit("");
        }
        ""
    };
    let vn = value_trimmed.unicode_len();
    let value: &str = if vn >= 2 {
        let c0 = value_trimmed.get_char(0);
        let cl = value_trimmed.get_char(vn - 1);
        if (c0 == '"' && cl == '"') || (c0 == '\'' && cl == '\'') {
            value_trimmed.substring_char(1, vn - 1)
        } else {
            value_trimmed
        }
    } else {
        value_trimmed
    };
    ParsedLine::Bind(String::from_str(key), String::from_str(value))
}

/// Parses `.env`-style text into its key/value bindings, in line order, and
/// the one-based numbers of the malformed lines, for the caller to warn
/// about. Never fails: malformed lines are skipped, nothing else is rejected.
pub fn parse_env_text(text: &str) -> (r: (Vec<(String, String)>, Vec<usize>))
    ensures
        r.0@.map_values(|q: (String, String)| (q.0@, q.1@)) == binds_of(lines_of(text@)),
        r.1@.map_values(|k: usize| k as int) == malformed_of(lines_of(text@), 1),
{
    let n = text.unicode_len();
    let mut pairs: Vec<(String, String)> = Vec::new();
    let mut bad: Vec<usize> = Vec::new();
    let mut i: usize = 0;
    let mut line_idx: usize = 0;
    proof {
        assert(pairs@.map_values(|q: (String, String)| (q.0@, q.1@)) =~= Seq::<
            (Seq<char>, Seq<char>),
        >::empty());
        assert(bad@.map_values(|k: usize| k as int) =~= Seq::<int>::empty());
        assert(Seq::<(Seq<char>, Seq<char>)>::empty() + binds_of(lines_of(text@)) =~= binds_of(
            lines_of(text@),
        ));
        assert(Seq::<int>::empty() + malformed_of(lines_of(text@), 1) =~= malformed_of(
            lines_of(text@),
            1,
        ));
    }
    while i < n
        invariant
            n == text@.len(),
            i <= n,
            line_idx <= i,
            binds_of(lines_of(text@)) == pairs@.map_values(|q: (String, String)| (q.0@, q.1@))
                + binds_of(lines_from(text@, i as int)),
            malformed_of(lines_of(text@), 1) == bad@.map_values(|k: usize| k as int)
                + malformed_of(lines_from(text@, i as int), line_idx + 1),
        decreases n - i,
    {
        let ghost pairs_map0 = pairs@.map_values(|q: (String, String)| (q.0@, q.1@));
        let ghost bad_map0 = bad@.map_values(|k: usize| k as int);
        let mut p: usize = i;
        while p < n && text.get_char(p) != '\n'
            invariant
                n == text@.len(),
                i <= p <= n,
                find_char(text@, '\n', i as int) == find_char(text@, '\n', p as int),
            decreases n - p,
        {
            p += 1;
        }
        assert(find_char(text@, '\n', p as int) == p as int);
        let ghost l0 = strip_cr(text@.subrange(i as int, p as int));
        let line: &str = if p > i && text.get_char(p - 1) == '\r' {
            let shorter = text.substring_char(i, p - 1);
            proof {
                assert(text@.subrange(i as int, p as int).drop_last() =~= text@.subrange(
                    i as int,
                    p - 1,
                ));
            }
            shorter
        } else {
            text.substring_char(i, p)
        };
        proof {
            assert(line@ == l0);
            assert(lines_from(text@, i as int) == seq![l0] + lines_from(text@, p + 1));
            lemma_binds_cons(l0, lines_from(text@, p + 1));
            lemma_malformed_cons(l0, lines_from(text@, p + 1), line_idx + 1);
        }
        match parse_env_line(line) {
            ParsedLine::Skip => {},
            ParsedLine::Malformed => {
                bad.push(line_idx + 1);
                proof {
                    assert(bad@.map_values(|k: usize| k as int) =~= bad_map0 + seq![
                        line_idx + 1 as int,
                    ]);
                    assert(bad_map0 + (seq![line_idx + 1 as int] + malformed_of(
                        lines_from(text@, p + 1),
                        line_idx + 2,
                    )) =~= (bad_map0 + seq![line_idx + 1 as int]) + malformed_of(
                        lines_from(text@, p + 1),
                        line_idx + 2,
                    ));
                }
            },
            ParsedLine::Bind(k, v) => {
                let ghost kv = (k@, v@);
                pairs.push((k, v));
                proof {
                    assert(pairs@.map_values(|q: (String, String)| (q.0@, q.1@)) =~= pairs_map0
                        + seq![kv]);
                    assert(pairs_map0 + (seq![kv] + binds_of(lines_from(text@, p + 1))) =~= (
                    pairs_map0 + seq![kv]) + binds_of(lines_from(text@, p + 1)));
                }
            },
        }
        i = if p < n {
            p + 1
        } else {
            n
        };
        proof {
            assert(lines_from(text@, p + 1) == lines_from(text@, i as int));
        }
        line_idx += 1;
    }
    proof {
        assert(pairs@.map_values(|q: (String, String)| (q.0@, q.1@)) + binds_of(
            lines_from(text@, n as int),
        ) =~= pairs@.map_values(|q: (String, String)| (q.0@, q.1@)));
        assert(bad@.map_values(|k: usize| k as int) + malformed_of(
            lines_from(text@, n as int),
            line_idx + 1,
        ) =~= bad@.map_values(|k: usize| k as int));
    }
    (pairs, bad)
}

} // verus!
