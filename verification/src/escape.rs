//! The escape transform: makes a resolved value safe for embedding in a JSON
//! string by replacing backslash, double quote, newline, carriage return,
//! backspace, form feed and tab with their two-character escape sequences.
//! Forward slash is deliberately not escaped, and a character introduced by
//! one replacement is never escaped again.

use vstd::prelude::*;

verus! {

/// What a single character contributes to the escaped form.
pub open spec fn escape_char(c: char) -> Seq<char> {
    if c == '\\' {
        seq!['\\', '\\']
    } else if c == '"' {
        seq!['\\', '"']
    } else if c == '\n' {
        seq!['\\', 'n']
    } else if c == '\r' {
        seq!['\\', 'r']
    } else if c == '\u{8}' {
        seq!['\\', 'b']
    } else if c == '\u{c}' {
        seq!['\\', 'f']
    } else if c == '\t' {
        seq!['\\', 't']
    } else {
        seq![c]
    }
}

/// The escaped form of a whole value.
pub open spec fn escape_seq(v: Seq<char>) -> Seq<char>
    decreases v.len(),
{
    if v.len() == 0 {
        Seq::empty()
    } else {
        escape_char(v[0]) + escape_seq(v.drop_first())
    }
}

/// Escaping distributes over concatenation; in particular the escaped form of
/// a value grows by whole per-character contributions, so no pass over the
/// input can re-escape a backslash introduced earlier.
pub proof fn lemma_escape_seq_add(x: Seq<char>, y: Seq<char>)
    ensures
        escape_seq(x + y) == escape_seq(x) + escape_seq(y),
    decreases x.len(),
{
    if x.len() == 0 {
        assert(x + y =~= y);
        assert(escape_seq(x) + escape_seq(y) =~= escape_seq(y));
    } else {
        assert((x + y).drop_first() =~= x.drop_first() + y);
        lemma_escape_seq_add(x.drop_first(), y);
        assert(escape_char(x[0]) + (escape_seq(x.drop_first()) + escape_seq(y)) =~= (escape_char(
            x[0],
        ) + escape_seq(x.drop_first())) + escape_seq(y));
    }
}

/// The escape transform, applied to resolved lookup values when escaping is
/// enabled; never applied to defaults or to placeholders kept verbatim.
pub fn escape_special_chars(orig: &str) -> (r: String)
    ensures
        r@ == escape_seq(orig@),
{
    let n = orig.unicode_len();
    let mut out = String::new();
    let mut i: usize = 0;
    while i < n
        invariant
            n == orig@.len(),
            i <= n,
            out@ == escape_seq(orig@.subrange(0, i as int)),
        decreases n - i,
    {
        proof {
            reveal_strlit("\\\\");
            reveal_strlit("\\\"");
            reveal_strlit("\\n");
            reveal_strlit("\\r");
            reveal_strlit("\\b");
            reveal_strlit("\\f");
            reveal_strlit("\\t");
        }
        let ghost prefix = orig@.subrange(0, i as int);
        let c = orig.get_char(i);
        if c == '\\' {
            out.append("\\\\");
        } else if c == '"' {
            out.append("\\\"");
        } else if c == '\n' {
            out.append("\\n");
        } else if c == '\r' {
            out.append("\\r");
        } else if c == '\u{8}' {
            out.append("\\b");
        } else if c == '\u{c}' {
            out.append("\\f");
        } else if c == '\t' {
            out.append("\\t");
        } else {
            let piece = orig.substring_char(i, i + 1);
            out.append(piece);
        }
        proof {
            let one = seq![orig@[i as int]];
            assert(escape_seq(one) =~= escape_char(orig@[i as int])) by {
                reveal_with_fuel(escape_seq, 2);
                assert(one.drop_first() =~= Seq::<char>::empty());
                assert(escape_char(one[0]) + Seq::<char>::empty() =~= escape_char(one[0]));
            }
            lemma_escape_seq_add(prefix, one);
            assert(prefix + one =~= orig@.subrange(0, i + 1));
            assert(orig@.subrange(i as int, i + 1) =~= one);
            assert(out@ =~= escape_seq(prefix) + escape_char(orig@[i as int]));
            assert(out@ == escape_seq(orig@.subrange(0, i + 1)));
        }
        i += 1;
    }
    proof {
        assert(orig@.subrange(0, n as int) =~= orig@);
    }
    out
}

} // verus!
