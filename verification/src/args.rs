//! Normalisation of the raw argument vector: a lone trailing `-`, given
//! without any file flag, is shorthand for reading the standard input and is
//! rewritten to `-f -` before the arguments are parsed.

use vstd::prelude::*;

use crate::text::{starts_with, str_eq, str_starts_with};

verus! {

/// The short file flag, `-f`.
pub open spec fn short_file_flag() -> Seq<char> {
    seq!['-', 'f']
}

/// The long file flag, `--file`.
pub open spec fn long_file_flag() -> Seq<char> {
    seq!['-', '-', 'f', 'i', 'l', 'e']
}

/// The long file flag with an inline value, `--file=`.
pub open spec fn long_file_flag_eq() -> Seq<char> {
    seq!['-', '-', 'f', 'i', 'l', 'e', '=']
}

/// A lone dash, naming the standard input.
pub open spec fn dash() -> Seq<char> {
    seq!['-']
}

/// Whether the argument names the input file explicitly.
pub open spec fn is_file_flag(a: Seq<char>) -> bool {
    a == short_file_flag() || a == long_file_flag() || starts_with(a, long_file_flag_eq())
}

/// Whether any argument after the program name is a file flag.
pub open spec fn has_file_flag(args: Seq<Seq<char>>) -> bool {
    exists|i: int| 1 <= i < args.len() && is_file_flag(#[trigger] args[i])
}

/// The normalised argument vector: unchanged, unless no file flag is present
/// and the last argument is a lone `-`, in which case `-f` is inserted before
/// it.
pub open spec fn normalized_args(args: Seq<Seq<char>>) -> Seq<Seq<char>> {
    if args.len() <= 1 {
        args
    } else if has_file_flag(args) {
        args
    } else if args.last() == dash() {
        args.drop_last() + seq![short_file_flag(), dash()]
    } else {
        args
    }
}

/// Rewrites a trailing `-` given without a file flag into `-f -`; any other
/// argument vector is returned unchanged.
pub fn normalize_args(raw_args: Vec<String>) -> (r: Vec<String>)
    ensures
        r.deep_view() == normalized_args(raw_args.deep_view()),
{
    let len = raw_args.len();
    if len <= 1 {
        return raw_args;
    }
    let mut has: bool = false;
    let mut i: usize = 1;
    while i < len
        invariant
            len == raw_args@.len(),
            1 <= i <= len,
            has == exists|k: int|
                1 <= k < i && is_file_flag(#[trigger] raw_args.deep_view()[k]),
        decreases len - i,
    {
        proof {
            reveal_strlit("-f");
            reveal_strlit("--file");
            reveal_strlit("--file=");
            assert("-f"@ =~= short_file_flag());
            assert("--file"@ =~= long_file_flag());
            assert("--file="@ =~= long_file_flag_eq());
        }
        let a = &raw_args[i];
        if str_eq(a.as_str(), "-f") || str_eq(a.as_str(), "--file") || str_starts_with(
            a.as_str(),
            "--file=",
        ) {
            has = true;
            assert(is_file_flag(raw_args.deep_view()[i as int]));
        }
        i += 1;
    }
    if has {
        return raw_args;
    }
    assert(!has_file_flag(raw_args.deep_view()));
    proof {
        reveal_strlit("-");
        assert("-"@ =~= dash());
    }
    let last = &raw_args[len - 1];
    if str_eq(last.as_str(), "-") {
        let mut v: Vec<String> = Vec::new();
        let mut j: usize = 0;
        while j < len - 1
            invariant
                len == raw_args@.len(),
                1 <= len,
                j <= len - 1,
                v.deep_view() == raw_args.deep_view().take(j as int),
            decreases len - j,
        {
            let ghost prev = v.deep_view();
            v.push(raw_args[j].clone());
            proof {
                assert(v.deep_view() =~= prev.push(raw_args.deep_view()[j as int]));
                assert(raw_args.deep_view().take(j as int).push(
                    raw_args.deep_view()[j as int],
                ) =~= raw_args.deep_view().take(j + 1));
            }
            j += 1;
        }
        let ghost before = v.deep_view();
        v.push(String::from_str("-f"));
        v.push(raw_args[len - 1].clone());
        proof {
            reveal_strlit("-f");
            assert("-f"@ =~= short_file_flag());
            assert(raw_args.deep_view().take(len - 1) =~= raw_args.deep_view().drop_last());
            assert(raw_args.deep_view().last() == dash());
            assert(v.deep_view() =~= before.push(short_file_flag()).push(dash()));
            assert(v.deep_view() =~= raw_args.deep_view().drop_last() + seq![
                short_file_flag(),
                dash(),
            ]);
        }
        v
    } else {
        assert(raw_args.deep_view().last() != dash());
        raw_args
    }
}

} // verus!
