//! Pipes: `left | right` runs `left`, then filters its output by `right`.

use crate::numparse::{all_digits, decimal_value, parse_usize};
use crate::table::bytes_eq;
use crate::textlines::{trim, trim_ws};
use vstd::prelude::*;
use vstd::string::{StrSliceExecFns, StringSliceAdditionalSpecFns};

verus! {

/// The pipe separator ` | ` as characters.
pub open spec fn separator() -> Seq<char> {
    seq![' ', '|', ' ']
}

/// The separator starts at character `i` of `s`.
pub open spec fn separator_at(s: Seq<char>, i: int) -> bool {
    0 <= i && i + 3 <= s.len() && s.subrange(i, i + 3) == separator()
}

/// Splits `line` at its first ` | ` into the trimmed command before it and
/// the trimmed command after it; `None` when there is no separator.
pub fn split_pipe(line: &str) -> (r: Option<(&str, &str)>)
    ensures
        match r {
            Some((l, rt)) => exists|i: int|
                separator_at(line@, i) && (forall|j: int| 0 <= j < i ==> !separator_at(line@, j))
                    && l@ == trim_ws(line@.take(i)) && rt@ == trim_ws(line@.skip(i + 3)),
            None => forall|i: int| !separator_at(line@, i),
        },
{
    let n = line.unicode_len();
    if n < 3 {
        return None;
    }
    let mut i: usize = 0;
    while i <= n - 3
        invariant
            n == line@.len(),
            n >= 3,
            0 <= i <= n - 2,
            forall|j: int| 0 <= j < i ==> !separator_at(line@, j),
        decreases n - i,
    {
        if line.get_char(i) == ' ' && line.get_char(i + 1) == '|' && line.get_char(i + 2) == ' ' {
            assert(line@.subrange(i as int, i + 3) =~= separator());
            let left = trim(line.substring_char(0, i));
            let right = trim(line.substring_char(i + 3, n));
            assert(line@.subrange(0, i as int) =~= line@.take(i as int));
            assert(line@.subrange(i + 3, n as int) =~= line@.skip(i + 3));
            assert(separator_at(line@, i as int));
            return Some((left, right));
        }
        assert(!separator_at(line@, i as int)) by {
            if separator_at(line@, i as int) {
                assert(line@.subrange(i as int, i + 3)[0] == line@[i as int]);
                assert(line@.subrange(i as int, i + 3)[1] == line@[i + 1]);
                assert(line@.subrange(i as int, i + 3)[2] == line@[i + 2]);
            }
        }
        i = i + 1;
    }
    None
}

/// How the right side of a pipe treats the captured output.
#[derive(Clone, Copy, PartialEq, Eq, Structural, Debug)]
pub enum PipeFilter {
    /// Keep the first `count` lines.
    Head { count: usize },
    /// Keep the lines that contain the first argument.
    Grep,
    /// Count lines, words and bytes.
    Wc,
    /// Print the output unchanged.
    PassThrough,
}

/// The filter for right-side command `cmd` with `args`: `head` keeps 10
/// lines unless its first argument is a number, `grep` and `wc` filter,
/// anything else passes the output through.
pub open spec fn filter_for(cmd: Seq<u8>, args: Seq<Seq<u8>>) -> PipeFilter {
    if cmd == "head".spec_bytes() {
        PipeFilter::Head {
            count: if args.len() > 0 && all_digits(args[0]) && decimal_value(args[0]) <= usize::MAX {
                decimal_value(args[0]) as usize
            } else {
                10
            },
        }
    } else if cmd == "grep".spec_bytes() {
        PipeFilter::Grep
    } else if cmd == "wc".spec_bytes() {
        PipeFilter::Wc
    } else {
        PipeFilter::PassThrough
    }
}

/// Chooses the filter for the right side of a pipe.
pub fn pipe_filter(cmd: &str, args: &[&str]) -> (r: PipeFilter)
    ensures
        r == filter_for(cmd.spec_bytes(), crate::alias::byte_views(args@)),
{
    let cb = cmd.as_bytes();
    if bytes_eq(cb, "head".as_bytes()) {
        let count = if args.len() == 0 {
            10
        } else {
            match parse_usize(args[0]) {
                Some(n) => n,
                None => 10,
            }
        };
        PipeFilter::Head { count }
    } else if bytes_eq(cb, "grep".as_bytes()) {
        PipeFilter::Grep
    } else if bytes_eq(cb, "wc".as_bytes()) {
        PipeFilter::Wc
    } else {
        PipeFilter::PassThrough
    }
}

} // verus!
