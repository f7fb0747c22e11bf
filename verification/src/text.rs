//! Text helpers behind `head`, `grep` and `wc`.

use crate::numparse::{all_digits, decimal_value};
use vstd::prelude::*;
use vstd::string::StringSliceAdditionalSpecFns;

verus! {

/// `needle` occurs in `hay` starting at byte offset `i`.
pub open spec fn occurs_at(hay: Seq<u8>, needle: Seq<u8>, i: int) -> bool {
    0 <= i && i + needle.len() <= hay.len() && hay.subrange(i, i + needle.len()) == needle
}

/// `needle` occurs somewhere in `hay` (the empty needle occurs everywhere).
pub open spec fn contains_bytes(hay: Seq<u8>, needle: Seq<u8>) -> bool {
    exists|i: int| occurs_at(hay, needle, i)
}

/// Compares `needle` with the bytes of `hay` that start at `i`.
fn matches_at(hay: &[u8], needle: &[u8], i: usize) -> (r: bool)
    requires
        i + needle@.len() <= hay@.len(),
    ensures
        r == occurs_at(hay@, needle@, i as int),
{
    let hl = hay.len();
    let mut k: usize = 0;
    while k < needle.len()
        invariant
            hl == hay@.len(),
            i + needle@.len() <= hay@.len(),
            0 <= k <= needle@.len(),
            forall|j: int| 0 <= j < k ==> hay@[i + j] == needle@[j],
        decreases needle@.len() - k,
    {
        if hay[i + k] != needle[k] {
            assert(hay@.subrange(i as int, i + needle@.len())[k as int] != needle@[k as int]);
            return false;
        }
        k = k + 1;
    }
    assert(hay@.subrange(i as int, i + needle@.len()) =~= needle@);
    true
}

/// Simple substring search (case-sensitive), byte by byte.
pub fn contains_pattern(haystack: &str, needle: &str) -> (r: bool)
    ensures
        r == contains_bytes(haystack.spec_bytes(), needle.spec_bytes()),
{
    let h = haystack.as_bytes();
    let n = needle.as_bytes();
    if n.len() == 0 {
        assert(occurs_at(h@, n@, 0)) by {
            assert(h@.subrange(0, 0) =~= n@);
        }
        return true;
    }
    if n.len() > h.len() {
        return false;
    }
    let hl = h.len();
    let last = hl - n.len();
    let mut i: usize = 0;
    while i <= last
        invariant
            h@ == haystack.spec_bytes(),
            n@ == needle.spec_bytes(),
            last == h@.len() - n@.len(),
            1 <= n@.len() <= h@.len(),
            h@.len() <= usize::MAX,
            0 <= i <= last + 1,
            forall|j: int| 0 <= j < i ==> !occurs_at(h@, n@, j),
        decreases last + 1 - i,
    {
        if matches_at(h, n, i) {
            return true;
        }
        i = i + 1;
    }
    assert forall|j: int| !occurs_at(h@, n@, j) by {
        if 0 <= j < i {
        }
    }
    false
}

/// Splits `head` arguments into the line count (default 10) and the path.
///
/// With no arguments the path is empty; with one it is the path; with two
/// or more the first is the count (10 if it does not parse) and the second
/// the path.
pub fn parse_head_args<'a>(args: &[&'a str]) -> (r: (usize, &'a str))
    ensures
        args@.len() == 0 ==> r.0 == 10 && r.1@ == Seq::<char>::empty(),
        args@.len() == 1 ==> r.0 == 10 && r.1 == args@[0],
        args@.len() >= 2 ==> r.1 == args@[1] && (if all_digits(args@[0].spec_bytes())
            && decimal_value(args@[0].spec_bytes()) <= usize::MAX {
            r.0 == decimal_value(args@[0].spec_bytes())
        } else {
            r.0 == 10
        }),
{
    if args.len() == 0 {
        proof {
            reveal_strlit("");
        }
        (10, "")
    } else if args.len() == 1 {
        (10, args[0])
    } else {
        let n = match crate::numparse::parse_usize(args[0]) {
            Some(v) => v,
            None => 10,
        };
        (n, args[1])
    }
}

} // verus!
