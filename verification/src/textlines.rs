//! Line-oriented text processing: `lines`, `head`, `grep`, `wc`, `trim`
//! and script reading.

use crate::chars::{is_whitespace, is_ws};
use crate::parser::{split_words, split_ws, str_views};
use crate::text::{contains_bytes, contains_pattern};
use vstd::prelude::*;
use vstd::string::{StrSliceExecFns, StringSliceAdditionalSpecFns};
use vstd::utf8::encode_utf8;

verus! {

/// The pieces of `s` between `'\n'` characters (always at least one).
pub open spec fn split_nl(s: Seq<char>) -> Seq<Seq<char>>
    decreases s.len(),
{
    if s.len() == 0 {
        seq![Seq::<char>::empty()]
    } else {
        let p = split_nl(s.drop_last());
        if s.last() == '\n' {
            p.push(Seq::empty())
        } else {
            p.drop_last().push(p.last().push(s.last()))
        }
    }
}

/// A line without its trailing `'\r'`, if it has one.
pub open spec fn strip_cr(l: Seq<char>) -> Seq<char> {
    if l.len() > 0 && l.last() == '\r' {
        l.drop_last()
    } else {
        l
    }
}

/// The lines of `s` as `str::lines` gives them: the pieces ended by a line
/// feed, each without a trailing `'\r'`, then the unterminated rest when
/// it is not empty (kept as it is).
pub open spec fn lines_of(s: Seq<char>) -> Seq<Seq<char>> {
    let p = split_nl(s);
    let ended = p.drop_last().map_values(|l: Seq<char>| strip_cr(l));
    if p.last().len() == 0 {
        ended
    } else {
        ended.push(p.last())
    }
}

/// The lines of `ls` that contain the bytes `pat`.
pub open spec fn lines_containing(ls: Seq<Seq<char>>, pat: Seq<u8>) -> Seq<Seq<char>>
    decreases ls.len(),
{
    if ls.len() == 0 {
        Seq::empty()
    } else {
        let rest = lines_containing(ls.drop_last(), pat);
        if contains_bytes(encode_utf8(ls.last()), pat) {
            rest.push(ls.last())
        } else {
            rest
        }
    }
}

/// `s` without leading whitespace.
pub open spec fn trim_start(s: Seq<char>) -> Seq<char>
    decreases s.len(),
{
    if s.len() > 0 && is_ws(s[0]) {
        trim_start(s.drop_first())
    } else {
        s
    }
}

/// `s` without trailing whitespace.
pub open spec fn trim_end(s: Seq<char>) -> Seq<char>
    decreases s.len(),
{
    if s.len() > 0 && is_ws(s.last()) {
        trim_end(s.drop_last())
    } else {
        s
    }
}

/// `s` without leading and trailing whitespace.
pub open spec fn trim_ws(s: Seq<char>) -> Seq<char> {
    trim_end(trim_start(s))
}

/// The commands of a script: its lines, trimmed, except empty lines and
/// lines that start with `#`.
pub open spec fn script_lines(ls: Seq<Seq<char>>) -> Seq<Seq<char>>
    decreases ls.len(),
{
    if ls.len() == 0 {
        Seq::empty()
    } else {
        let rest = script_lines(ls.drop_last());
        let t = trim_ws(ls.last());
        if t.len() == 0 || t[0] == '#' {
            rest
        } else {
            rest.push(t)
        }
    }
}

proof fn lemma_split_nl_nonempty(s: Seq<char>)
    ensures
        split_nl(s).len() >= 1,
    decreases s.len(),
{
    if s.len() > 0 {
        lemma_split_nl_nonempty(s.drop_last());
    }
}

/// The lines of `text` (see [`lines_of`]).
pub fn lines(text: &str) -> (r: Vec<&str>)
    ensures
        str_views(r@) == lines_of(text@),
{
    let n = text.unicode_len();
    let ghost s = text@;
    let ghost mut pieces: Seq<Seq<char>> = Seq::empty();
    let mut out: Vec<&str> = Vec::new();
    let mut start: usize = 0;
    let mut i: usize = 0;
    assert(s.take(0) =~= Seq::<char>::empty());
    assert(s.subrange(0, 0) =~= Seq::<char>::empty());
    assert(str_views(out@) =~= pieces.map_values(|l: Seq<char>| strip_cr(l)));
    while i < n
        invariant
            n == s.len(),
            s == text@,
            0 <= start <= i <= n,
            split_nl(s.take(i as int)) == pieces.push(s.subrange(start as int, i as int)),
            str_views(out@) == pieces.map_values(|l: Seq<char>| strip_cr(l)),
        decreases n - i,
    {
        let c = text.get_char(i);
        assert(s.take(i + 1).drop_last() =~= s.take(i as int));
        assert(s.take(i + 1).last() == c);
        if c == '\n' {
            let ghost piece = s.subrange(start as int, i as int);
            let cr = i > start && text.get_char(i - 1) == '\r';
            let t = if cr {
                text.substring_char(start, i - 1)
            } else {
                text.substring_char(start, i)
            };
            assert(t@ == strip_cr(piece)) by {
                if cr {
                    assert(piece.drop_last() =~= s.subrange(start as int, i - 1));
                }
            }
            let ghost old_views = str_views(out@);
            let ghost old_pieces = pieces;
            out.push(t);
            proof {
                pieces = pieces.push(piece);
                assert(str_views(out@) =~= old_views.push(t@));
                assert(pieces.map_values(|l: Seq<char>| strip_cr(l)) =~= old_pieces.map_values(
                    |l: Seq<char>| strip_cr(l),
                ).push(strip_cr(piece)));
            }
            start = i + 1;
            assert(s.subrange(start as int, i + 1) =~= Seq::<char>::empty());
        } else {
            assert(s.subrange(start as int, i as int).push(c) =~= s.subrange(start as int, i + 1));
        }
        i = i + 1;
    }
    assert(s.take(n as int) =~= s);
    proof {
        lemma_split_nl_nonempty(s);
        assert(split_nl(s).drop_last() =~= pieces);
        assert(split_nl(s).last() == s.subrange(start as int, n as int));
    }
    if start < n {
        let t = text.substring_char(start, n);
        let ghost old_views = str_views(out@);
        out.push(t);
        assert(str_views(out@) =~= old_views.push(t@));
    } else {
        assert(s.subrange(start as int, n as int).len() == 0);
    }
    assert(str_views(out@) =~= lines_of(s));
    out
}

/// The first `n` lines of `text` (`head`).
pub fn head_lines(text: &str, n: usize) -> (r: Vec<&str>)
    ensures
        n <= lines_of(text@).len() ==> str_views(r@) == lines_of(text@).take(n as int),
        n > lines_of(text@).len() ==> str_views(r@) == lines_of(text@),
{
    let mut ls = lines(text);
    if ls.len() > n {
        ls.truncate(n);
        assert(str_views(ls@) =~= lines_of(text@).take(n as int));
    }
    ls
}

/// The lines of `text` that contain `pattern` (`grep`).
pub fn grep_lines<'a>(text: &'a str, pattern: &str) -> (r: Vec<&'a str>)
    ensures
        str_views(r@) == lines_containing(lines_of(text@), pattern.spec_bytes()),
{
    let ls = lines(text);
    let mut out: Vec<&str> = Vec::new();
    let mut i: usize = 0;
    while i < ls.len()
        invariant
            0 <= i <= ls@.len(),
            str_views(ls@) == lines_of(text@),
            str_views(out@) == lines_containing(str_views(ls@).take(i as int), pattern.spec_bytes()),
        decreases ls@.len() - i,
    {
        assert(str_views(ls@).take(i + 1).drop_last() =~= str_views(ls@).take(i as int));
        assert(str_views(ls@).take(i + 1).last() == ls@[i as int]@);
        if contains_pattern(ls[i], pattern) {
            out.push(ls[i]);
            assert(str_views(out@) =~= lines_containing(
                str_views(ls@).take(i + 1),
                pattern.spec_bytes(),
            ));
        }
        i = i + 1;
    }
    assert(str_views(ls@).take(ls@.len() as int) =~= str_views(ls@));
    out
}

/// `(lines, words, bytes)` of `text` (`wc`).
pub fn word_count(text: &str) -> (r: (usize, usize, usize))
    ensures
        r.0 == lines_of(text@).len(),
        r.1 == split_ws(text@).len(),
        r.2 == text.spec_bytes().len(),
{
    let ls = lines(text);
    let ws = split_words(text);
    (ls.len(), ws.len(), text.as_bytes().len())
}

/// `s` without leading and trailing whitespace.
pub fn trim(s: &str) -> (r: &str)
    ensures
        r@ == trim_ws(s@),
{
    let n = s.unicode_len();
    let mut a: usize = 0;
    assert(s@.skip(0) =~= s@);
    while a < n && is_whitespace(s.get_char(a))
        invariant
            n == s@.len(),
            0 <= a <= n,
            trim_start(s@) == trim_start(s@.skip(a as int)),
        decreases n - a,
    {
        assert(s@.skip(a as int).drop_first() =~= s@.skip(a + 1));
        a = a + 1;
    }
    assert(trim_start(s@) =~= s@.skip(a as int)) by {
        if a < n {
            assert(s@.skip(a as int)[0] == s@[a as int]);
        }
    }
    let mut b: usize = n;
    while b > a && is_whitespace(s.get_char(b - 1))
        invariant
            n == s@.len(),
            a <= b <= n,
            trim_ws(s@) == trim_end(s@.subrange(a as int, b as int)),
            trim_start(s@) == s@.skip(a as int),
        decreases b,
    {
        assert(s@.subrange(a as int, b as int).drop_last() =~= s@.subrange(a as int, b - 1));
        b = b - 1;
    }
    assert(trim_ws(s@) =~= s@.subrange(a as int, b as int)) by {
        if b > a {
            assert(s@.subrange(a as int, b as int).last() == s@[b - 1]);
        }
    }
    s.substring_char(a, b)
}

/// The commands of a script file: trimmed lines that are neither empty
/// nor comments (starting with `#`).
pub fn script_commands(content: &str) -> (r: Vec<&str>)
    ensures
        str_views(r@) == script_lines(lines_of(content@)),
{
    let ls = lines(content);
    let mut out: Vec<&str> = Vec::new();
    let mut i: usize = 0;
    while i < ls.len()
        invariant
            0 <= i <= ls@.len(),
            str_views(ls@) == lines_of(content@),
            str_views(out@) == script_lines(str_views(ls@).take(i as int)),
        decreases ls@.len() - i,
    {
        assert(str_views(ls@).take(i + 1).drop_last() =~= str_views(ls@).take(i as int));
        assert(str_views(ls@).take(i + 1).last() == ls@[i as int]@);
        let t = trim(ls[i]);
        let tl = t.unicode_len();
        if tl > 0 && t.get_char(0) != '#' {
            out.push(t);
            assert(str_views(out@) =~= script_lines(str_views(ls@).take(i + 1)));
        }
        i = i + 1;
    }
    assert(str_views(ls@).take(ls@.len() as int) =~= str_views(ls@));
    out
}

/// A script's commands are read line by line: the commands of two
/// pieces of text one after the other are the commands of the first
/// followed by those of the second; a line whose trimmed text is not empty
/// and does not start with `#` is kept as that trimmed text whatever
/// follows its first character; an empty or `#`-led line gives nothing.
pub proof fn law_script_lines_by_line(a: Seq<Seq<char>>, b: Seq<Seq<char>>, l: Seq<char>)
    ensures
        script_lines(a + b) == script_lines(a) + script_lines(b),
        trim_ws(l).len() > 0 && trim_ws(l)[0] != '#' ==> script_lines(seq![l]) == seq![trim_ws(l)],
        trim_ws(l).len() == 0 || trim_ws(l)[0] == '#' ==> script_lines(seq![l]) == Seq::<
            Seq<char>,
        >::empty(),
    decreases b.len(),
{
    let one = seq![l];
    assert(one.drop_last() =~= Seq::<Seq<char>>::empty());
    assert(one.last() == l);
    assert(script_lines(one.drop_last()) =~= Seq::<Seq<char>>::empty());
    assert(Seq::<Seq<char>>::empty().push(trim_ws(l)) =~= seq![trim_ws(l)]);
    if b.len() == 0 {
        assert(a + b =~= a);
        assert(script_lines(a) + Seq::<Seq<char>>::empty() =~= script_lines(a));
    } else {
        law_script_lines_by_line(a, b.drop_last(), l);
        assert((a + b).drop_last() =~= a + b.drop_last());
        assert((a + b).last() == b.last());
        let t = trim_ws(b.last());
        if !(t.len() == 0 || t[0] == '#') {
            assert(script_lines(a) + script_lines(b.drop_last()).push(t) =~= (script_lines(a)
                + script_lines(b.drop_last())).push(t));
        }
    }
}

} // verus!
