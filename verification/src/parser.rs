//! Command-line splitting: a line becomes a command name and its arguments.
//!
//! Tokens are maximal runs of non-whitespace characters; at most
//! [`MAX_ARGS`] of them are kept (the command name counts as one).

use crate::chars::{is_whitespace, is_ws};
use vstd::prelude::*;
use vstd::slice::slice_subrange;
use vstd::string::StrSliceExecFns;

verus! {

/// Maximum number of tokens kept (including the command name).
pub const MAX_ARGS: usize = 16;

/// The whitespace-separated words of `s`, in order.
///
/// Defined by reading `s` from left to right: a whitespace character ends
/// the current word, a non-whitespace character either extends the word
/// that the previous character belongs to or starts a new one.
pub open spec fn split_ws(s: Seq<char>) -> Seq<Seq<char>>
    decreases s.len(),
{
    if s.len() == 0 {
        Seq::empty()
    } else {
        let prev = split_ws(s.drop_last());
        let c = s.last();
        if is_ws(c) {
            prev
        } else if s.len() > 1 && !is_ws(s[s.len() - 2]) {
            prev.drop_last().push(prev.last().push(c))
        } else {
            prev.push(seq![c])
        }
    }
}

/// The words that [`parse`] keeps: the first [`MAX_ARGS`] words of the line.
pub open spec fn parsed_words(s: Seq<char>) -> Seq<Seq<char>> {
    let w = split_ws(s);
    if w.len() <= MAX_ARGS {
        w
    } else {
        w.take(MAX_ARGS as int)
    }
}

/// The views of a sequence of string slices.
pub open spec fn str_views<'a>(v: Seq<&'a str>) -> Seq<Seq<char>> {
    v.map_values(|t: &'a str| t@)
}

/// Parsed command: the command name and its arguments.
pub struct ParsedCommand<'a> {
    tokens: Vec<&'a str>,
}

impl<'a> ParsedCommand<'a> {
    /// The words of the parsed line, command name first.
    pub closed spec fn words(&self) -> Seq<Seq<char>> {
        str_views(self.tokens@)
    }

    /// Returns the command name, or an empty string if no input.
    pub fn command(&self) -> (r: &'a str)
        ensures
            self.words().len() > 0 ==> r@ == self.words()[0],
            self.words().len() == 0 ==> r@ == Seq::<char>::empty(),
    {
        if self.tokens.len() > 0 {
            self.tokens[0]
        } else {
            proof {
                reveal_strlit("");
            }
            ""
        }
    }

    /// Returns the argument slice (excluding the command name).
    pub fn args(&self) -> (r: &[&'a str])
        ensures
            self.words().len() > 1 ==> str_views(r@) == self.words().subrange(
                1,
                self.words().len() as int,
            ),
            self.words().len() <= 1 ==> r@.len() == 0,
    {
        if self.tokens.len() > 1 {
            let r = slice_subrange(self.tokens.as_slice(), 1, self.tokens.len());
            assert(str_views(r@) =~= self.words().subrange(1, self.words().len() as int));
            r
        } else {
            slice_subrange(self.tokens.as_slice(), 0, 0)
        }
    }

    /// Returns `true` if the input line was empty.
    pub fn is_empty(&self) -> (r: bool)
        ensures
            r == (self.words().len() == 0),
    {
        self.tokens.len() == 0
    }
}

/// The whitespace-separated words of `line`, in order.
pub fn split_words(line: &str) -> (r: Vec<&str>)
    ensures
        str_views(r@) == split_ws(line@),
{
    let n = line.unicode_len();
    let ghost s = line@;
    let mut toks: Vec<&str> = Vec::new();
    let mut in_tok = false;
    let mut start: usize = 0;
    let mut i: usize = 0;
    while i < n
        invariant
            n == s.len(),
            s == line@,
            0 <= i <= n,
            in_tok ==> start < i,
            in_tok ==> !is_ws(s[i - 1]),
            !in_tok ==> (i == 0 || is_ws(s[i - 1])),
            in_tok ==> str_views(toks@).push(s.subrange(start as int, i as int)) == split_ws(
                s.take(i as int),
            ),
            !in_tok ==> str_views(toks@) == split_ws(s.take(i as int)),
        decreases n - i,
    {
        let c = line.get_char(i);
        let ghost pre = s.take(i as int);
        assert(s.take(i + 1).drop_last() =~= pre);
        assert(s.take(i + 1).last() == c);
        if is_whitespace(c) {
            if in_tok {
                let t = line.substring_char(start, i);
                toks.push(t);
                in_tok = false;
                assert(str_views(toks@) =~= split_ws(s.take(i + 1)));
            }
        } else {
            if in_tok {
                assert(s.take(i + 1)[i - 1] == s[i - 1]);
                assert(s.subrange(start as int, i as int).push(c) =~= s.subrange(
                    start as int,
                    i + 1,
                ));
            } else {
                start = i;
                in_tok = true;
                if i > 0 {
                    assert(s.take(i + 1)[i - 1] == s[i - 1]);
                }
                assert(s.subrange(start as int, i + 1) =~= seq![c]);
            }
            assert(str_views(toks@).push(s.subrange(start as int, i + 1)) =~= split_ws(
                s.take(i + 1),
            ));
        }
        i = i + 1;
    }
    if in_tok {
        let t = line.substring_char(start, n);
        toks.push(t);
    }
    assert(s.take(n as int) =~= s);
    assert(str_views(toks@) =~= split_ws(s));
    toks
}

/// Splits a line by whitespace into command + arguments.
pub fn parse(line: &str) -> (r: ParsedCommand<'_>)
    ensures
        r.words() == parsed_words(line@),
{
    let mut toks = split_words(line);
    if toks.len() > MAX_ARGS {
        toks.truncate(MAX_ARGS);
        assert(str_views(toks@) =~= split_ws(line@).take(MAX_ARGS as int));
    }
    ParsedCommand { tokens: toks }
}

/// `w` is a possible word: non-empty, with no whitespace in it.
pub open spec fn is_word(w: Seq<char>) -> bool {
    w.len() > 0 && forall|i: int| 0 <= i < w.len() ==> !is_ws(#[trigger] w[i])
}

/// Every word that splitting yields is non-empty and free of whitespace,
/// and a line that ends in a non-whitespace character has a last word.
pub proof fn law_words_are_words(s: Seq<char>)
    ensures
        forall|i: int| 0 <= i < split_ws(s).len() ==> is_word(#[trigger] split_ws(s)[i]),
        s.len() > 0 && !is_ws(s.last()) ==> split_ws(s).len() > 0,
    decreases s.len(),
{
    if s.len() > 0 {
        let prev = split_ws(s.drop_last());
        law_words_are_words(s.drop_last());
        let c = s.last();
        if !is_ws(c) {
            if s.len() > 1 && !is_ws(s[s.len() - 2]) {
                assert(s.drop_last().last() == s[s.len() - 2]);
                let w = prev.last().push(c);
                assert(is_word(prev[prev.len() - 1]));
                assert(is_word(w)) by {
                    assert forall|i: int| 0 <= i < w.len() implies !is_ws(#[trigger] w[i]) by {
                        if i < w.len() - 1 {
                            assert(w[i] == prev.last()[i]);
                        }
                    }
                }
                let r = prev.drop_last().push(w);
                assert forall|i: int| 0 <= i < r.len() implies is_word(#[trigger] r[i]) by {
                    if i < r.len() - 1 {
                        assert(r[i] == prev[i]);
                    }
                }
            } else {
                let r = prev.push(seq![c]);
                assert(is_word(seq![c]));
                assert forall|i: int| 0 <= i < r.len() implies is_word(#[trigger] r[i]) by {
                    if i < r.len() - 1 {
                        assert(r[i] == prev[i]);
                    }
                }
            }
        }
    }
}

/// Appending whitespace adds no word.
pub proof fn lemma_split_trailing_space(p: Seq<char>, c: char)
    requires
        is_ws(c),
    ensures
        split_ws(p.push(c)) == split_ws(p),
{
    assert(p.push(c).drop_last() =~= p);
}

/// Appending a word after whitespace (or at the start) adds exactly that
/// word.
pub proof fn lemma_split_append_word(p: Seq<char>, w: Seq<char>)
    requires
        is_word(w),
        p.len() == 0 || is_ws(p.last()),
    ensures
        split_ws(p + w) == split_ws(p).push(w),
    decreases w.len(),
{
    let s = p + w;
    let c = w.last();
    if w.len() == 1 {
        assert(s.drop_last() =~= p);
        assert(w =~= seq![c]);
        if s.len() > 1 {
            assert(s[s.len() - 2] == p.last());
        }
    } else {
        let v = w.drop_last();
        assert(is_word(v)) by {
            assert forall|i: int| 0 <= i < v.len() implies !is_ws(#[trigger] v[i]) by {
                assert(v[i] == w[i]);
            }
        }
        lemma_split_append_word(p, v);
        assert(s.drop_last() =~= p + v);
        assert(s[s.len() - 2] == w[w.len() - 2]);
        assert(v.push(c) =~= w);
        assert(split_ws(p).push(v).drop_last() =~= split_ws(p));
    }
}

} // verus!
