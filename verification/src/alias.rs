//! Command aliases — user-defined shortcuts for command strings.

use crate::history::{line_text, text_of};
use crate::span::truncate;
use crate::table::{first_free, first_with_key, stored, NamedSlots, SlotView};
use crate::utf8text::str_from_utf8;
use vstd::prelude::*;
use vstd::string::{StringExecFns, StringSliceAdditionalSpecFns};

verus! {

/// Number of alias slots.
pub const MAX_ALIASES: usize = 16;

/// Maximum number of bytes kept of an alias name.
pub const MAX_NAME: usize = 16;

/// Maximum number of bytes kept of an alias's command.
pub const MAX_CMD: usize = 128;

/// The alias slots: up to [`MAX_ALIASES`] name/command pairs.
pub struct Aliases {
    table: NamedSlots,
}

impl Aliases {
    /// The slots, in order.
    pub closed spec fn slots(&self) -> Seq<SlotView> {
        self.table.view()
    }

    /// Creates an empty alias table.
    pub fn new() -> (r: Self)
        ensures
            r.slots() == Seq::new(MAX_ALIASES as nat, |i: int| None::<(Seq<u8>, Seq<u8>)>),
    {
        Aliases { table: NamedSlots::new(MAX_ALIASES) }
    }

    /// Defines or redefines alias `name` as `cmd`.
    ///
    /// An existing alias with exactly this name gets the new command (cut
    /// to [`MAX_CMD`] bytes); otherwise the first free slot gets the name
    /// cut to [`MAX_NAME`] bytes and the cut command. Returns `false`,
    /// changing nothing, when the name is new and all slots are taken.
    pub fn set(&mut self, name: &str, cmd: &str) -> (r: bool)
        ensures
            final(self).slots() == stored(
                old(self).slots(),
                name.spec_bytes(),
                cmd.spec_bytes(),
                MAX_NAME as nat,
                MAX_CMD as nat,
            ),
            r == (first_with_key(old(self).slots(), name.spec_bytes()) is Some || first_free(
                old(self).slots(),
            ) is Some),
    {
        self.table.set(name.as_bytes(), cmd.as_bytes(), MAX_NAME, MAX_CMD)
    }

    /// Looks up the command of alias `name`: the first slot whose name is
    /// exactly `name`; `None` when there is none or its command is not
    /// valid UTF-8.
    pub fn get(&self, name: &str) -> (r: Option<&str>)
        ensures
            match first_with_key(self.slots(), name.spec_bytes()) {
                Some(j) => text_of(r) == line_text(self.slots()[j]->Some_0.1),
                None => r is None,
            },
    {
        match self.table.find(name.as_bytes()) {
            Some(j) => {
                proof {
                    crate::table::lemma_found_in_range(self.slots(), name.spec_bytes());
                }
                str_from_utf8(self.table.value_at(j))
            },
            None => None,
        }
    }

    /// The name and command bytes held in slot `i`, if it is taken.
    pub fn slot(&self, i: usize) -> (r: Option<(&[u8], &[u8])>)
        requires
            i < self.slots().len(),
        ensures
            match r {
                Some((k, v)) => self.slots()[i as int] == Some((k@, v@)),
                None => self.slots()[i as int] is None,
            },
    {
        self.table.slot(i)
    }
}

/// The words of `args` separated by single spaces.
pub open spec fn join_words(args: Seq<Seq<char>>) -> Seq<char>
    decreases args.len(),
{
    if args.len() == 0 {
        Seq::empty()
    } else if args.len() == 1 {
        args[0]
    } else {
        join_words(args.drop_last()) + seq![' '] + args.last()
    }
}

/// Joins the arguments with single spaces.
pub fn join_args(args: &[&str]) -> (r: String)
    ensures
        r@ == join_words(crate::parser::str_views(args@)),
{
    let mut result = String::from_str("");
    proof {
        reveal_strlit("");
    }
    let mut i: usize = 0;
    while i < args.len()
        invariant
            0 <= i <= args@.len(),
            result@ == join_words(crate::parser::str_views(args@.take(i as int))),
        decreases args@.len() - i,
    {
        let ghost words = crate::parser::str_views(args@.take(i + 1));
        assert(crate::parser::str_views(args@.take(i + 1)).drop_last() =~= crate::parser::str_views(
            args@.take(i as int),
        ));
        if i > 0 {
            result.append(" ");
            proof {
                reveal_strlit(" ");
            }
        }
        result.append(args[i]);
        assert(result@ =~= join_words(words));
        i = i + 1;
    }
    assert(args@.take(args@.len() as int) =~= args@);
    result
}

/// Appends the alias arguments to an alias expansion the way the shell
/// does: one space (while fewer than 255 bytes are used) then as much of
/// the argument as fits in 255 bytes.
pub open spec fn append_arg(acc: Seq<u8>, arg: Seq<u8>) -> Seq<u8> {
    let spaced = if acc.len() < 255 {
        acc.push(32u8)
    } else {
        acc
    };
    spaced + truncate(arg, (255 - spaced.len()) as nat)
}

/// The expanded command line for an alias `exp` called with `args`.
pub open spec fn expanded_line(exp: Seq<u8>, args: Seq<Seq<u8>>) -> Seq<u8>
    decreases args.len(),
{
    if args.len() == 0 {
        exp
    } else {
        append_arg(expanded_line(exp, args.drop_last()), args.last())
    }
}

/// The byte views of a sequence of string slices.
pub open spec fn byte_views<'a>(v: Seq<&'a str>) -> Seq<Seq<u8>> {
    v.map_values(|t: &'a str| t.spec_bytes())
}

/// Builds the command line that runs alias expansion `expanded` with the
/// arguments it was called with appended (at most 255 bytes).
pub fn expand_alias_line(expanded: &str, args: &[&str]) -> (r: Vec<u8>)
    requires
        expanded.spec_bytes().len() <= 255,
    ensures
        r@ == expanded_line(expanded.spec_bytes(), byte_views(args@)),
{
    let mut full: Vec<u8> = crate::table::copy_bytes(expanded.as_bytes());
    let mut i: usize = 0;
    while i < args.len()
        invariant
            0 <= i <= args@.len(),
            full@.len() <= 255,
            full@ == expanded_line(expanded.spec_bytes(), byte_views(args@.take(i as int))),
        decreases args@.len() - i,
    {
        assert(byte_views(args@.take(i + 1)).drop_last() =~= byte_views(args@.take(i as int)));
        let ghost acc = full@;
        if full.len() < 255 {
            full.push(32);
        }
        let ab = args[i].as_bytes();
        let room = 255 - full.len();
        let alen = if ab.len() < room {
            ab.len()
        } else {
            room
        };
        let ghost spaced = full@;
        let mut k: usize = 0;
        while k < alen
            invariant
                0 <= k <= alen,
                alen <= ab@.len(),
                alen + spaced.len() <= 255,
                full@ == spaced + ab@.take(k as int),
            decreases alen - k,
        {
            full.push(ab[k]);
            assert(ab@.take(k + 1) =~= ab@.take(k as int).push(ab@[k as int]));
            k = k + 1;
        }
        assert(ab@.take(alen as int) =~= truncate(ab@, (255 - spaced.len()) as nat));
        assert(full@ =~= append_arg(acc, args@[i as int].spec_bytes()));
        i = i + 1;
    }
    assert(args@.take(args@.len() as int) =~= args@);
    full
}

/// Joining words with single spaces and splitting the result gives the
/// words back; so `parse` of `join_args` of at most
/// [`MAX_ARGS`](crate::parser::MAX_ARGS) words yields those words.
pub proof fn law_join_then_parse(ws: Seq<Seq<char>>)
    requires
        forall|i: int| 0 <= i < ws.len() ==> crate::parser::is_word(#[trigger] ws[i]),
    ensures
        crate::parser::split_ws(join_words(ws)) == ws,
        ws.len() <= crate::parser::MAX_ARGS ==> crate::parser::parsed_words(join_words(ws)) == ws,
    decreases ws.len(),
{
    if ws.len() == 0 {
    } else if ws.len() == 1 {
        crate::parser::lemma_split_append_word(Seq::empty(), ws[0]);
        assert(Seq::<char>::empty() + ws[0] =~= ws[0]);
        assert(Seq::<Seq<char>>::empty().push(ws[0]) =~= ws);
    } else {
        let prefix = ws.drop_last();
        law_join_then_parse(prefix);
        let p = join_words(prefix) + seq![' '];
        assert(p =~= join_words(prefix).push(' '));
        crate::parser::lemma_split_trailing_space(join_words(prefix), ' ');
        assert(p.last() == ' ');
        crate::parser::lemma_split_append_word(p, ws.last());
        assert(prefix.push(ws.last()) =~= ws);
    }
}

/// The arguments as the shell appends them: each after one space, in
/// order.
pub open spec fn spaced_args(args: Seq<Seq<u8>>) -> Seq<u8>
    decreases args.len(),
{
    if args.len() == 0 {
        Seq::empty()
    } else {
        spaced_args(args.drop_last()) + seq![32u8] + args.last()
    }
}

/// An alias called with arguments expands to the first 255 bytes of the
/// alias command followed, for each argument in order, by one space and
/// that argument. So when that fits in 255 bytes the expansion is exactly
/// it, and with at least one argument and room left the expansion is
/// longer than the alias command.
pub proof fn law_expansion_appends_args(exp: Seq<u8>, args: Seq<Seq<u8>>)
    requires
        exp.len() <= 255,
    ensures
        expanded_line(exp, args) == truncate(exp + spaced_args(args), 255),
        (exp + spaced_args(args)).len() <= 255 ==> expanded_line(exp, args) == exp + spaced_args(
            args,
        ),
        args.len() > 0 && exp.len() < 255 ==> expanded_line(exp, args).len() > exp.len(),
    decreases args.len(),
{
    if args.len() == 0 {
        assert(exp + spaced_args(args) =~= exp);
    } else {
        let d = args.drop_last();
        let a = args.last();
        law_expansion_appends_args(exp, d);
        let whole = exp + spaced_args(d);
        let acc = expanded_line(exp, d);
        assert(exp + spaced_args(args) =~= whole + seq![32u8] + a);
        if whole.len() >= 255 {
            assert(acc.len() == 255);
            assert(truncate(a, 0) =~= Seq::<u8>::empty());
            assert(acc + Seq::<u8>::empty() =~= acc);
            assert(truncate(whole + seq![32u8] + a, 255) =~= whole.take(255));
        } else {
            assert(acc == whole);
            let spaced = acc.push(32u8);
            assert(spaced =~= whole + seq![32u8]);
            let cut = truncate(a, (255 - spaced.len()) as nat);
            assert(spaced + cut =~= truncate(whole + seq![32u8] + a, 255));
        }
        assert(exp.len() < 255 ==> (exp + spaced_args(args)).len() > exp.len());
    }
}

} // verus!
