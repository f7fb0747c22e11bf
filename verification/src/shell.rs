//! The shell's per-line decisions: line editing keys, submitting a line
//! (with `!!` recall and history), and splitting a pipe.

use crate::commands::{command_table, find_completion, names_with_prefix};
use crate::history::{push_recent, History, MAX_ENTRY};
use crate::input::{shown_text, LineBuffer, MAX_LINE_LEN};
use crate::span::truncate;
use crate::table::{bytes_eq, copy_bytes};
use crate::text::{contains_bytes, contains_pattern};
use crate::utf8text::str_from_utf8;
use vstd::prelude::*;
use vstd::string::StringSliceAdditionalSpecFns;

verus! {

/// What the console shows after a key.
#[derive(Clone, Copy, Debug)]
pub enum KeyAction {
    /// Enter: the line is complete.
    Submit,
    /// One character was erased (echo backspace, space, backspace).
    Erase,
    /// Tab completed the line: `erased` characters were erased and the
    /// bytes of `name` typed.
    Complete { erased: usize, name: &'static str },
    /// A printable byte was typed (echoed even when the line is full).
    Insert { byte: u8 },
    /// Nothing happens.
    Ignore,
}

/// The line after typing `b` (a full line drops it).
pub open spec fn typed(line: Seq<u8>, b: u8) -> Seq<u8> {
    if line.len() < MAX_LINE_LEN - 1 {
        line.push(b)
    } else {
        line
    }
}

/// Applies one input byte to the line being edited.
///
/// Enter (LF or CR) submits; backspace or delete erases one byte of a
/// non-empty line; tab replaces a non-empty line by the unique command
/// name it starts (if exactly one does); any other byte from space upward
/// (delete included, on an empty line) is typed; the rest is ignored.
pub fn handle_key(buf: &mut LineBuffer, ch: u8) -> (r: KeyAction)
    requires
        old(buf).wf(),
    ensures
        final(buf).wf(),
        ({
            let line = old(buf).bytes();
            let prefix = shown_text(line);
            let m = names_with_prefix(command_table(), prefix);
            if ch == 10 || ch == 13 {
                r == KeyAction::Submit && final(buf).bytes() == line
            } else if (ch == 8 || ch == 127) && line.len() > 0 {
                r == KeyAction::Erase && final(buf).bytes() == line.drop_last()
            } else if ch == 9 {
                if prefix.len() > 0 && m.len() == 1 {
                    r == KeyAction::Complete { erased: line.len() as usize, name: m[0] }
                        && final(buf).bytes() == truncate(m[0].spec_bytes(), (MAX_LINE_LEN - 1) as nat)
                } else {
                    r == KeyAction::Ignore && final(buf).bytes() == line
                }
            } else if ch >= 32 {
                r == KeyAction::Insert { byte: ch } && final(buf).bytes() == typed(line, ch)
            } else {
                r == KeyAction::Ignore && final(buf).bytes() == line
            }
        }),
{
    if ch == 10 || ch == 13 {
        return KeyAction::Submit;
    }
    if (ch == 8 || ch == 127) && !buf.is_empty() {
        buf.backspace();
        return KeyAction::Erase;
    }
    if ch == 9 {
        let prefix = buf.as_str();
        let pb = prefix.as_bytes();
        if pb.len() == 0 {
            return KeyAction::Ignore;
        }
        match find_completion(prefix) {
            Some(name) => {
                let ghost line = buf.bytes();
                proof {
                    buf.lemma_len_bound();
                }
                let mut erased: usize = 0;
                while !buf.is_empty()
                    invariant
                        buf.wf(),
                        line.len() < MAX_LINE_LEN,
                        erased + buf.bytes().len() == line.len(),
                        buf.bytes() == line.take(buf.bytes().len() as int),
                    decreases buf.bytes().len(),
                {
                    buf.backspace();
                    erased = erased + 1;
                }
                let nb = name.as_bytes();
                let mut i: usize = 0;
                while i < nb.len()
                    invariant
                        buf.wf(),
                        0 <= i <= nb@.len(),
                        buf.bytes() == truncate(nb@.take(i as int), (MAX_LINE_LEN - 1) as nat),
                    decreases nb@.len() - i,
                {
                    buf.push(nb[i]);
                    assert(nb@.take(i + 1) =~= nb@.take(i as int).push(nb@[i as int]));
                    assert(buf.bytes() =~= truncate(nb@.take(i + 1), (MAX_LINE_LEN - 1) as nat));
                    i = i + 1;
                }
                assert(nb@.take(nb@.len() as int) =~= nb@);
                return KeyAction::Complete { erased, name };
            },
            None => {
                return KeyAction::Ignore;
            },
        }
    }
    if ch >= 32 {
        buf.push(ch);
        return KeyAction::Insert { byte: ch };
    }
    KeyAction::Ignore
}

/// What the shell does with a submitted line.
#[derive(Clone, Copy, PartialEq, Eq, Structural, Debug)]
pub enum Submission {
    /// The line is empty: prompt again.
    Skip,
    /// `!!` with no earlier command: say so and prompt again.
    NoPrevious,
    /// Run the line now in the line buffer; `recalled` when it came from
    /// `!!` (echo it), `pipe` when it contains ` | `.
    Run { recalled: bool, pipe: bool },
}

/// The shell's memory between lines: the last command and the history.
pub struct ShellSession {
    last_cmd: Vec<u8>,
    history: History,
}

impl ShellSession {
    /// Well-formedness of the history and the last-command limit.
    pub closed spec fn wf(&self) -> bool {
        self.history.wf() && self.last_cmd@.len() <= MAX_ENTRY
    }

    /// The last command run (empty before the first).
    pub closed spec fn last(&self) -> Seq<u8> {
        self.last_cmd@
    }

    /// The lines in the history, oldest first.
    pub closed spec fn history_lines(&self) -> Seq<Seq<u8>> {
        self.history.lines()
    }

    /// A session with no command run yet.
    pub fn new() -> (r: Self)
        ensures
            r.wf(),
            r.last() == Seq::<u8>::empty(),
            r.history_lines() == Seq::<Seq<u8>>::empty(),
    {
        ShellSession { last_cmd: Vec::new(), history: History::new() }
    }

    /// The history, for listing.
    pub fn history(&self) -> (r: &History)
        ensures
            r.lines() == self.history_lines(),
            self.wf() ==> r.wf(),
    {
        &self.history
    }

    /// Accepts the line in `buf`.
    ///
    /// An empty line is skipped. `!!` is replaced in `buf` by the last
    /// command (or reported when there is none). The line to run becomes
    /// the last command and is added to the history.
    pub fn submit(&mut self, buf: &mut LineBuffer) -> (r: Submission)
        requires
            old(self).wf(),
            old(buf).wf(),
        ensures
            final(self).wf(),
            final(buf).wf(),
            ({
                let text = shown_text(old(buf).bytes());
                let recall = text == "!!".spec_bytes();
                if text.len() == 0 {
                    r == Submission::Skip && final(buf).bytes() == old(buf).bytes()
                        && *final(self) == *old(self)
                } else if recall && old(self).last().len() == 0 {
                    r == Submission::NoPrevious && final(buf).bytes() == old(buf).bytes()
                        && *final(self) == *old(self)
                } else {
                    let line = if recall {
                        truncate(shown_text(old(self).last()), (MAX_LINE_LEN - 1) as nat)
                    } else {
                        old(buf).bytes()
                    };
                    let ran = shown_text(line);
                    &&& final(buf).bytes() == line
                    &&& final(self).last() == ran
                    &&& final(self).history_lines() == push_recent(
                        old(self).history_lines(),
                        ran,
                    )
                    &&& r == Submission::Run {
                        recalled: recall,
                        pipe: contains_bytes(ran, " | ".spec_bytes()),
                    }
                }
            }),
    {
        let text = buf.as_str();
        if text.as_bytes().len() == 0 {
            return Submission::Skip;
        }
        let recall = bytes_eq(text.as_bytes(), "!!".as_bytes());
        if recall {
            if self.last_cmd.len() == 0 {
                return Submission::NoPrevious;
            }
            let recalled: &str = match str_from_utf8(self.last_cmd.as_slice()) {
                Some(s) => s,
                None => {
                    proof {
                        reveal_strlit("");
                    }
                    ""
                },
            };
            assert(recalled.spec_bytes() == shown_text(self.last_cmd@));
            buf.clear();
            let rb = recalled.as_bytes();
            let mut i: usize = 0;
            while i < rb.len()
                invariant
                    buf.wf(),
                    0 <= i <= rb@.len(),
                    buf.bytes() == truncate(rb@.take(i as int), (MAX_LINE_LEN - 1) as nat),
                decreases rb@.len() - i,
            {
                buf.push(rb[i]);
                assert(rb@.take(i + 1) =~= rb@.take(i as int).push(rb@[i as int]));
                assert(buf.bytes() =~= truncate(rb@.take(i + 1), (MAX_LINE_LEN - 1) as nat));
                i = i + 1;
            }
            assert(rb@.take(rb@.len() as int) =~= rb@);
        }
        let line = buf.as_str();
        let lb = line.as_bytes();
        self.last_cmd = copy_bytes(lb);
        self.history.push(line);
        assert(truncate(line.spec_bytes(), MAX_ENTRY as nat) == line.spec_bytes());
        let pipe = contains_pattern(line, " | ");
        Submission::Run { recalled: recall, pipe }
    }
}

} // verus!
