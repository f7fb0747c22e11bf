//! Line input buffer for the interactive shell.

use crate::utf8text::str_from_utf8;
use vstd::prelude::*;
use vstd::slice::slice_subrange;
use vstd::string::StringSliceAdditionalSpecFns;
use vstd::utf8::valid_utf8;

verus! {

/// Maximum number of bytes in a single input line buffer (one byte of it
/// is never filled, so a line holds at most `MAX_LINE_LEN - 1` bytes).
pub const MAX_LINE_LEN: usize = 256;

/// The text a line shows: its bytes when they are valid UTF-8, else
/// nothing.
pub open spec fn shown_text(b: Seq<u8>) -> Seq<u8> {
    if valid_utf8(b) {
        b
    } else {
        Seq::empty()
    }
}

/// Fixed-size buffer holding the current input line.
pub struct LineBuffer {
    buf: [u8; 256],
    len: usize,
}

impl LineBuffer {
    /// Well-formedness: the line leaves the last byte of the buffer unused.
    pub closed spec fn wf(&self) -> bool {
        self.len < MAX_LINE_LEN
    }

    /// The bytes typed so far.
    pub closed spec fn bytes(&self) -> Seq<u8> {
        self.buf@.take(self.len as int)
    }

    /// A well-formed line holds fewer than [`MAX_LINE_LEN`] bytes.
    pub proof fn lemma_len_bound(&self)
        requires
            self.wf(),
        ensures
            self.bytes().len() < MAX_LINE_LEN,
    {
    }

    /// Creates an empty line buffer.
    pub fn new() -> (r: Self)
        ensures
            r.wf(),
            r.bytes() == Seq::<u8>::empty(),
    {
        let r = Self { buf: [0; 256], len: 0 };
        assert(r.bytes() =~= Seq::<u8>::empty());
        r
    }

    /// Appends a byte if space remains (at most `MAX_LINE_LEN - 1` bytes are
    /// kept); otherwise the byte is dropped.
    pub fn push(&mut self, byte: u8)
        requires
            old(self).wf(),
        ensures
            final(self).wf(),
            old(self).bytes().len() < MAX_LINE_LEN - 1 ==> final(self).bytes() == old(
                self,
            ).bytes().push(byte),
            old(self).bytes().len() >= MAX_LINE_LEN - 1 ==> final(self).bytes() == old(
                self,
            ).bytes(),
    {
        if self.len >= MAX_LINE_LEN - 1 {
            return;
        }
        let ghost before = self.bytes();
        self.buf[self.len] = byte;
        self.len = self.len + 1;
        assert(self.bytes() =~= before.push(byte));
    }

    /// Removes the last byte (backspace behaviour).
    pub fn backspace(&mut self)
        requires
            old(self).wf(),
        ensures
            final(self).wf(),
            old(self).bytes().len() > 0 ==> final(self).bytes() == old(self).bytes().drop_last(),
            old(self).bytes().len() == 0 ==> final(self).bytes() == old(self).bytes(),
    {
        if self.len > 0 {
            let ghost before = self.bytes();
            self.len = self.len - 1;
            assert(self.bytes() =~= before.drop_last());
        }
    }

    /// Resets the buffer to empty.
    pub fn clear(&mut self)
        requires
            old(self).wf(),
        ensures
            final(self).wf(),
            final(self).bytes() == Seq::<u8>::empty(),
    {
        self.len = 0;
        assert(self.bytes() =~= Seq::<u8>::empty());
    }

    /// Returns the current content as a string slice, or `""` when it is
    /// not valid UTF-8.
    pub fn as_str(&self) -> (r: &str)
        requires
            self.wf(),
        ensures
            r.spec_bytes() == shown_text(self.bytes()),
            r.spec_bytes().len() < MAX_LINE_LEN,
    {
        let b = slice_subrange(self.buf.as_slice(), 0, self.len);
        assert(b@ =~= self.bytes());
        match str_from_utf8(b) {
            Some(s) => s,
            None => {
                proof {
                    reveal_strlit("");
                    assert("".spec_bytes() =~= Seq::<u8>::empty());
                }
                ""
            },
        }
    }

    /// Returns `true` if the buffer is empty.
    pub fn is_empty(&self) -> (r: bool)
        requires
            self.wf(),
        ensures
            r == (self.bytes().len() == 0),
    {
        self.len == 0
    }
}

/// Typing a byte and then backspace leaves the line as it was (when the
/// line had room for the byte).
pub proof fn law_push_then_backspace(line: Seq<u8>, byte: u8)
    requires
        line.len() < MAX_LINE_LEN - 1,
    ensures
        line.push(byte).drop_last() == line,
{
    assert(line.push(byte).drop_last() =~= line);
}

} // verus!
