//! Informational system calls: the memory-info text and the bounded
//! writer that copies it into a caller's buffer.

use crate::span::truncate;
use vstd::prelude::*;
use vstd::string::StringSliceAdditionalSpecFns;

verus! {

/// The text `sys_meminfo` writes.
pub const MEMINFO_TEXT: &'static str = "MiniOS memory info (placeholder)";

/// Minimal fixed-capacity buffer writer: text beyond the capacity is
/// silently dropped.
pub struct BufWriter {
    buf: Vec<u8>,
    pos: usize,
}

impl BufWriter {
    /// Well-formedness: the write position lies within the buffer.
    pub closed spec fn wf(&self) -> bool {
        self.pos <= self.buf@.len()
    }

    /// The buffer's bytes.
    pub closed spec fn contents(&self) -> Seq<u8> {
        self.buf@
    }

    /// Number of bytes written so far.
    pub closed spec fn position(&self) -> nat {
        self.pos as nat
    }

    /// A writer that fills `buf` from its start.
    pub fn new(buf: Vec<u8>) -> (r: Self)
        ensures
            r.wf(),
            r.contents() == buf@,
            r.position() == 0,
    {
        Self { buf, pos: 0 }
    }

    /// Number of bytes written so far.
    pub fn written(&self) -> (r: usize)
        ensures
            r == self.position(),
    {
        self.pos
    }

    /// Copies as much of `s` as fits after the bytes already written.
    pub fn write_str(&mut self, s: &str)
        requires
            old(self).wf(),
        ensures
            final(self).wf(),
            ({
                let room = (old(self).contents().len() - old(self).position()) as nat;
                let copied = truncate(s.spec_bytes(), room);
                let p = old(self).position() as int;
                &&& final(self).position() == p + copied.len()
                &&& final(self).contents() == old(self).contents().subrange(0, p) + copied
                    + old(self).contents().subrange(p + copied.len(), old(self).contents().len() as int)
            }),
    {
        let bytes = s.as_bytes();
        let blen = self.buf.len();
        let remaining = blen - self.pos;
        let to_copy = if bytes.len() < remaining {
            bytes.len()
        } else {
            remaining
        };
        let ghost start = self.buf@;
        let ghost p = self.pos as int;
        let mut i: usize = 0;
        while i < to_copy
            invariant
                self.pos as int == p,
                p + to_copy <= start.len(),
                to_copy <= bytes@.len(),
                0 <= i <= to_copy,
                self.buf@.len() == start.len(),
                blen == start.len(),
                forall|k: int| 0 <= k < p ==> self.buf@[k] == start[k],
                forall|k: int| 0 <= k < i ==> self.buf@[p + k] == bytes@[k],
                forall|k: int| p + i <= k < start.len() ==> self.buf@[k] == start[k],
            decreases to_copy - i,
        {
            self.buf.set(self.pos + i, bytes[i]);
            i = i + 1;
        }
        self.pos = self.pos + to_copy;
        assert(self.buf@ =~= start.subrange(0, p) + truncate(bytes@, (start.len() - p) as nat)
            + start.subrange(p + to_copy, start.len() as int));
    }

    /// Gives the buffer back.
    pub fn into_inner(self) -> (r: Vec<u8>)
        ensures
            r@ == self.contents(),
    {
        self.buf
    }
}

/// Fills `buf` with as much of the memory-info text as fits; returns the
/// filled buffer and the number of bytes written.
pub fn sys_meminfo(buf: Vec<u8>) -> (r: (Vec<u8>, usize))
    ensures
        r.1 == truncate(MEMINFO_TEXT.spec_bytes(), buf@.len()).len(),
        r.0@ == truncate(MEMINFO_TEXT.spec_bytes(), buf@.len()) + buf@.subrange(
            r.1 as int,
            buf@.len() as int,
        ),
{
    let mut writer = BufWriter::new(buf);
    writer.write_str(MEMINFO_TEXT);
    let n = writer.written();
    let out = writer.into_inner();
    proof {
        let c = truncate(MEMINFO_TEXT.spec_bytes(), buf@.len());
        assert(buf@.subrange(0, 0) + c =~= c);
    }
    (out, n)
}

} // verus!
