//! Command history: a ring of the most recent command lines.

use crate::span::truncate;
use crate::utf8text::str_from_utf8;
use vstd::prelude::*;
use vstd::slice::slice_subrange;
use vstd::string::StringSliceAdditionalSpecFns;
use vstd::utf8::valid_utf8;

verus! {

/// Number of lines the history keeps.
pub const MAX_HISTORY: usize = 32;

/// Maximum number of bytes kept of each line.
pub const MAX_ENTRY: usize = 256;

/// `s` with `x` appended, the oldest element dropped when `s` already
/// holds [`MAX_HISTORY`] elements.
pub open spec fn push_recent(s: Seq<Seq<u8>>, x: Seq<u8>) -> Seq<Seq<u8>> {
    if s.len() < MAX_HISTORY {
        s.push(x)
    } else {
        s.drop_first().push(x)
    }
}

/// What a stored line reads back as: its text when it is valid UTF-8.
pub open spec fn line_text(b: Seq<u8>) -> Option<Seq<u8>> {
    if valid_utf8(b) {
        Some(b)
    } else {
        None
    }
}

/// The text a `get` or `last` result carries.
pub open spec fn text_of(r: Option<&str>) -> Option<Seq<u8>> {
    match r {
        Some(s) => Some(s.spec_bytes()),
        None => None,
    }
}

/// Command history (ring buffer of 32 entries, each up to 256 bytes).
pub struct History {
    entries: [[u8; 256]; 32],
    lengths: [usize; 32],
    count: usize,
    next: usize,
}

impl History {
    /// Well-formedness of the ring indices and stored lengths.
    pub closed spec fn wf(&self) -> bool {
        &&& self.count <= MAX_HISTORY
        &&& self.next < MAX_HISTORY
        &&& self.count < MAX_HISTORY ==> self.next == self.count
        &&& forall|i: int| 0 <= i < MAX_HISTORY ==> #[trigger] self.lengths@[i] <= MAX_ENTRY
    }

    /// The stored bytes of slot `i`.
    closed spec fn slot(&self, i: int) -> Seq<u8> {
        self.entries@[i]@.take(self.lengths@[i] as int)
    }

    /// Slot of the `i`-th oldest line.
    closed spec fn slot_of(&self, i: int) -> int {
        if self.count < MAX_HISTORY {
            i
        } else {
            (self.next + i) % (MAX_HISTORY as int)
        }
    }

    /// The kept lines (each cut to [`MAX_ENTRY`] bytes), oldest first.
    pub closed spec fn lines(&self) -> Seq<Seq<u8>> {
        Seq::new(self.count as nat, |i: int| self.slot(self.slot_of(i)))
    }

    /// Creates an empty history.
    pub fn new() -> (r: Self)
        ensures
            r.wf(),
            r.lines() == Seq::<Seq<u8>>::empty(),
    {
        let r = Self { entries: [[0; 256]; 32], lengths: [0; 32], count: 0, next: 0 };
        assert(r.lines() =~= Seq::<Seq<u8>>::empty());
        r
    }

    /// Records `line`, keeping its first [`MAX_ENTRY`] bytes; once
    /// [`MAX_HISTORY`] lines are kept the oldest is forgotten.
    pub fn push(&mut self, line: &str)
        requires
            old(self).wf(),
        ensures
            final(self).wf(),
            final(self).lines() == push_recent(
                old(self).lines(),
                truncate(line.spec_bytes(), MAX_ENTRY as nat),
            ),
    {
        let ghost before = *self;
        let bytes = line.as_bytes();
        let len = if bytes.len() < MAX_ENTRY {
            bytes.len()
        } else {
            MAX_ENTRY
        };
        let mut row = [0u8; 256];
        let mut i: usize = 0;
        while i < len
            invariant
                len <= MAX_ENTRY,
                len <= bytes@.len(),
                0 <= i <= len,
                row@.len() == MAX_ENTRY,
                forall|k: int| 0 <= k < i ==> row@[k] == bytes@[k],
            decreases len - i,
        {
            row[i] = bytes[i];
            i = i + 1;
        }
        let ghost entry = truncate(line.spec_bytes(), MAX_ENTRY as nat);
        assert(row@.take(len as int) =~= entry);
        let slot = self.next;
        self.entries[slot] = row;
        self.lengths[slot] = len;
        self.next = (self.next + 1) % MAX_HISTORY;
        if self.count < MAX_HISTORY {
            self.count = self.count + 1;
        }
        proof {
            let target = push_recent(before.lines(), entry);
            assert(self.slot(slot as int) == entry);
            assert forall|k: int| 0 <= k < MAX_HISTORY && k != slot implies #[trigger] self.slot(k)
                == before.slot(k) by {}
            assert forall|k: int| 0 <= k < self.count implies #[trigger] self.lines()[k]
                == target[k] by {
                if before.count < MAX_HISTORY {
                    if k < before.count {
                        assert(k != slot);
                    }
                } else {
                    let m = MAX_HISTORY as int;
                    if k < m - 1 {
                        assert(self.slot_of(k) == (before.next + k + 1) % m);
                        assert(before.slot_of(k + 1) == (before.next + k + 1) % m);
                        assert((before.next + k + 1) % m != before.next);
                    } else {
                        assert((before.next + 1 + k) % m == before.next);
                    }
                }
            }
            assert(self.lines() =~= target);
        }
    }

    /// Returns the `index`-th oldest kept line, or `None` when there is no
    /// such line or its stored bytes are not valid UTF-8.
    pub fn get(&self, index: usize) -> (r: Option<&str>)
        requires
            self.wf(),
        ensures
            index >= self.lines().len() ==> r is None,
            index < self.lines().len() ==> text_of(r) == line_text(self.lines()[index as int]),
    {
        if index >= self.count {
            return None;
        }
        let actual = if self.count < MAX_HISTORY {
            index
        } else {
            (self.next + index) % MAX_HISTORY
        };
        let len = self.lengths[actual];
        let b = slice_subrange(self.entries[actual].as_slice(), 0, len);
        assert(b@ =~= self.lines()[index as int]);
        str_from_utf8(b)
    }

    /// Number of kept lines.
    pub fn len(&self) -> (r: usize)
        requires
            self.wf(),
        ensures
            r == self.lines().len(),
    {
        if self.count < MAX_HISTORY {
            self.count
        } else {
            MAX_HISTORY
        }
    }

    /// Returns the newest line, or `None` when the history is empty or that
    /// line is not valid UTF-8.
    pub fn last(&self) -> (r: Option<&str>)
        requires
            self.wf(),
        ensures
            self.lines().len() == 0 ==> r is None,
            self.lines().len() > 0 ==> text_of(r) == line_text(self.lines().last()),
    {
        if self.count == 0 {
            return None;
        }
        let idx = if self.next == 0 {
            MAX_HISTORY - 1
        } else {
            self.next - 1
        };
        let len = self.lengths[idx];
        let b = slice_subrange(self.entries[idx].as_slice(), 0, len);
        proof {
            let m = MAX_HISTORY as int;
            let n = self.count as int;
            if self.count == MAX_HISTORY {
                assert(self.slot_of(n - 1) == (self.next + m - 1) % m);
            }
        }
        assert(b@ =~= self.lines().last());
        str_from_utf8(b)
    }
}

/// The history keeps the most recent lines in order: after recording a
/// line it is the newest entry, the earlier entries keep their order, and
/// at most [`MAX_HISTORY`] lines are kept.
pub proof fn law_push_keeps_recent(before: Seq<Seq<u8>>, line: Seq<u8>)
    requires
        before.len() <= MAX_HISTORY,
    ensures
        push_recent(before, line).last() == line,
        push_recent(before, line).len() <= MAX_HISTORY,
        before.len() < MAX_HISTORY ==> push_recent(before, line).drop_last() == before,
        before.len() == MAX_HISTORY ==> push_recent(before, line).drop_last() == before.drop_first(),
{
    assert(before.push(line).drop_last() =~= before);
    assert(before.drop_first().push(line).drop_last() =~= before.drop_first());
}

/// The history's lines after recording each of `ls` in turn, starting
/// from the lines `s`.
pub open spec fn push_all(s: Seq<Seq<u8>>, ls: Seq<Seq<u8>>) -> Seq<Seq<u8>>
    decreases ls.len(),
{
    if ls.len() == 0 {
        s
    } else {
        push_recent(push_all(s, ls.drop_last()), truncate(ls.last(), MAX_ENTRY as nat))
    }
}

/// The last `n` elements of `ls` (all of them when there are fewer).
pub open spec fn most_recent(ls: Seq<Seq<u8>>, n: nat) -> Seq<Seq<u8>> {
    if ls.len() <= n {
        ls
    } else {
        ls.skip(ls.len() - n)
    }
}

/// Each line cut to [`MAX_ENTRY`] bytes.
pub open spec fn cut_lines(ls: Seq<Seq<u8>>) -> Seq<Seq<u8>> {
    ls.map_values(|l: Seq<u8>| truncate(l, MAX_ENTRY as nat))
}

/// Recording lines one after another into an empty history keeps exactly
/// the [`MAX_HISTORY`] most recent of them, oldest first, each cut to
/// [`MAX_ENTRY`] bytes; lines that already fit are kept unchanged, so the
/// `i`-th kept line is the `(n - kept + i)`-th line recorded.
pub proof fn law_pushes_keep_most_recent(ls: Seq<Seq<u8>>)
    ensures
        push_all(Seq::empty(), ls) == most_recent(cut_lines(ls), MAX_HISTORY as nat),
        push_all(Seq::empty(), ls).len() == if ls.len() < MAX_HISTORY {
            ls.len()
        } else {
            MAX_HISTORY as nat
        },
        (forall|i: int| 0 <= i < ls.len() ==> (#[trigger] ls[i]).len() <= MAX_ENTRY) ==> forall|
            i: int,
        |
            0 <= i < push_all(Seq::empty(), ls).len() ==> #[trigger] push_all(Seq::empty(), ls)[i]
                == ls[ls.len() - push_all(Seq::empty(), ls).len() + i],
    decreases ls.len(),
{
    let m = MAX_HISTORY as nat;
    let r = push_all(Seq::empty(), ls);
    if ls.len() > 0 {
        let d = ls.drop_last();
        law_pushes_keep_most_recent(d);
        let prev = push_all(Seq::empty(), d);
        let cd = cut_lines(d);
        let cl = cut_lines(ls);
        assert(cd =~= cl.drop_last());
        assert(cl.last() == truncate(ls.last(), MAX_ENTRY as nat));
        if d.len() < m {
            assert(prev == cd);
            assert(r =~= cl);
        } else {
            assert(prev.len() == m);
            assert(prev == cd.skip(cd.len() - m));
            assert(r =~= cl.skip(cl.len() - m));
        }
    } else {
        assert(r =~= most_recent(cut_lines(ls), m));
    }
    if forall|i: int| 0 <= i < ls.len() ==> (#[trigger] ls[i]).len() <= MAX_ENTRY {
        assert forall|i: int| 0 <= i < r.len() implies #[trigger] r[i] == ls[ls.len() - r.len()
            + i] by {
            let k = ls.len() - r.len() + i;
            assert(ls[k].len() <= MAX_ENTRY);
            assert(cut_lines(ls)[k] == truncate(ls[k], MAX_ENTRY as nat));
        }
    }
}

/// A recorded line of valid UTF-8 that fits an entry reads back unchanged.
pub proof fn law_recorded_line_reads_back(line: Seq<u8>)
    requires
        line.len() <= MAX_ENTRY,
        valid_utf8(line),
    ensures
        line_text(truncate(line, MAX_ENTRY as nat)) == Some(line),
{
}

} // verus!
