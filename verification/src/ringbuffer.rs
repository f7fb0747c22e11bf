//! Fixed-size ring buffer storing trace spans.
//!
//! The buffer uses a fixed-size slot array with a modular write index:
//! once full, each write overwrites the oldest span.

use crate::ids::{SpanId, SpanStatus};
use crate::span::Span;
use vstd::prelude::*;

verus! {

/// Number of span slots in the ring buffer.
pub const RING_CAPACITY: usize = 4096;

/// `s` with `x` appended, the oldest element dropped when `s` already
/// holds [`RING_CAPACITY`] elements.
pub open spec fn bounded_push(s: Seq<Span>, x: Span) -> Seq<Span> {
    if s.len() < RING_CAPACITY {
        s.push(x)
    } else {
        s.drop_first().push(x)
    }
}

/// Index in `s` of the newest span with id `id`, if any.
pub open spec fn newest_with_id(s: Seq<Span>, id: SpanId) -> Option<int>
    decreases s.len(),
{
    if s.len() == 0 {
        None
    } else if s.last().span_id == id {
        Some(s.len() - 1)
    } else {
        newest_with_id(s.drop_last(), id)
    }
}

/// `sp` with its end timestamp and status replaced.
pub open spec fn ended(sp: Span, end_tsc: u64, status: SpanStatus) -> Span {
    Span { end_tsc, status, ..sp }
}

/// Fixed-size circular buffer of [`Span`] records.
///
/// Writers claim the next slot via `write_head` and copy the span in.
/// Readers snapshot recent entries via [`RingBuffer::read_recent`].
pub struct RingBuffer {
    /// Storage for span records.
    slots: Vec<Span>,
    /// Monotonically increasing write index (wraps via modulo).
    write_head: usize,
    /// Total number of spans ever written.
    total_written: u64,
}

impl RingBuffer {
    /// Well-formedness: the slot array has exactly [`RING_CAPACITY`] slots.
    pub closed spec fn wf(&self) -> bool {
        self.slots@.len() == RING_CAPACITY
    }

    /// The write index: the number of writes since creation or the last
    /// clear (it wraps only after `usize::MAX` writes).
    pub closed spec fn head(&self) -> nat {
        self.write_head as nat
    }

    /// Total number of spans written since creation or the last clear,
    /// modulo 2^64.
    pub closed spec fn total(&self) -> u64 {
        self.total_written
    }

    /// The raw slot array.
    pub closed spec fn slots(&self) -> Seq<Span> {
        self.slots@
    }

    /// Number of spans currently retained.
    pub open spec fn available(&self) -> nat {
        if self.head() < RING_CAPACITY {
            self.head()
        } else {
            RING_CAPACITY as nat
        }
    }

    /// The retained spans, oldest first.
    pub open spec fn contents(&self) -> Seq<Span> {
        Seq::new(
            self.available(),
            |i: int| self.slots()[(self.head() - self.available() + i) % (RING_CAPACITY as int)],
        )
    }

    /// Creates a new empty ring buffer.
    pub fn new() -> (r: Self)
        ensures
            r.wf(),
            r.head() == 0,
            r.total() == 0,
            r.contents() == Seq::<Span>::empty(),
    {
        let mut slots: Vec<Span> = Vec::new();
        let mut i: usize = 0;
        while i < RING_CAPACITY
            invariant
                slots@.len() == i,
                i <= RING_CAPACITY,
            decreases RING_CAPACITY - i,
        {
            slots.push(Span::default());
            i = i + 1;
        }
        let r = RingBuffer { slots, write_head: 0, total_written: 0 };
        assert(r.contents() =~= Seq::<Span>::empty());
        r
    }

    /// Appends a span to the buffer, overwriting the oldest entry if full.
    pub fn write(&mut self, span: Span)
        requires
            old(self).wf(),
        ensures
            final(self).wf(),
            final(self).total() == (old(self).total() + 1) % 0x1_0000_0000_0000_0000,
            old(self).head() < usize::MAX ==> final(self).head() == old(self).head() + 1,
            old(self).head() < usize::MAX ==> final(self).contents() == bounded_push(
                old(self).contents(),
                span,
            ),
            old(self).head() == usize::MAX ==> final(self).head() == 0,
    {
        let ghost old_buf = *self;
        let idx = self.write_head % RING_CAPACITY;
        self.slots.set(idx, span);
        self.write_head = self.write_head.wrapping_add(1);
        self.total_written = self.total_written.wrapping_add(1);
        proof {
            if old_buf.head() < usize::MAX {
                lemma_contents_after_write(old_buf, *self, span);
            }
        }
    }

    /// Copies up to `count` of the most recent spans into `out`, oldest of
    /// them first.
    ///
    /// Returns the number of spans actually copied: the least of `count`,
    /// the number retained and `out.len()`.
    pub fn read_recent(&self, count: usize, out: &mut [Span]) -> (r: usize)
        requires
            self.wf(),
        ensures
            r == vstd::math::min(
                vstd::math::min(count as int, self.available() as int),
                old(out)@.len() as int,
            ),
            final(out)@.len() == old(out)@.len(),
            forall|i: int|
                0 <= i < r ==> #[trigger] final(out)@[i] == self.contents()[self.available() - r
                    + i],
            forall|i: int| r <= i < old(out)@.len() ==> #[trigger] final(out)@[i] == old(out)@[i],
    {
        let head = self.write_head;
        let available = if head < RING_CAPACITY {
            head
        } else {
            RING_CAPACITY
        };
        let mut n = if count < available {
            count
        } else {
            available
        };
        if out.len() < n {
            n = out.len();
        }
        let mut i: usize = 0;
        while i < n
            invariant
                self.slots@.len() == RING_CAPACITY,
                head == self.head(),
                available == self.available(),
                n <= available,
                n <= out@.len(),
                0 <= i <= n,
                out@.len() == old(out)@.len(),
                forall|k: int|
                    0 <= k < i ==> #[trigger] out@[k] == self.contents()[available - n + k],
                forall|k: int| n <= k < out@.len() ==> #[trigger] out@[k] == old(out)@[k],
            decreases n - i,
        {
            let idx = (head - n + i) % RING_CAPACITY;
            out[i] = self.slots[idx];
            i = i + 1;
        }
        n
    }

    /// Resets the buffer, discarding all recorded spans.
    pub fn clear(&mut self)
        requires
            old(self).wf(),
        ensures
            final(self).wf(),
            final(self).head() == 0,
            final(self).total() == 0,
            final(self).contents() == Seq::<Span>::empty(),
    {
        self.write_head = 0;
        self.total_written = 0;
        assert(self.contents() =~= Seq::<Span>::empty());
    }

    /// Returns `(capacity, used, total_written)`.
    pub fn stats(&self) -> (r: (usize, usize, u64))
        ensures
            r.0 == RING_CAPACITY,
            r.1 == self.available(),
            r.1 == self.contents().len(),
            r.2 == self.total(),
    {
        let head = self.write_head;
        let used = if head < RING_CAPACITY {
            head
        } else {
            RING_CAPACITY
        };
        (RING_CAPACITY, used, self.total_written)
    }

    /// Searches retained entries, newest first, for a span matching
    /// `span_id` and records its end timestamp and status.
    ///
    /// Returns `true` if the span was found and updated.
    pub fn update_span(&mut self, span_id: SpanId, end_tsc: u64, status: SpanStatus) -> (r: bool)
        requires
            old(self).wf(),
        ensures
            final(self).wf(),
            final(self).head() == old(self).head(),
            final(self).total() == old(self).total(),
            r == newest_with_id(old(self).contents(), span_id) is Some,
            match newest_with_id(old(self).contents(), span_id) {
                Some(j) => final(self).contents() == old(self).contents().update(
                    j,
                    ended(old(self).contents()[j], end_tsc, status),
                ),
                None => final(self).contents() == old(self).contents(),
            },
    {
        let ghost old_buf = *self;
        let head = self.write_head;
        let available = if head < RING_CAPACITY {
            head
        } else {
            RING_CAPACITY
        };
        let mut i: usize = 0;
        while i < available
            invariant
                self.slots@.len() == RING_CAPACITY,
                *self == old_buf,
                old_buf == *old(self),
                head == self.head(),
                available == self.available(),
                0 <= i <= available,
                forall|k: int|
                    available - i <= k < available ==> (#[trigger] self.contents()[k]).span_id
                        != span_id,
            decreases available - i,
        {
            let idx = (head - 1 - i) % RING_CAPACITY;
            assert(self.contents()[available - 1 - i] == self.slots@[idx as int]);
            if self.slots[idx].span_id == span_id {
                proof {
                    lemma_newest_is(self.contents(), span_id, available - 1 - i);
                }
                let mut s = self.slots[idx];
                s.end_tsc = end_tsc;
                s.status = status;
                self.slots.set(idx, s);
                proof {
                    lemma_contents_after_set(old_buf, *self, (available - 1 - i) as int, s);
                }
                return true;
            }
            i = i + 1;
        }
        proof {
            lemma_newest_none(self.contents(), span_id);
        }
        false
    }
}

/// Two distinct offsets below the capacity land in distinct slots.
proof fn lemma_slots_distinct(b: int, i: int, k: int)
    requires
        0 <= b,
        0 <= i < k,
        k - i < RING_CAPACITY,
    ensures
        (b + i) % (RING_CAPACITY as int) != (b + k) % (RING_CAPACITY as int),
{
    let m = RING_CAPACITY as int;
    vstd::arithmetic::div_mod::lemma_fundamental_div_mod(b + i, m);
    vstd::arithmetic::div_mod::lemma_fundamental_div_mod(b + k, m);
    if (b + i) % m == (b + k) % m {
        let q1 = (b + i) / m;
        let q2 = (b + k) / m;
        assert(m * q2 - m * q1 == k - i);
        assert(m * (q2 - q1) == k - i) by (nonlinear_arith)
            requires
                m * q2 - m * q1 == k - i,
        ;
        assert(false) by (nonlinear_arith)
            requires
                m * (q2 - q1) == k - i,
                0 < k - i < m,
                m == 4096,
        ;
    }
}

proof fn lemma_contents_after_write(a: RingBuffer, b: RingBuffer, span: Span)
    requires
        a.slots().len() == RING_CAPACITY,
        a.head() < usize::MAX,
        b.head() == a.head() + 1,
        b.slots() == a.slots().update((a.head() as int) % (RING_CAPACITY as int), span),
    ensures
        b.contents() == bounded_push(a.contents(), span),
{
    let m = RING_CAPACITY as int;
    let h = a.head() as int;
    let ba = b.available() as int;
    let target = bounded_push(a.contents(), span);
    assert(b.contents().len() == target.len());
    assert forall|i: int| 0 <= i < ba implies b.contents()[i] == target[i] by {
        let base = h + 1 - ba;
        if i == ba - 1 {
            assert(base + i == h);
        } else {
            lemma_slots_distinct(base, i, ba - 1);
            assert(base + ba - 1 == h);
            if h < m {
                assert(a.contents()[i] == a.slots()[(h - h + i) % m]);
            } else {
                assert(a.contents()[i + 1] == a.slots()[(h - m + i + 1) % m]);
            }
        }
    }
    assert(b.contents() =~= target);
}

proof fn lemma_contents_after_set(a: RingBuffer, b: RingBuffer, j: int, s: Span)
    requires
        a.slots().len() == RING_CAPACITY,
        b.head() == a.head(),
        0 <= j < a.available(),
        b.slots() == a.slots().update((a.head() - a.available() + j) % (RING_CAPACITY as int), s),
    ensures
        b.contents() == a.contents().update(j, s),
{
    let m = RING_CAPACITY as int;
    let base = a.head() - a.available();
    assert forall|i: int| 0 <= i < a.available() implies b.contents()[i] == a.contents().update(
        j,
        s,
    )[i] by {
        if i < j {
            lemma_slots_distinct(base, i, j);
        } else if j < i {
            lemma_slots_distinct(base, j, i);
        }
    }
    assert(b.contents() =~= a.contents().update(j, s));
}

proof fn lemma_newest_is(s: Seq<Span>, id: SpanId, j: int)
    requires
        0 <= j < s.len(),
        s[j].span_id == id,
        forall|k: int| j < k < s.len() ==> (#[trigger] s[k]).span_id != id,
    ensures
        newest_with_id(s, id) == Some(j),
    decreases s.len(),
{
    if j < s.len() - 1 {
        assert(s.last().span_id != id);
        lemma_newest_is(s.drop_last(), id, j);
    }
}

proof fn lemma_newest_none(s: Seq<Span>, id: SpanId)
    requires
        forall|k: int| 0 <= k < s.len() ==> (#[trigger] s[k]).span_id != id,
    ensures
        newest_with_id(s, id) is None,
    decreases s.len(),
{
    if s.len() > 0 {
        lemma_newest_none(s.drop_last(), id);
    }
}

/// A write is what the buffer then holds as its newest span; the spans
/// before it are the earlier ones, the oldest of them dropped once
/// [`RING_CAPACITY`] spans are held; the buffer never holds more than
/// [`RING_CAPACITY`] spans.
pub proof fn law_write_keeps_most_recent(before: Seq<Span>, span: Span)
    requires
        before.len() <= RING_CAPACITY,
    ensures
        bounded_push(before, span).last() == span,
        bounded_push(before, span).len() == if before.len() < RING_CAPACITY {
            before.len() + 1
        } else {
            RING_CAPACITY as nat
        },
        before.len() < RING_CAPACITY ==> bounded_push(before, span).drop_last() == before,
        before.len() == RING_CAPACITY ==> bounded_push(before, span).drop_last() == before.drop_first(),
{
    assert(before.push(span).drop_last() =~= before);
    assert(before.drop_first().push(span).drop_last() =~= before.drop_first());
}

/// Ending a span touches only the newest span with that id: every other
/// retained span, and the number retained, stay as they were.
pub proof fn law_update_touches_only_newest_match(
    before: Seq<Span>,
    id: SpanId,
    end_tsc: u64,
    status: SpanStatus,
    k: int,
)
    requires
        0 <= k < before.len(),
        newest_with_id(before, id) != Some(k),
    ensures
        match newest_with_id(before, id) {
            Some(j) => before.update(j, ended(before[j], end_tsc, status))[k] == before[k],
            None => true,
        },
{
    lemma_newest_in_range(before, id);
}

/// Ending the span that was just written finds that span: it is the newest
/// span with its id, and after the update the buffer's newest span is that
/// span with the given end timestamp and status.
pub proof fn law_end_finds_just_written(
    before: Seq<Span>,
    span: Span,
    end_tsc: u64,
    status: SpanStatus,
)
    requires
        before.len() <= RING_CAPACITY,
    ensures
        ({
            let after = bounded_push(before, span);
            &&& newest_with_id(after, span.span_id) == Some(after.len() - 1)
            &&& after.update(after.len() - 1, ended(span, end_tsc, status)).last() == ended(
                span,
                end_tsc,
                status,
            )
            &&& after.update(after.len() - 1, ended(span, end_tsc, status)).drop_last()
                == after.drop_last()
        }),
{
    let after = bounded_push(before, span);
    assert(after.last() == span);
    assert(after.update(after.len() - 1, ended(span, end_tsc, status)).drop_last() =~= after.drop_last());
}

/// The index `newest_with_id` names is in range and holds that id.
pub proof fn lemma_newest_in_range(s: Seq<Span>, id: SpanId)
    ensures
        newest_with_id(s, id) matches Some(j) ==> 0 <= j < s.len() && s[j].span_id == id,
    decreases s.len(),
{
    if s.len() > 0 && s.last().span_id != id {
        lemma_newest_in_range(s.drop_last(), id);
    }
}

/// Ending a span changes only its end timestamp and status: the ended
/// span keeps the trace id, span id, parent span id, names, start
/// timestamp, pid and depth it had.
pub proof fn law_end_changes_only_end_and_status(sp: Span, end_tsc: u64, status: SpanStatus)
    ensures
        ended(sp, end_tsc, status).end_tsc == end_tsc,
        ended(sp, end_tsc, status).status == status,
        ended(sp, end_tsc, status).trace_id == sp.trace_id,
        ended(sp, end_tsc, status).span_id == sp.span_id,
        ended(sp, end_tsc, status).parent_span_id == sp.parent_span_id,
        ended(sp, end_tsc, status).name == sp.name,
        ended(sp, end_tsc, status).name_len == sp.name_len,
        ended(sp, end_tsc, status).module == sp.module,
        ended(sp, end_tsc, status).module_len == sp.module_len,
        ended(sp, end_tsc, status).start_tsc == sp.start_tsc,
        ended(sp, end_tsc, status).pid == sp.pid,
        ended(sp, end_tsc, status).depth == sp.depth,
{
}

} // verus!
