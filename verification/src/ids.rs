//! Identifier and status types shared by the tracer.

use vstd::prelude::*;

verus! {

/// Identifies one trace (a tree of spans).
#[derive(Clone, Copy, PartialEq, Eq, Structural, Debug)]
pub struct TraceId(pub u64);

/// Identifies one span.
#[derive(Clone, Copy, PartialEq, Eq, Structural, Debug)]
pub struct SpanId(pub u64);

/// Completion status of a span. A span that ended without error is
/// `Success`.
#[derive(Clone, Copy, PartialEq, Eq, Structural, Debug)]
pub enum SpanStatus {
    InProgress,
    Success,
    Error,
}

/// The trace and span that new spans nest under.
#[derive(Clone, Copy, PartialEq, Eq, Structural, Debug)]
pub struct TraceContext {
    pub trace_id: TraceId,
    pub current_span_id: SpanId,
    pub depth: u16,
}

/// Summary counters of a tracer.
#[derive(Clone, Copy, PartialEq, Eq, Structural, Debug)]
pub struct TraceStats {
    pub total_spans_written: u64,
    pub buffer_capacity: usize,
    pub buffer_used: usize,
    pub active_spans: usize,
}

/// Hands out increasing 64-bit identifiers, starting at 1 (0 is the
/// "no id" value).
pub struct IdGenerator {
    next: u64,
}

impl IdGenerator {
    /// The identifier that the next call of [`IdGenerator::next`] returns.
    pub closed spec fn peek(&self) -> u64 {
        self.next
    }

    /// Creates a generator whose first identifier is 1.
    pub fn new() -> (r: Self)
        ensures
            r.peek() == 1,
    {
        IdGenerator { next: 1 }
    }

    /// Returns a fresh identifier (wrapping after `u64::MAX`).
    pub fn next(&mut self) -> (r: u64)
        ensures
            r == old(self).peek(),
            final(self).peek() == (old(self).peek() + 1) % 0x1_0000_0000_0000_0000,
    {
        let r = self.next;
        self.next = self.next.wrapping_add(1);
        r
    }
}

} // verus!
