//! Trace engine: span lifecycle, context propagation, and ring buffer
//! storage.

use crate::context::{self, TraceContextStack, MAX_DEPTH};
use crate::ids::{IdGenerator, SpanId, SpanStatus, TraceContext, TraceId, TraceStats};
use crate::ringbuffer::{bounded_push, ended, newest_with_id, RingBuffer, RING_CAPACITY};
use crate::span::{padded, Span, MAX_MODULE_LEN, MAX_NAME_LEN};
use vstd::prelude::*;
use vstd::string::StringSliceAdditionalSpecFns;

verus! {

/// `sp` is the span that `Span::new` builds from these arguments.
pub open spec fn is_new_span(
    sp: Span,
    name: Seq<u8>,
    module: Seq<u8>,
    trace_id: TraceId,
    span_id: SpanId,
    parent: Option<SpanId>,
    depth: u16,
    start_tsc: u64,
) -> bool {
    &&& sp.well_formed()
    &&& sp.name@ == padded(name, MAX_NAME_LEN as nat)
    &&& sp.name_bytes() == crate::span::truncate(name, MAX_NAME_LEN as nat)
    &&& sp.module@ == padded(module, MAX_MODULE_LEN as nat)
    &&& sp.module_bytes() == crate::span::truncate(module, MAX_MODULE_LEN as nat)
    &&& sp.trace_id == trace_id
    &&& sp.span_id == span_id
    &&& sp.parent_span_id == parent
    &&& sp.start_tsc == start_tsc
    &&& sp.pid == 0
    &&& sp.depth == depth
}

/// Where a new span or event hangs: under the current context, or at the
/// root of a new trace with id `fresh`.
pub open spec fn placement(cur: Option<TraceContext>, fresh: u64) -> (TraceId, Option<SpanId>, u16) {
    match cur {
        Some(c) => (c.trace_id, Some(c.current_span_id), (c.depth + 1) as u16),
        None => (TraceId(fresh), None, 0),
    }
}

/// Trace engine that records spans into a fixed-size ring buffer.
pub struct TraceEngine {
    /// Ring buffer holding completed and in-progress spans.
    buffer: RingBuffer,
    /// Stack of open contexts.
    context: TraceContextStack,
    /// Generator for unique trace IDs.
    trace_ids: IdGenerator,
    /// Generator for unique span IDs.
    span_ids: IdGenerator,
}

impl TraceEngine {
    /// Well-formedness of the buffer and the context stack.
    pub closed spec fn wf(&self) -> bool {
        self.buffer.wf() && self.context.wf()
    }

    /// The ring buffer.
    pub closed spec fn buffer(&self) -> RingBuffer {
        self.buffer
    }

    /// The open contexts, outermost first.
    pub closed spec fn contexts(&self) -> Seq<TraceContext> {
        self.context.frames()
    }

    /// The id the next new trace gets.
    pub closed spec fn next_trace_id(&self) -> u64 {
        self.trace_ids.peek()
    }

    /// The id the next span or event gets.
    pub closed spec fn next_span_id(&self) -> u64 {
        self.span_ids.peek()
    }

    /// The innermost open context.
    pub open spec fn current(&self) -> Option<TraceContext> {
        if self.contexts().len() == 0 {
            None
        } else {
            Some(self.contexts().last())
        }
    }

    /// A nested span can be numbered: the current depth is below `u16::MAX`.
    pub open spec fn depth_ok(&self) -> bool {
        match self.current() {
            Some(c) => c.depth < u16::MAX,
            None => true,
        }
    }

    /// Creates a new trace engine with empty buffers.
    pub fn new() -> (r: Self)
        ensures
            r.wf(),
            r.buffer().head() == 0,
            r.buffer().total() == 0,
            r.buffer().contents() == Seq::<Span>::empty(),
            r.contexts() == Seq::<TraceContext>::empty(),
            r.next_trace_id() == 1,
            r.next_span_id() == 1,
    {
        TraceEngine {
            buffer: RingBuffer::new(),
            context: TraceContextStack::new(),
            trace_ids: IdGenerator::new(),
            span_ids: IdGenerator::new(),
        }
    }

    /// Opens a span named `name` in `module`, started at `start_tsc`.
    ///
    /// The span nests under the current context (same trace, parent = the
    /// context's span, one level deeper) or, with no context, starts a new
    /// trace at depth 0. Its context is pushed (unless the stack is full)
    /// and the span is written to the buffer. Returns the span's id.
    pub fn begin_span(&mut self, name: &str, module: &str, start_tsc: u64) -> (r: SpanId)
        requires
            old(self).wf(),
            old(self).depth_ok(),
        ensures
            final(self).wf(),
            r == SpanId(old(self).next_span_id()),
            ({
                let (tid, parent, depth) = placement(old(self).current(), old(self).next_trace_id());
                &&& final(self).next_span_id() == (old(self).next_span_id() + 1)
                    % 0x1_0000_0000_0000_0000
                &&& old(self).current() is Some ==> final(self).next_trace_id() == old(
                    self,
                ).next_trace_id()
                &&& old(self).current() is None ==> final(self).next_trace_id() == (old(
                    self,
                ).next_trace_id() + 1) % 0x1_0000_0000_0000_0000
                &&& old(self).contexts().len() < MAX_DEPTH ==> final(self).contexts() == old(
                    self,
                ).contexts().push(TraceContext { trace_id: tid, current_span_id: r, depth })
                &&& old(self).contexts().len() >= MAX_DEPTH ==> final(self).contexts() == old(
                    self,
                ).contexts()
                &&& final(self).buffer().total() == (old(self).buffer().total() + 1)
                    % 0x1_0000_0000_0000_0000
                &&& old(self).buffer().head() == usize::MAX ==> final(self).buffer().head() == 0
                &&& old(self).buffer().head() < usize::MAX ==> final(self).buffer().head() == old(
                    self,
                ).buffer().head() + 1
                &&& old(self).buffer().head() < usize::MAX ==> {
                    &&& final(self).buffer().contents() == bounded_push(
                        old(self).buffer().contents(),
                        final(self).buffer().contents().last(),
                    )
                    &&& is_new_span(
                        final(self).buffer().contents().last(),
                        name.spec_bytes(),
                        module.spec_bytes(),
                        tid,
                        r,
                        parent,
                        depth,
                        start_tsc,
                    )
                    &&& final(self).buffer().contents().last().end_tsc == 0
                    &&& final(self).buffer().contents().last().status == SpanStatus::InProgress
                }
            }),
    {
        let span_id = SpanId(self.span_ids.next());
        let cur = context::current(&self.context);
        let (trace_id, parent, depth) = match cur {
            Some(ctx) => (ctx.trace_id, Some(ctx.current_span_id), ctx.depth + 1),
            None => (TraceId(self.trace_ids.next()), None, 0),
        };
        let span = Span::new(name, module, trace_id, span_id, parent, 0, depth, start_tsc);
        let _ = context::push(
            &mut self.context,
            TraceContext { trace_id, current_span_id: span_id, depth },
        );
        self.buffer.write(span);
        span_id
    }

    /// Closes the innermost context and records `end_tsc` and `status` on
    /// the newest retained span with id `span_id`.
    pub fn end_span(&mut self, span_id: SpanId, status: SpanStatus, end_tsc: u64)
        requires
            old(self).wf(),
        ensures
            final(self).wf(),
            final(self).next_span_id() == old(self).next_span_id(),
            final(self).next_trace_id() == old(self).next_trace_id(),
            old(self).contexts().len() > 0 ==> final(self).contexts() == old(
                self,
            ).contexts().drop_last(),
            old(self).contexts().len() == 0 ==> final(self).contexts() == old(self).contexts(),
            final(self).buffer().head() == old(self).buffer().head(),
            final(self).buffer().total() == old(self).buffer().total(),
            match newest_with_id(old(self).buffer().contents(), span_id) {
                Some(j) => final(self).buffer().contents() == old(self).buffer().contents().update(
                    j,
                    ended(old(self).buffer().contents()[j], end_tsc, status),
                ),
                None => final(self).buffer().contents() == old(self).buffer().contents(),
            },
    {
        let _ = context::pop(&mut self.context);
        let _ = self.buffer.update_span(span_id, end_tsc, status);
    }

    /// Records an instant event named `name`: a finished span in module
    /// `"event"` placed like a new span, started at `start_tsc` and ended at
    /// `event_tsc`, without touching the context stack.
    pub fn add_event(&mut self, name: &str, event_tsc: u64, start_tsc: u64)
        requires
            old(self).wf(),
            old(self).depth_ok(),
        ensures
            final(self).wf(),
            final(self).contexts() == old(self).contexts(),
            final(self).next_span_id() == (old(self).next_span_id() + 1) % 0x1_0000_0000_0000_0000,
            old(self).current() is Some ==> final(self).next_trace_id() == old(self).next_trace_id(),
            old(self).current() is None ==> final(self).next_trace_id() == (old(self).next_trace_id()
                + 1) % 0x1_0000_0000_0000_0000,
            final(self).buffer().total() == (old(self).buffer().total() + 1)
                % 0x1_0000_0000_0000_0000,
            old(self).buffer().head() == usize::MAX ==> final(self).buffer().head() == 0,
            old(self).buffer().head() < usize::MAX ==> final(self).buffer().head() == old(
                self,
            ).buffer().head() + 1,
            old(self).buffer().head() < usize::MAX ==> {
                let (tid, parent, depth) = placement(old(self).current(), old(self).next_trace_id());
                &&& final(self).buffer().contents() == bounded_push(
                    old(self).buffer().contents(),
                    final(self).buffer().contents().last(),
                )
                &&& is_new_span(
                    final(self).buffer().contents().last(),
                    name.spec_bytes(),
                    "event".spec_bytes(),
                    tid,
                    SpanId(old(self).next_span_id()),
                    parent,
                    depth,
                    start_tsc,
                )
                &&& final(self).buffer().contents().last().end_tsc == event_tsc
                &&& final(self).buffer().contents().last().status == SpanStatus::Success
            },
    {
        let span_id = SpanId(self.span_ids.next());
        let cur = context::current(&self.context);
        let (trace_id, parent, depth) = match cur {
            Some(ctx) => (ctx.trace_id, Some(ctx.current_span_id), ctx.depth + 1),
            None => (TraceId(self.trace_ids.next()), None, 0),
        };
        let mut span = Span::new(name, "event", trace_id, span_id, parent, 0, depth, start_tsc);
        span.end_tsc = event_tsc;
        span.status = SpanStatus::Success;
        self.buffer.write(span);
    }

    /// Returns the innermost open context.
    pub fn current_context(&self) -> (r: Option<TraceContext>)
        requires
            self.wf(),
        ensures
            r == self.current(),
    {
        context::current(&self.context)
    }

    /// Pushes `ctx` as the innermost context (ignored when the stack is full).
    pub fn set_context(&mut self, ctx: TraceContext)
        requires
            old(self).wf(),
        ensures
            final(self).wf(),
            final(self).buffer() == old(self).buffer(),
            final(self).next_span_id() == old(self).next_span_id(),
            final(self).next_trace_id() == old(self).next_trace_id(),
            old(self).contexts().len() < MAX_DEPTH ==> final(self).contexts() == old(
                self,
            ).contexts().push(ctx),
            old(self).contexts().len() >= MAX_DEPTH ==> final(self).contexts() == old(
                self,
            ).contexts(),
    {
        let _ = context::push(&mut self.context, ctx);
    }

    /// Drops all open contexts.
    pub fn clear_context(&mut self)
        requires
            old(self).wf(),
        ensures
            final(self).wf(),
            final(self).buffer() == old(self).buffer(),
            final(self).next_span_id() == old(self).next_span_id(),
            final(self).next_trace_id() == old(self).next_trace_id(),
            final(self).contexts() == Seq::<TraceContext>::empty(),
    {
        context::clear(&mut self.context);
    }

    /// Buffer statistics; no span is counted as active.
    pub fn stats(&self) -> (r: TraceStats)
        requires
            self.wf(),
        ensures
            r.total_spans_written == self.buffer().total(),
            r.buffer_capacity == RING_CAPACITY,
            r.buffer_used == self.buffer().contents().len(),
            r.active_spans == 0,
    {
        let (capacity, used, total) = self.buffer.stats();
        TraceStats {
            total_spans_written: total,
            buffer_capacity: capacity,
            buffer_used: used,
            active_spans: 0,
        }
    }

    /// Empties the buffer and the context stack.
    pub fn clear(&mut self)
        requires
            old(self).wf(),
        ensures
            final(self).wf(),
            final(self).buffer().head() == 0,
            final(self).buffer().total() == 0,
            final(self).buffer().contents() == Seq::<Span>::empty(),
            final(self).contexts() == Seq::<TraceContext>::empty(),
            final(self).next_span_id() == old(self).next_span_id(),
            final(self).next_trace_id() == old(self).next_trace_id(),
    {
        self.buffer.clear();
        context::clear(&mut self.context);
    }

    /// Copies the most recent `count` spans into `out`, oldest first.
    ///
    /// Returns the number of spans actually read.
    pub fn read_recent(&self, count: usize, out: &mut [Span]) -> (r: usize)
        requires
            self.wf(),
        ensures
            r == vstd::math::min(
                vstd::math::min(count as int, self.buffer().available() as int),
                old(out)@.len() as int,
            ),
            final(out)@.len() == old(out)@.len(),
            forall|i: int|
                0 <= i < r ==> #[trigger] final(out)@[i] == self.buffer().contents()[self.buffer().available()
                    - r + i],
            forall|i: int| r <= i < old(out)@.len() ==> #[trigger] final(out)@[i] == old(out)@[i],
    {
        self.buffer.read_recent(count, out)
    }
}

} // verus!
