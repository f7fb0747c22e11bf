//! No-op tracer for tests and contexts where tracing is disabled.

use crate::ids::{SpanId, SpanStatus, TraceContext, TraceStats};
use vstd::prelude::*;

verus! {

/// A tracer that silently discards all spans and events.
pub struct NullTracer;

impl NullTracer {
    /// Returns the null span id 0.
    pub fn begin_span(&self, _name: &str, _module: &str) -> (r: SpanId)
        ensures
            r == SpanId(0),
    {
        SpanId(0)
    }

    /// Does nothing.
    pub fn end_span(&self, _span_id: SpanId, _status: SpanStatus) {
    }

    /// Does nothing.
    pub fn add_event(&self, _name: &str) {
    }

    /// There is never a context.
    pub fn current_context(&self) -> (r: Option<TraceContext>)
        ensures
            r is None,
    {
        None
    }

    /// Does nothing.
    pub fn set_context(&self, _ctx: TraceContext) {
    }

    /// Does nothing.
    pub fn clear_context(&self) {
    }

    /// All counters are zero.
    pub fn stats(&self) -> (r: TraceStats)
        ensures
            r == (TraceStats {
                total_spans_written: 0,
                buffer_capacity: 0,
                buffer_used: 0,
                active_spans: 0,
            }),
    {
        TraceStats { total_spans_written: 0, buffer_capacity: 0, buffer_used: 0, active_spans: 0 }
    }

    /// Does nothing.
    pub fn clear(&self) {
    }
}

} // verus!
