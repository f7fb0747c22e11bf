//! Span data structure representing a single traced operation.

use crate::ids::{SpanId, SpanStatus, TraceId};
use crate::utf8text::str_from_utf8;
use vstd::prelude::*;
use vstd::slice::slice_subrange;
use vstd::string::StringSliceAdditionalSpecFns;
use vstd::utf8::valid_utf8;

verus! {

/// Maximum length of a span name in bytes.
pub const MAX_NAME_LEN: usize = 64;

/// Maximum length of a module name in bytes.
pub const MAX_MODULE_LEN: usize = 32;

/// The first `min(b.len(), cap)` bytes of `b`.
pub open spec fn truncate(b: Seq<u8>, cap: nat) -> Seq<u8> {
    if b.len() <= cap {
        b
    } else {
        b.take(cap as int)
    }
}

/// `b` truncated to `cap` bytes and padded with zero bytes up to `cap`.
pub open spec fn padded(b: Seq<u8>, cap: nat) -> Seq<u8> {
    truncate(b, cap) + Seq::new((cap - truncate(b, cap).len()) as nat, |i: int| 0u8)
}

/// A single trace span stored in the ring buffer.
///
/// Uses fixed-size arrays to avoid heap allocation. Names are stored as
/// UTF-8 byte slices with an accompanying length field.
#[derive(Clone, Copy)]
pub struct Span {
    /// Trace this span belongs to.
    pub trace_id: TraceId,
    /// Unique identifier for this span.
    pub span_id: SpanId,
    /// Parent span, if any.
    pub parent_span_id: Option<SpanId>,
    /// UTF-8 name bytes (fixed buffer).
    pub name: [u8; 64],
    /// Actual length of the name.
    pub name_len: usize,
    /// UTF-8 module name bytes (fixed buffer).
    pub module: [u8; 32],
    /// Actual length of the module name.
    pub module_len: usize,
    /// TSC timestamp when the span started.
    pub start_tsc: u64,
    /// TSC timestamp when the span ended (0 while in progress).
    pub end_tsc: u64,
    /// Current completion status.
    pub status: SpanStatus,
    /// Process that owns this span.
    pub pid: u32,
    /// Nesting depth within the current trace.
    pub depth: u16,
}

/// Copies the first `min(src.len(), N)` bytes of `src` into a zeroed array.
fn fill_bytes<const N: usize>(src: &[u8]) -> (r: ([u8; N], usize))
    ensures
        r.1 as int == truncate(src@, N as nat).len(),
        r.0@ == padded(src@, N as nat),
{
    let mut buf = [0u8; N];
    let n = if src.len() < N {
        src.len()
    } else {
        N
    };
    let mut i: usize = 0;
    while i < n
        invariant
            n <= N,
            n <= src@.len(),
            n == truncate(src@, N as nat).len(),
            0 <= i <= n,
            buf@.len() == N,
            forall|k: int| 0 <= k < i ==> buf@[k] == src@[k],
            forall|k: int| i <= k < N ==> buf@[k] == 0u8,
        decreases n - i,
    {
        buf[i] = src[i];
        i = i + 1;
    }
    assert(buf@ =~= padded(src@, N as nat));
    (buf, n)
}

impl Span {
    /// The bytes of the span's name.
    pub open spec fn name_bytes(&self) -> Seq<u8> {
        self.name@.take(self.name_len as int)
    }

    /// The bytes of the span's module name.
    pub open spec fn module_bytes(&self) -> Seq<u8> {
        self.module@.take(self.module_len as int)
    }

    /// The bytes [`Span::name_str`] gives: the name, or `<invalid>` when the
    /// name is not valid UTF-8.
    pub open spec fn name_text(&self) -> Seq<u8> {
        if valid_utf8(self.name_bytes()) {
            self.name_bytes()
        } else {
            "<invalid>".spec_bytes()
        }
    }

    /// The bytes [`Span::module_str`] gives.
    pub open spec fn module_text(&self) -> Seq<u8> {
        if valid_utf8(self.module_bytes()) {
            self.module_bytes()
        } else {
            "<invalid>".spec_bytes()
        }
    }

    /// The lengths fit their buffers.
    pub open spec fn well_formed(&self) -> bool {
        self.name_len <= MAX_NAME_LEN && self.module_len <= MAX_MODULE_LEN
    }

    /// Creates a new span with the given metadata, started at `start_tsc`.
    ///
    /// Names longer than their buffers are cut to [`MAX_NAME_LEN`] and
    /// [`MAX_MODULE_LEN`] bytes.
    pub fn new(
        name: &str,
        module: &str,
        trace_id: TraceId,
        span_id: SpanId,
        parent: Option<SpanId>,
        pid: u32,
        depth: u16,
        start_tsc: u64,
    ) -> (r: Self)
        ensures
            r.well_formed(),
            r.name@ == padded(name.spec_bytes(), MAX_NAME_LEN as nat),
            r.name_bytes() == truncate(name.spec_bytes(), MAX_NAME_LEN as nat),
            r.module@ == padded(module.spec_bytes(), MAX_MODULE_LEN as nat),
            r.module_bytes() == truncate(module.spec_bytes(), MAX_MODULE_LEN as nat),
            r.trace_id == trace_id,
            r.span_id == span_id,
            r.parent_span_id == parent,
            r.start_tsc == start_tsc,
            r.end_tsc == 0,
            r.status == SpanStatus::InProgress,
            r.pid == pid,
            r.depth == depth,
    {
        let (name_buf, n) = fill_bytes::<64>(name.as_bytes());
        let (module_buf, m) = fill_bytes::<32>(module.as_bytes());
        let r = Span {
            trace_id,
            span_id,
            parent_span_id: parent,
            name: name_buf,
            name_len: n,
            module: module_buf,
            module_len: m,
            start_tsc,
            end_tsc: 0,
            status: SpanStatus::InProgress,
            pid,
            depth,
        };
        assert(r.name_bytes() =~= truncate(name.spec_bytes(), MAX_NAME_LEN as nat));
        assert(r.module_bytes() =~= truncate(module.spec_bytes(), MAX_MODULE_LEN as nat));
        r
    }

    /// The value [`Span::default`] returns.
    pub open spec fn empty() -> Span {
        Span {
            trace_id: TraceId(0),
            span_id: SpanId(0),
            parent_span_id: None,
            name: vstd::array::spec_array_fill_for_copy_type::<u8, 64>(0u8),
            name_len: 0,
            module: vstd::array::spec_array_fill_for_copy_type::<u8, 32>(0u8),
            module_len: 0,
            start_tsc: 0,
            end_tsc: 0,
            status: SpanStatus::InProgress,
            pid: 0,
            depth: 0,
        }
    }

    /// Returns the span name as a `&str`, or `"<invalid>"` when the stored
    /// bytes are not valid UTF-8 (a cut may split a character).
    pub fn name_str(&self) -> (r: &str)
        requires
            self.well_formed(),
        ensures
            r.spec_bytes() == self.name_text(),
    {
        let bytes = slice_subrange(self.name.as_slice(), 0, self.name_len);
        assert(bytes@ =~= self.name_bytes());
        match str_from_utf8(bytes) {
            Some(s) => s,
            None => "<invalid>",
        }
    }

    /// Returns the module name as a `&str`, or `"<invalid>"` when the stored
    /// bytes are not valid UTF-8.
    pub fn module_str(&self) -> (r: &str)
        requires
            self.well_formed(),
        ensures
            r.spec_bytes() == self.module_text(),
    {
        let bytes = slice_subrange(self.module.as_slice(), 0, self.module_len);
        assert(bytes@ =~= self.module_bytes());
        match str_from_utf8(bytes) {
            Some(s) => s,
            None => "<invalid>",
        }
    }
}

impl Default for Span {
    /// An empty span: zero ids, no parent, empty names, in progress.
    fn default() -> (r: Self)
        ensures
            r == Span::empty(),
    {
        Span {
            trace_id: TraceId(0),
            span_id: SpanId(0),
            parent_span_id: None,
            name: [0u8; 64],
            name_len: 0,
            module: [0u8; 32],
            module_len: 0,
            start_tsc: 0,
            end_tsc: 0,
            status: SpanStatus::InProgress,
            pid: 0,
            depth: 0,
        }
    }

}

} // verus!
