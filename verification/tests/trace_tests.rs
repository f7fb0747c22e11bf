use minios::engine::TraceEngine;
use minios::export::{export_json, status_str, write_escaped};
use minios::ids::{SpanId, SpanStatus, TraceContext, TraceId, TraceStats};
use minios::null::NullTracer;
use minios::ringbuffer::RING_CAPACITY;
use minios::span::Span;

fn spans<const N: usize>() -> [Span; N] {
    core::array::from_fn(|_| Span::default())
}

#[test]
fn span_new_copies_and_cuts_names() {
    let long = "n".repeat(70);
    let s = Span::new(&long, "memory", TraceId(1), SpanId(2), Some(SpanId(9)), 3, 4, 500);
    assert_eq!(s.name_len, 64);
    assert_eq!(s.name_str(), &long[..64]);
    assert_eq!(s.module_str(), "memory");
    assert_eq!(s.parent_span_id, Some(SpanId(9)));
    assert_eq!((s.pid, s.depth, s.start_tsc, s.end_tsc), (3, 4, 500, 0));
    assert_eq!(s.status, SpanStatus::InProgress);
}

#[test]
fn span_cut_inside_character_is_invalid() {
    let name = format!("{}é", "a".repeat(63));
    let s = Span::new(&name, "m", TraceId(0), SpanId(0), None, 0, 0, 0);
    assert_eq!(s.name_str(), "<invalid>");
}

#[test]
fn engine_nests_spans() {
    let mut e = Box::new(TraceEngine::new());
    let outer = e.begin_span("outer", "shell", 10);
    let inner = e.begin_span("inner", "fs", 20);
    assert_eq!(outer, SpanId(1));
    assert_eq!(inner, SpanId(2));
    let ctx = e.current_context().unwrap();
    assert_eq!(ctx, TraceContext { trace_id: TraceId(1), current_span_id: inner, depth: 1 });
    let mut out = spans::<2>();
    assert_eq!(e.read_recent(2, &mut out), 2);
    assert_eq!(out[1].parent_span_id, Some(outer));
    assert_eq!(out[1].trace_id, out[0].trace_id);
    assert_eq!(out[0].parent_span_id, None);
    assert_eq!(out[1].depth, 1);

    e.end_span(inner, SpanStatus::Success, 30);
    assert_eq!(e.current_context().unwrap().current_span_id, outer);
    e.end_span(outer, SpanStatus::Error, 40);
    assert!(e.current_context().is_none());
    e.read_recent(2, &mut out);
    assert_eq!((out[0].end_tsc, out[0].status), (40, SpanStatus::Error));
    assert_eq!((out[1].end_tsc, out[1].status), (30, SpanStatus::Success));

    let second = e.begin_span("again", "shell", 50);
    let mut one = spans::<1>();
    e.read_recent(1, &mut one);
    assert_eq!(one[0].span_id, second);
    assert_eq!(one[0].trace_id, TraceId(2));
}

#[test]
fn engine_events_and_stats() {
    let mut e = Box::new(TraceEngine::new());
    e.add_event("page_fault", 7, 8);
    let mut one = spans::<1>();
    e.read_recent(1, &mut one);
    assert_eq!(one[0].module_str(), "event");
    assert_eq!(one[0].status, SpanStatus::Success);
    assert_eq!((one[0].start_tsc, one[0].end_tsc), (8, 7));
    assert!(e.current_context().is_none());
    let st = e.stats();
    assert_eq!(st, TraceStats { total_spans_written: 1, buffer_capacity: RING_CAPACITY, buffer_used: 1, active_spans: 0 });
    e.set_context(TraceContext { trace_id: TraceId(9), current_span_id: SpanId(9), depth: 2 });
    e.add_event("child", 1, 1);
    e.read_recent(1, &mut one);
    assert_eq!((one[0].trace_id, one[0].parent_span_id, one[0].depth), (TraceId(9), Some(SpanId(9)), 3));
    e.clear_context();
    assert!(e.current_context().is_none());
    e.clear();
    assert_eq!(e.stats().total_spans_written, 0);
    assert_eq!(e.read_recent(1, &mut one), 0);
}

#[test]
fn null_tracer_does_nothing() {
    let t = NullTracer;
    assert_eq!(t.begin_span("a", "b"), SpanId(0));
    t.end_span(SpanId(0), SpanStatus::Success);
    t.add_event("x");
    t.set_context(TraceContext { trace_id: TraceId(1), current_span_id: SpanId(1), depth: 0 });
    assert!(t.current_context().is_none());
    t.clear_context();
    t.clear();
    assert_eq!(t.stats(), TraceStats { total_spans_written: 0, buffer_capacity: 0, buffer_used: 0, active_spans: 0 });
}

#[test]
fn json_export_exact() {
    let mut s = Span::new("a\"b\\c", "fs", TraceId(12), SpanId(345), None, 7, 2, 100);
    s.end_tsc = 150;
    s.status = SpanStatus::Success;
    let mut t = Span::new("x", "y", TraceId(1), SpanId(2), Some(SpanId(1)), 0, 0, 0);
    t.status = SpanStatus::Error;
    let out = String::from_utf8(export_json(&[s, t])).unwrap();
    assert_eq!(
        out,
        "[{\"trace_id\":\"12\",\"span_id\":\"345\",\"parent_span_id\":null,\"name\":\"a\\\"b\\\\c\",\"module\":\"fs\",\"start_tsc\":100,\"end_tsc\":150,\"status\":\"ok\",\"pid\":7,\"depth\":2},\
{\"trace_id\":\"1\",\"span_id\":\"2\",\"parent_span_id\":\"1\",\"name\":\"x\",\"module\":\"y\",\"start_tsc\":0,\"end_tsc\":0,\"status\":\"error\",\"pid\":0,\"depth\":0}]"
    );
    assert_eq!(String::from_utf8(export_json(&[])).unwrap(), "[]");
}

#[test]
fn json_helpers() {
    let mut v = Vec::new();
    write_escaped(&mut v, "plain é");
    assert_eq!(v, "plain é".as_bytes());
    assert_eq!(status_str(SpanStatus::InProgress), "in_progress");
    assert_eq!(status_str(SpanStatus::Success), "ok");
}
