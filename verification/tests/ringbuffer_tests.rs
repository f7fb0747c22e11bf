use minios::ids::{SpanId, SpanStatus, TraceId};
use minios::ringbuffer::{RingBuffer, RING_CAPACITY};
use minios::span::Span;

fn default_spans<const N: usize>() -> [Span; N] {
    core::array::from_fn(|_| Span::default())
}

fn make_span(id: u64) -> Span {
    let mut s = Span::default();
    s.span_id = SpanId(id);
    s.trace_id = TraceId(id);
    s
}

#[test]
fn write_and_read_recent() {
    let mut rb = Box::new(RingBuffer::new());
    rb.write(make_span(1));
    rb.write(make_span(2));
    rb.write(make_span(3));

    let mut out = default_spans::<3>();
    let n = rb.read_recent(3, &mut out);
    assert_eq!(n, 3);
    assert_eq!(out[0].span_id, SpanId(1));
    assert_eq!(out[1].span_id, SpanId(2));
    assert_eq!(out[2].span_id, SpanId(3));
}

#[test]
fn read_recent_fewer_than_available() {
    let mut rb = Box::new(RingBuffer::new());
    rb.write(make_span(10));
    rb.write(make_span(20));
    rb.write(make_span(30));

    let mut out = default_spans::<2>();
    let n = rb.read_recent(2, &mut out);
    assert_eq!(n, 2);
    assert_eq!(out[0].span_id, SpanId(20));
    assert_eq!(out[1].span_id, SpanId(30));
}

#[test]
fn read_recent_more_than_available() {
    let mut rb = Box::new(RingBuffer::new());
    rb.write(make_span(1));

    let mut out = default_spans::<4>();
    let n = rb.read_recent(4, &mut out);
    assert_eq!(n, 1);
    assert_eq!(out[0].span_id, SpanId(1));
}

#[test]
fn wrap_around_overwrites_oldest() {
    let mut rb = Box::new(RingBuffer::new());
    for i in 0..(RING_CAPACITY as u64 + 5) {
        rb.write(make_span(i));
    }

    let mut out = default_spans::<3>();
    let n = rb.read_recent(3, &mut out);
    assert_eq!(n, 3);
    let last_id = RING_CAPACITY as u64 + 4;
    assert_eq!(out[2].span_id, SpanId(last_id));
    assert_eq!(out[1].span_id, SpanId(last_id - 1));
    assert_eq!(out[0].span_id, SpanId(last_id - 2));
}

#[test]
fn clear_resets_counters() {
    let mut rb = Box::new(RingBuffer::new());
    rb.write(make_span(1));
    rb.write(make_span(2));

    let (_, used_before, total_before) = rb.stats();
    assert_eq!(used_before, 2);
    assert_eq!(total_before, 2);

    rb.clear();

    let (cap, used, total) = rb.stats();
    assert_eq!(cap, RING_CAPACITY);
    assert_eq!(used, 0);
    assert_eq!(total, 0);
}

#[test]
fn update_span_finds_and_updates() {
    let mut rb = Box::new(RingBuffer::new());
    rb.write(make_span(10));
    rb.write(make_span(20));
    rb.write(make_span(30));

    let found = rb.update_span(SpanId(20), 9999, SpanStatus::Success);
    assert!(found);

    let mut out = default_spans::<3>();
    rb.read_recent(3, &mut out);
    let updated = out.iter().find(|s| s.span_id == SpanId(20)).unwrap();
    assert_eq!(updated.end_tsc, 9999);
    assert_eq!(updated.status, SpanStatus::Success);
}

#[test]
fn update_span_not_found() {
    let mut rb = Box::new(RingBuffer::new());
    rb.write(make_span(1));
    let found = rb.update_span(SpanId(999), 100, SpanStatus::Error);
    assert!(!found);
}

#[test]
fn stats_accuracy() {
    let mut rb = Box::new(RingBuffer::new());
    let (cap, used, total) = rb.stats();
    assert_eq!(cap, RING_CAPACITY);
    assert_eq!(used, 0);
    assert_eq!(total, 0);

    for i in 0..10u64 {
        rb.write(make_span(i));
    }
    let (cap, used, total) = rb.stats();
    assert_eq!(cap, RING_CAPACITY);
    assert_eq!(used, 10);
    assert_eq!(total, 10);
}

#[test]
fn stats_after_wrap() {
    let mut rb = Box::new(RingBuffer::new());
    let count = RING_CAPACITY + 50;
    for i in 0..count as u64 {
        rb.write(make_span(i));
    }
    let (cap, used, total) = rb.stats();
    assert_eq!(cap, RING_CAPACITY);
    assert_eq!(used, RING_CAPACITY);
    assert_eq!(total, count as u64);
}

#[test]
fn empty_read() {
    let rb = Box::new(RingBuffer::new());
    let mut out = default_spans::<2>();
    let n = rb.read_recent(2, &mut out);
    assert_eq!(n, 0);
}

// Further checks of the buffer's contract.

#[test]
fn newest_write_reads_back_first_of_one() {
    let mut rb = RingBuffer::new();
    for i in 0..7u64 {
        rb.write(make_span(i));
    }
    let mut out = default_spans::<1>();
    assert_eq!(rb.read_recent(1, &mut out), 1);
    assert_eq!(out[0].span_id, SpanId(6));
}

#[test]
fn read_recent_limited_by_out_len_leaves_rest() {
    let mut rb = RingBuffer::new();
    for i in 1..=5u64 {
        rb.write(make_span(i));
    }
    let mut out = default_spans::<2>();
    out[1].pid = 77;
    let n = rb.read_recent(1, &mut out);
    assert_eq!(n, 1);
    assert_eq!(out[0].span_id, SpanId(5));
    assert_eq!(out[1].pid, 77);
}

#[test]
fn update_span_updates_newest_duplicate_only() {
    let mut rb = RingBuffer::new();
    rb.write(make_span(4));
    rb.write(make_span(4));
    assert!(rb.update_span(SpanId(4), 55, SpanStatus::Error));
    let mut out = default_spans::<2>();
    rb.read_recent(2, &mut out);
    assert_eq!(out[0].end_tsc, 0);
    assert_eq!(out[0].status, SpanStatus::InProgress);
    assert_eq!(out[1].end_tsc, 55);
    assert_eq!(out[1].status, SpanStatus::Error);
}

#[test]
fn overwritten_span_cannot_be_updated() {
    let mut rb = Box::new(RingBuffer::new());
    for i in 0..(RING_CAPACITY as u64 + 1) {
        rb.write(make_span(i));
    }
    assert!(!rb.update_span(SpanId(0), 1, SpanStatus::Success));
    assert!(rb.update_span(SpanId(1), 1, SpanStatus::Success));
}
