use minios::context::{clear, current, pop, push, TraceContextStack, MAX_DEPTH};
use minios::ids::{SpanId, TraceContext, TraceId};

fn make_ctx(trace: u64, span: u64, depth: u16) -> TraceContext {
    TraceContext {
        trace_id: TraceId(trace),
        current_span_id: SpanId(span),
        depth,
    }
}

#[test]
fn push_and_current() {
    let mut stack = TraceContextStack::new();
    clear(&mut stack);
    assert!(current(&stack).is_none());
    push(&mut stack, make_ctx(1, 10, 0));
    let c = current(&stack).unwrap();
    assert_eq!(c.trace_id, TraceId(1));
    assert_eq!(c.current_span_id, SpanId(10));
    clear(&mut stack);
}

#[test]
fn push_pop_lifo() {
    let mut stack = TraceContextStack::new();
    clear(&mut stack);
    push(&mut stack, make_ctx(1, 1, 0));
    push(&mut stack, make_ctx(2, 2, 1));
    let top = pop(&mut stack).unwrap();
    assert_eq!(top.trace_id, TraceId(2));
    let next = pop(&mut stack).unwrap();
    assert_eq!(next.trace_id, TraceId(1));
    assert!(pop(&mut stack).is_none());
    clear(&mut stack);
}

#[test]
fn pop_empty_returns_none() {
    let mut stack = TraceContextStack::new();
    clear(&mut stack);
    assert!(pop(&mut stack).is_none());
}

#[test]
fn clear_empties_stack() {
    let mut stack = TraceContextStack::new();
    clear(&mut stack);
    push(&mut stack, make_ctx(1, 1, 0));
    push(&mut stack, make_ctx(2, 2, 1));
    clear(&mut stack);
    assert!(current(&stack).is_none());
    assert!(pop(&mut stack).is_none());
}

#[test]
fn push_returns_false_at_max_depth() {
    let mut stack = TraceContextStack::new();
    clear(&mut stack);
    for i in 0..MAX_DEPTH {
        assert!(push(&mut stack, make_ctx(i as u64, i as u64, i as u16)));
    }
    assert!(!push(&mut stack, make_ctx(999, 999, 99)));
    clear(&mut stack);
}

#[test]
fn full_stack_keeps_its_top() {
    let mut stack = TraceContextStack::new();
    for i in 0..MAX_DEPTH {
        push(&mut stack, make_ctx(i as u64, i as u64, i as u16));
    }
    push(&mut stack, make_ctx(999, 999, 99));
    assert_eq!(current(&stack), Some(make_ctx(63, 63, 63)));
    assert_eq!(pop(&mut stack), Some(make_ctx(63, 63, 63)));
    assert!(push(&mut stack, make_ctx(5, 5, 5)));
    assert_eq!(current(&stack), Some(make_ctx(5, 5, 5)));
}
