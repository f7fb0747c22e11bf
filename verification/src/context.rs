//! Trace context stack.
//!
//! Maintains a stack of [`TraceContext`] values so that nested spans can
//! discover their parent trace and span IDs.

use crate::ids::TraceContext;
use vstd::prelude::*;

verus! {

/// Maximum nesting depth for trace contexts.
pub const MAX_DEPTH: usize = 64;

/// Fixed-capacity stack of [`TraceContext`] frames.
pub struct TraceContextStack {
    /// Inline storage for context frames.
    entries: [Option<TraceContext>; 64],
    /// Number of frames currently on the stack.
    len: usize,
}

impl TraceContextStack {
    /// Well-formedness: at most [`MAX_DEPTH`] frames, each slot below the
    /// top holding a frame.
    pub closed spec fn wf(&self) -> bool {
        &&& self.len <= MAX_DEPTH
        &&& forall|i: int| 0 <= i < self.len ==> (#[trigger] self.entries@[i]) is Some
    }

    /// The frames on the stack, bottom first.
    pub closed spec fn frames(&self) -> Seq<TraceContext> {
        Seq::new(self.len as nat, |i: int| self.entries@[i]->Some_0)
    }

    /// Creates an empty context stack.
    pub fn new() -> (r: Self)
        ensures
            r.wf(),
            r.frames() == Seq::<TraceContext>::empty(),
    {
        let r = Self { entries: [None; 64], len: 0 };
        assert(r.frames() =~= Seq::<TraceContext>::empty());
        r
    }
}

/// Pushes a trace context onto the stack.
///
/// Returns `false`, leaving the stack unchanged, if the stack is full.
pub fn push(stack: &mut TraceContextStack, ctx: TraceContext) -> (r: bool)
    requires
        old(stack).wf(),
    ensures
        final(stack).wf(),
        r == (old(stack).frames().len() < MAX_DEPTH),
        r ==> final(stack).frames() == old(stack).frames().push(ctx),
        !r ==> final(stack).frames() == old(stack).frames(),
{
    if stack.len >= MAX_DEPTH {
        return false;
    }
    let ghost before = stack.frames();
    let idx = stack.len;
    stack.entries[idx] = Some(ctx);
    stack.len = stack.len + 1;
    assert(stack.frames() =~= before.push(ctx));
    true
}

/// Pops the most recent trace context from the stack.
pub fn pop(stack: &mut TraceContextStack) -> (r: Option<TraceContext>)
    requires
        old(stack).wf(),
    ensures
        final(stack).wf(),
        old(stack).frames().len() == 0 ==> r is None && final(stack).frames() == old(
            stack,
        ).frames(),
        old(stack).frames().len() > 0 ==> r == Some(old(stack).frames().last())
            && final(stack).frames() == old(stack).frames().drop_last(),
{
    if stack.len == 0 {
        return None;
    }
    let ghost before = stack.frames();
    stack.len = stack.len - 1;
    let idx = stack.len;
    let top = stack.entries[idx];
    stack.entries[idx] = None;
    assert(stack.frames() =~= before.drop_last());
    top
}

/// Returns a copy of the current (top-of-stack) trace context without
/// removing it.
pub fn current(stack: &TraceContextStack) -> (r: Option<TraceContext>)
    requires
        stack.wf(),
    ensures
        stack.frames().len() == 0 ==> r is None,
        stack.frames().len() > 0 ==> r == Some(stack.frames().last()),
{
    if stack.len == 0 {
        None
    } else {
        stack.entries[stack.len - 1]
    }
}

/// Clears all entries from the context stack.
pub fn clear(stack: &mut TraceContextStack)
    requires
        old(stack).wf(),
    ensures
        final(stack).wf(),
        final(stack).frames() == Seq::<TraceContext>::empty(),
{
    stack.len = 0;
    assert(stack.frames() =~= Seq::<TraceContext>::empty());
}

/// Last in, first out: pushing a context onto a stack with room and then
/// popping gives that context back and leaves the earlier frames as they
/// were; the current context after the push is the pushed one.
pub proof fn law_push_pop_lifo(frames: Seq<TraceContext>, ctx: TraceContext)
    requires
        frames.len() < MAX_DEPTH,
    ensures
        frames.push(ctx).len() <= MAX_DEPTH,
        frames.push(ctx).last() == ctx,
        frames.push(ctx).drop_last() == frames,
{
    assert(frames.push(ctx).drop_last() =~= frames);
}

} // verus!
