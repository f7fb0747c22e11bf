//! Learning journey — tracks which exploration steps are complete.

use vstd::prelude::*;

verus! {

// Chapter 1: First Steps
pub const STEP_HELP: u32 = 0;
pub const STEP_PS: u32 = 1;
pub const STEP_MEMINFO: u32 = 2;
pub const STEP_LS: u32 = 3;
pub const STEP_UPTIME: u32 = 4;

// Chapter 2: Understanding the Internals
pub const STEP_EXPLAIN: u32 = 5;
pub const STEP_CAT_PROC: u32 = 6;
pub const STEP_TRACE_FOLLOW: u32 = 7;
pub const STEP_PAGETABLE: u32 = 8;

// Chapter 3: Experiments
pub const STEP_LAB: u32 = 9;
pub const STEP_CRASH: u32 = 10;
pub const STEP_COMPARE: u32 = 11;
pub const STEP_FRAMES: u32 = 12;

// Chapter 4: Building & Combining
pub const STEP_SPAWN: u32 = 13;
pub const STEP_RUN: u32 = 14;
pub const STEP_GREP: u32 = 15;
pub const STEP_TRACE_STATS: u32 = 16;

/// Number of journey steps.
pub const TOTAL_STEPS: u32 = 17;

/// Bit `step` of `bits` is set.
pub open spec fn bit_set(bits: u32, step: u32) -> bool {
    bits & (1u32 << step) != 0
}

/// Number of steps in `steps` whose bit is set in `bits`.
pub open spec fn count_done(bits: u32, steps: Seq<u32>) -> nat
    decreases steps.len(),
{
    if steps.len() == 0 {
        0
    } else {
        count_done(bits, steps.drop_last()) + if bit_set(bits, steps.last()) {
            1nat
        } else {
            0nat
        }
    }
}

/// The steps `0..n`.
pub open spec fn first_steps(n: nat) -> Seq<u32> {
    Seq::new(n, |i: int| i as u32)
}

/// Bitmap of completed journey steps (up to 32 steps).
pub struct Journey {
    completed: u32,
}

/// Which closing message the graduation report shows.
#[derive(Clone, Copy, PartialEq, Eq, Structural, Debug)]
pub enum GraduationStage {
    /// Under half of the steps are done.
    KeepExploring,
    /// At least half, but not all, of the steps are done.
    GreatProgress,
    /// Every step is done.
    Complete,
}

impl Journey {
    /// The completion bitmap.
    pub closed spec fn bits(&self) -> u32 {
        self.completed
    }

    /// Step `step` is complete.
    pub open spec fn done(&self, step: u32) -> bool {
        bit_set(self.bits(), step)
    }

    /// A journey with no step complete.
    pub fn new() -> (r: Self)
        ensures
            r.bits() == 0,
    {
        Journey { completed: 0 }
    }
}

/// Marks a journey step as complete.
pub fn mark(journey: &mut Journey, step: u32)
    requires
        step < 32,
    ensures
        final(journey).bits() == old(journey).bits() | (1u32 << step),
{
    journey.completed = journey.completed | (1u32 << step);
}

/// Whether step `step` is complete.
pub fn is_done(journey: &Journey, step: u32) -> (r: bool)
    requires
        step < 32,
    ensures
        r == journey.done(step),
{
    journey.completed & (1u32 << step) != 0
}

/// `(done, total)` for the steps of one chapter.
pub fn chapter_progress(journey: &Journey, steps: &[u32]) -> (r: (usize, usize))
    requires
        forall|i: int| 0 <= i < steps@.len() ==> #[trigger] steps@[i] < 32,
    ensures
        r.0 == count_done(journey.bits(), steps@),
        r.1 == steps@.len(),
{
    let mut done: usize = 0;
    let mut i: usize = 0;
    while i < steps.len()
        invariant
            0 <= i <= steps@.len(),
            forall|k: int| 0 <= k < steps@.len() ==> #[trigger] steps@[k] < 32,
            done == count_done(journey.bits(), steps@.take(i as int)),
            done <= i,
        decreases steps@.len() - i,
    {
        assert(steps@.take(i + 1).drop_last() =~= steps@.take(i as int));
        if is_done(journey, steps[i]) {
            done = done + 1;
        }
        i = i + 1;
    }
    assert(steps@.take(steps@.len() as int) =~= steps@);
    (done, steps.len())
}

/// The marker shown in front of a step: done or not yet.
pub fn step_marker(journey: &Journey, step: u32) -> (r: &'static str)
    requires
        step < 32,
    ensures
        journey.done(step) ==> r == "[x]",
        !journey.done(step) ==> r == "[ ]",
{
    if is_done(journey, step) {
        "[x]"
    } else {
        "[ ]"
    }
}

/// Number of completed steps among the [`TOTAL_STEPS`] journey steps.
pub fn completed_count(journey: &Journey) -> (r: usize)
    ensures
        r == count_done(journey.bits(), first_steps(TOTAL_STEPS as nat)),
        r <= TOTAL_STEPS,
{
    let mut done: usize = 0;
    let mut i: u32 = 0;
    while i < TOTAL_STEPS
        invariant
            0 <= i <= TOTAL_STEPS,
            done <= i,
            done == count_done(journey.bits(), first_steps(i as nat)),
        decreases TOTAL_STEPS - i,
    {
        assert(first_steps((i + 1) as nat).drop_last() =~= first_steps(i as nat));
        if is_done(journey, i) {
            done = done + 1;
        }
        i = i + 1;
    }
    done
}

/// Percentage of the journey completed, rounded down.
pub fn percent_complete(journey: &Journey) -> (r: usize)
    ensures
        r == count_done(journey.bits(), first_steps(TOTAL_STEPS as nat)) * 100 / (TOTAL_STEPS as nat),
        r <= 100,
{
    let done = completed_count(journey);
    done * 100 / 17
}

/// The first step that is not complete, if any.
pub fn next_step(journey: &Journey) -> (r: Option<u32>)
    ensures
        match r {
            Some(s) => s < TOTAL_STEPS && !journey.done(s) && forall|t: u32| t < s ==> journey.done(t),
            None => forall|t: u32| t < TOTAL_STEPS ==> journey.done(t),
        },
{
    let mut i: u32 = 0;
    while i < TOTAL_STEPS
        invariant
            0 <= i <= TOTAL_STEPS,
            forall|t: u32| t < i ==> journey.done(t),
        decreases TOTAL_STEPS - i,
    {
        if !is_done(journey, i) {
            return Some(i);
        }
        i = i + 1;
    }
    None
}

/// The suggestion for each step (empty past the last step).
pub open spec fn hint_for(step: u32) -> &'static str {
    if step == 0 {
        "Try: help"
    } else if step == 1 {
        "Try: ps"
    } else if step == 2 {
        "Try: meminfo"
    } else if step == 3 {
        "Try: ls /"
    } else if step == 4 {
        "Try: uptime"
    } else if step == 5 {
        "Try: explain ls"
    } else if step == 6 {
        "Try: cat /proc/uptime"
    } else if step == 7 {
        "Try: trace follow ls /"
    } else if step == 8 {
        "Try: pagetable 0x4444_4444_0000"
    } else if step == 9 {
        "Try: lab scheduler-fairness"
    } else if step == 10 {
        "Try: crash oom"
    } else if step == 11 {
        "Try: compare scheduler"
    } else if step == 12 {
        "Try: frames"
    } else if step == 13 {
        "Try: spawn worker"
    } else if step == 14 {
        "Try: run /etc/init.sh"
    } else if step == 15 {
        "Try: grep <pattern> <file>"
    } else if step == 16 {
        "Try: trace stats"
    } else {
        ""
    }
}

/// The suggestion shown for the next step.
pub fn step_hint(step: u32) -> (r: &'static str)
    ensures
        r == hint_for(step),
{
    match step {
        0 => "Try: help",
        1 => "Try: ps",
        2 => "Try: meminfo",
        3 => "Try: ls /",
        4 => "Try: uptime",
        5 => "Try: explain ls",
        6 => "Try: cat /proc/uptime",
        7 => "Try: trace follow ls /",
        8 => "Try: pagetable 0x4444_4444_0000",
        9 => "Try: lab scheduler-fairness",
        10 => "Try: crash oom",
        11 => "Try: compare scheduler",
        12 => "Try: frames",
        13 => "Try: spawn worker",
        14 => "Try: run /etc/init.sh",
        15 => "Try: grep <pattern> <file>",
        16 => "Try: trace stats",
        _ => "",
    }
}

/// Which graduation message applies: under 50% keep exploring, under
/// 100% great progress, else complete.
pub fn graduation_stage(journey: &Journey) -> (r: GraduationStage)
    ensures
        ({
            let pct = count_done(journey.bits(), first_steps(TOTAL_STEPS as nat)) * 100
                / (TOTAL_STEPS as nat);
            &&& pct < 50 ==> r == GraduationStage::KeepExploring
            &&& 50 <= pct < 100 ==> r == GraduationStage::GreatProgress
            &&& pct >= 100 ==> r == GraduationStage::Complete
        }),
{
    let pct = percent_complete(journey);
    if pct < 50 {
        GraduationStage::KeepExploring
    } else if pct < 100 {
        GraduationStage::GreatProgress
    } else {
        GraduationStage::Complete
    }
}

/// Among the first `n` steps, at most `n` are done, and all `n` are done
/// exactly when each of them is.
proof fn lemma_count_done_all(bits: u32, n: nat)
    requires
        n <= 32,
    ensures
        count_done(bits, first_steps(n)) <= n,
        count_done(bits, first_steps(n)) == n <==> forall|t: u32| t < n ==> bit_set(bits, t),
    decreases n,
{
    if n > 0 {
        let k = (n - 1) as nat;
        assert(first_steps(n).drop_last() =~= first_steps(k));
        assert(first_steps(n).last() == k as u32);
        lemma_count_done_all(bits, k);
        if count_done(bits, first_steps(n)) == n {
            assert forall|t: u32| t < n implies bit_set(bits, t) by {
                if t < k {
                } else {
                    assert(t == k as u32);
                }
            }
        }
        if forall|t: u32| t < n ==> bit_set(bits, t) {
            assert(bit_set(bits, k as u32));
            assert forall|t: u32| t < k implies bit_set(bits, t) by {
                assert(t < n);
            }
        }
    }
}

/// The completed count reaches [`TOTAL_STEPS`] exactly when every step is
/// done, which is exactly when [`next_step`] has no step left to suggest.
pub proof fn law_complete_iff_no_next_step(journey: Journey)
    ensures
        count_done(journey.bits(), first_steps(TOTAL_STEPS as nat)) <= TOTAL_STEPS,
        count_done(journey.bits(), first_steps(TOTAL_STEPS as nat)) == TOTAL_STEPS <==> forall|
            t: u32,
        | t < TOTAL_STEPS ==> journey.done(t),
{
    let n = TOTAL_STEPS as nat;
    lemma_count_done_all(journey.bits(), n);
    if forall|t: u32| t < TOTAL_STEPS ==> #[trigger] journey.done(t) {
        assert forall|t: u32| t < n implies bit_set(journey.bits(), t) by {
            assert(journey.done(t));
        }
    }
    if count_done(journey.bits(), first_steps(n)) == n {
        assert forall|t: u32| t < TOTAL_STEPS implies #[trigger] journey.done(t) by {
            assert(bit_set(journey.bits(), t));
        }
    }
}

/// Marking a step makes it complete, leaves every other step as it was,
/// and marking it again changes nothing.
pub proof fn law_mark_sets_only_that_step(bits: u32, step: u32, other: u32)
    requires
        step < 32,
        other < 32,
        other != step,
    ensures
        bit_set(bits | (1u32 << step), step),
        bit_set(bits | (1u32 << step), other) == bit_set(bits, other),
        (bits | (1u32 << step)) | (1u32 << step) == bits | (1u32 << step),
{
    assert(bit_set(bits | (1u32 << step), step)) by (bit_vector)
        requires
            step < 32,
    ;
    assert(bit_set(bits | (1u32 << step), other) == bit_set(bits, other)) by (bit_vector)
        requires
            step < 32,
            other < 32,
            other != step,
    ;
    assert((bits | (1u32 << step)) | (1u32 << step) == bits | (1u32 << step)) by (bit_vector);
}

} // verus!
