//! How commands read their arguments: counts, sizes, priorities and
//! addresses.

use crate::numparse::{all_digits, decimal_value, is_digit_byte, parse_u32, parse_usize};
use vstd::prelude::*;
use vstd::string::{StringExecFns, StringSliceAdditionalSpecFns};

verus! {

/// The decimal value of the digits in `s`, other bytes skipped.
pub open spec fn lenient_value(s: Seq<u8>) -> nat
    decreases s.len(),
{
    if s.len() == 0 {
        0
    } else if is_digit_byte(s.last()) {
        lenient_value(s.drop_last()) * 10 + (s.last() - 48) as nat
    } else {
        lenient_value(s.drop_last())
    }
}

proof fn lemma_lenient_prefix_monotone(s: Seq<u8>, i: int, j: int)
    requires
        0 <= i <= j <= s.len(),
    ensures
        lenient_value(s.take(i)) <= lenient_value(s.take(j)),
    decreases j - i,
{
    if i < j {
        lemma_lenient_prefix_monotone(s, i, j - 1);
        assert(s.take(j).drop_last() =~= s.take(j - 1));
    }
}

/// Reads the digits of `s`, skipping any other byte; `None` when the value
/// does not fit in a `u64` (where plain arithmetic would overflow).
pub fn lenient_u64(s: &str) -> (r: Option<u64>)
    ensures
        r is Some <==> lenient_value(s.spec_bytes()) <= u64::MAX,
        r matches Some(v) ==> v == lenient_value(s.spec_bytes()),
{
    let b = s.as_bytes();
    let mut acc: u64 = 0;
    let mut i: usize = 0;
    while i < b.len()
        invariant
            b@ == s.spec_bytes(),
            0 <= i <= b@.len(),
            acc == lenient_value(b@.take(i as int)),
        decreases b@.len() - i,
    {
        assert(b@.take(i + 1).drop_last() =~= b@.take(i as int));
        let c = b[i];
        if c >= 48 && c <= 57 {
            let m = acc.checked_mul(10);
            if m.is_none() {
                proof {
                    lemma_lenient_prefix_monotone(b@, i + 1, b@.len() as int);
                    assert(b@.take(b@.len() as int) =~= b@);
                }
                return None;
            }
            let a = m.unwrap().checked_add((c - 48) as u64);
            if a.is_none() {
                proof {
                    lemma_lenient_prefix_monotone(b@, i + 1, b@.len() as int);
                    assert(b@.take(b@.len() as int) =~= b@);
                }
                return None;
            }
            acc = a.unwrap();
        }
        i = i + 1;
    }
    assert(b@.take(b@.len() as int) =~= b@);
    Some(acc)
}

/// Ticks for `sleep [ticks]`: 100 without an argument, else the digits of
/// the argument (at least 1); `None` when that value overflows.
pub fn sleep_ticks(args: &[&str]) -> (r: Option<u64>)
    ensures
        args@.len() == 0 ==> r == Some(100u64),
        args@.len() > 0 ==> (r is Some <==> lenient_value(args@[0].spec_bytes()) <= u64::MAX),
        args@.len() > 0 && r is Some ==> r->Some_0 == if lenient_value(args@[0].spec_bytes()) >= 1 {
            lenient_value(args@[0].spec_bytes())
        } else {
            1
        },
{
    if args.len() == 0 {
        return Some(100);
    }
    match lenient_u64(args[0]) {
        Some(v) => Some(if v >= 1 {
            v
        } else {
            1
        }),
        None => None,
    }
}

/// Entries for `log history [count]` (the words after `log`): 20 without
/// a count, else the digits of the count (at least 1); `None` when that
/// value overflows.
pub fn log_history_count(args: &[&str]) -> (r: Option<u64>)
    ensures
        args@.len() <= 1 ==> r == Some(20u64),
        args@.len() > 1 ==> (r is Some <==> lenient_value(args@[1].spec_bytes()) <= u64::MAX),
        args@.len() > 1 && r is Some ==> r->Some_0 == if lenient_value(args@[1].spec_bytes()) >= 1 {
            lenient_value(args@[1].spec_bytes())
        } else {
            1
        },
{
    if args.len() <= 1 {
        return Some(20);
    }
    match lenient_u64(args[1]) {
        Some(v) => Some(if v >= 1 {
            v
        } else {
            1
        }),
        None => None,
    }
}

/// The value of a decimal argument that fits in `max`, else `dflt`.
pub open spec fn number_or(s: Seq<u8>, max: nat, dflt: nat) -> nat {
    if all_digits(s) && decimal_value(s) <= max {
        decimal_value(s)
    } else {
        dflt
    }
}

/// Iterations for `repeat <N> ...`: N (1 if it does not parse), at most 100.
pub fn repeat_count(arg: &str) -> (r: usize)
    ensures
        r == if number_or(arg.spec_bytes(), usize::MAX as nat, 1) < 100 {
            number_or(arg.spec_bytes(), usize::MAX as nat, 1)
        } else {
            100
        },
{
    let n = match parse_usize(arg) {
        Some(v) => v,
        None => 1,
    };
    if n < 100 {
        n
    } else {
        100
    }
}

/// The command line `each` runs for one item: the command, a space, the
/// item.
pub fn each_line(cmd: &str, item: &str) -> (r: String)
    ensures
        r@ == cmd@ + seq![' '] + item@,
{
    let mut line = String::from_str(cmd);
    line.append(" ");
    proof {
        reveal_strlit(" ");
    }
    line.append(item);
    line
}

/// Repetitions for `watch <command> [count]`: the count when it parses as
/// a `u32`, else 3.
pub fn watch_count(args: &[&str]) -> (r: u32)
    ensures
        args@.len() > 1 ==> r == number_or(args@[1].spec_bytes(), u32::MAX as nat, 3),
        args@.len() <= 1 ==> r == 3,
{
    if args.len() > 1 {
        match parse_u32(args[1]) {
            Some(v) => v,
            None => 3,
        }
    } else {
        3
    }
}

/// `(pid, priority)` for `nice <pid> <priority>`: unparsable numbers are
/// 0, the priority is cut to its low byte and then capped at 3.
pub fn nice_args(args: &[&str]) -> (r: (u32, u8))
    requires
        args@.len() >= 2,
    ensures
        r.0 == number_or(args@[0].spec_bytes(), u32::MAX as nat, 0),
        r.1 == if (number_or(args@[1].spec_bytes(), u32::MAX as nat, 0) as u32 as u8) < 3 {
            number_or(args@[1].spec_bytes(), u32::MAX as nat, 0) as u32 as u8
        } else {
            3
        },
{
    let pid = match parse_u32(args[0]) {
        Some(v) => v,
        None => 0,
    };
    let p = match parse_u32(args[1]) {
        Some(v) => v,
        None => 0,
    };
    let prio = p as u8;
    (pid, if prio < 3 {
        prio
    } else {
        3
    })
}

/// Bytes for `alloc <size>`: the size when it parses as a `u32` between 1
/// and 1000000, else `None` (invalid size).
pub fn alloc_size(arg: &str) -> (r: Option<usize>)
    ensures
        ({
            let n = number_or(arg.spec_bytes(), u32::MAX as nat, 0);
            &&& (1 <= n <= 1_000_000) ==> r == Some(n as usize)
            &&& !(1 <= n <= 1_000_000) ==> r is None
        }),
{
    let size = match parse_u32(arg) {
        Some(v) => v,
        None => 0,
    } as usize;
    if size == 0 || size > 1_000_000 {
        None
    } else {
        Some(size)
    }
}

/// The four page-table indices and the page offset of a virtual address:
/// `(PML4, PDPT, PD, PT, offset)`.
pub fn page_table_indices(addr: u64) -> (r: (u64, u64, u64, u64, u64))
    ensures
        r.0 == (addr >> 39u64) & 0x1FF,
        r.1 == (addr >> 30u64) & 0x1FF,
        r.2 == (addr >> 21u64) & 0x1FF,
        r.3 == (addr >> 12u64) & 0x1FF,
        r.4 == addr & 0xFFF,
{
    ((addr >> 39) & 0x1FF, (addr >> 30) & 0x1FF, (addr >> 21) & 0x1FF, (addr >> 12) & 0x1FF, addr
        & 0xFFF)
}

/// The indices and offset put back together give the low 48 bits of the
/// address, and each index is below 512.
pub proof fn law_page_indices_recompose(addr: u64)
    ensures
        ((addr >> 39u64) & 0x1FF) < 512,
        ((addr >> 30u64) & 0x1FF) < 512,
        ((addr >> 21u64) & 0x1FF) < 512,
        ((addr >> 12u64) & 0x1FF) < 512,
        (((addr >> 39u64) & 0x1FF) << 39u64) | (((addr >> 30u64) & 0x1FF) << 30u64) | (((addr
            >> 21u64) & 0x1FF) << 21u64) | (((addr >> 12u64) & 0x1FF) << 12u64) | (addr & 0xFFF)
            == addr & 0xFFFF_FFFF_FFFF,
{
    assert(((addr >> 39u64) & 0x1FF) < 512) by (bit_vector);
    assert(((addr >> 30u64) & 0x1FF) < 512) by (bit_vector);
    assert(((addr >> 21u64) & 0x1FF) < 512) by (bit_vector);
    assert(((addr >> 12u64) & 0x1FF) < 512) by (bit_vector);
    assert((((addr >> 39u64) & 0x1FF) << 39u64) | (((addr >> 30u64) & 0x1FF) << 30u64) | (((addr
        >> 21u64) & 0x1FF) << 21u64) | (((addr >> 12u64) & 0x1FF) << 12u64) | (addr & 0xFFF)
        == addr & 0xFFFF_FFFF_FFFF) by (bit_vector);
}

/// Frame usage for `frames`: `(used, percent used, bar cells filled, bar
/// cells empty)` of a 50-cell bar; the percent is 0 when there are no
/// frames.
pub fn frame_usage(total: usize, free: usize) -> (r: (usize, usize, usize, usize))
    requires
        free <= total,
        (total - free) * 100 <= usize::MAX,
    ensures
        r.0 == total - free,
        total == 0 ==> r.1 == 0,
        total > 0 ==> r.1 == (total - free) * 100 / (total as int),
        r.1 <= 100,
        r.2 == r.1 / 2,
        r.3 == 50 - r.2,
{
    let used = total - free;
    let pct = if total == 0 {
        0
    } else {
        proof {
            assert((total - free) * 100 / (total as int) <= 100) by (nonlinear_arith)
                requires
                    free <= total,
                    total > 0,
            ;
        }
        used * 100 / total
    };
    let filled = pct / 2;
    (used, pct, filled, 50 - filled)
}

} // verus!
