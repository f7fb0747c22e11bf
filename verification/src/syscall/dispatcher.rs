//! Syscall dispatcher — maps syscall numbers to the request to carry out.

use super::{SYS_EXIT, SYS_GETPID, SYS_MEMINFO, SYS_READ, SYS_UPTIME, SYS_WRITE, SYS_YIELD};
use vstd::prelude::*;

verus! {

/// What the kernel does for a system call.
#[derive(Clone, Copy, PartialEq, Eq, Structural, Debug)]
pub enum SyscallRequest {
    /// Read up to `len` bytes from stdin (the keyboard) into `buf`.
    Read { buf: u64, len: u64 },
    /// Write `len` bytes at `buf` to stdout (the serial port); the result is
    /// `len`.
    Write { buf: u64, len: u64 },
    /// Terminate the current process with `code`.
    Exit { code: i64 },
    /// Return the current process ID.
    GetPid,
    /// Yield the CPU; the result is 0.
    Yield,
    /// Return the tick count since boot.
    Uptime,
    /// Write the memory-info text into `len` bytes at `buf`; the result is
    /// the number of bytes written.
    MemInfo { buf: u64, len: u64 },
    /// The call fails with result -1: unknown number, a descriptor other
    /// than stdin for reads or stdout for writes, or a null memory-info
    /// buffer.
    Fail,
}

/// The request for syscall `num` with its arguments: the file descriptor
/// is `arg1` cut to 32 bits, an exit code is `arg1` as a signed value.
pub open spec fn decode(num: u64, arg1: u64, arg2: u64, arg3: u64) -> SyscallRequest {
    if num == SYS_READ {
        if arg1 as i32 == 0 {
            SyscallRequest::Read { buf: arg2, len: arg3 }
        } else {
            SyscallRequest::Fail
        }
    } else if num == SYS_WRITE {
        if arg1 as i32 == 1 {
            SyscallRequest::Write { buf: arg2, len: arg3 }
        } else {
            SyscallRequest::Fail
        }
    } else if num == SYS_EXIT {
        SyscallRequest::Exit { code: arg1 as i64 }
    } else if num == SYS_GETPID {
        SyscallRequest::GetPid
    } else if num == SYS_YIELD {
        SyscallRequest::Yield
    } else if num == SYS_UPTIME {
        SyscallRequest::Uptime
    } else if num == SYS_MEMINFO {
        if arg1 == 0 {
            SyscallRequest::Fail
        } else {
            SyscallRequest::MemInfo { buf: arg1, len: arg2 }
        }
    } else {
        SyscallRequest::Fail
    }
}

/// Dispatches a system call by number to the request the kernel carries
/// out.
///
/// # Arguments
/// * `num`  — syscall number
/// * `arg1` — first argument (meaning depends on syscall)
/// * `arg2` — second argument
/// * `arg3` — third argument
pub fn dispatch(num: u64, arg1: u64, arg2: u64, arg3: u64) -> (r: SyscallRequest)
    ensures
        r == decode(num, arg1, arg2, arg3),
{
    if num == SYS_READ {
        let fd = arg1 as i32;
        if fd == 0 {
            SyscallRequest::Read { buf: arg2, len: arg3 }
        } else {
            SyscallRequest::Fail
        }
    } else if num == SYS_WRITE {
        let fd = arg1 as i32;
        if fd == 1 {
            SyscallRequest::Write { buf: arg2, len: arg3 }
        } else {
            SyscallRequest::Fail
        }
    } else if num == SYS_EXIT {
        SyscallRequest::Exit { code: arg1 as i64 }
    } else if num == SYS_GETPID {
        SyscallRequest::GetPid
    } else if num == SYS_YIELD {
        SyscallRequest::Yield
    } else if num == SYS_UPTIME {
        SyscallRequest::Uptime
    } else if num == SYS_MEMINFO {
        if arg1 == 0 {
            SyscallRequest::Fail
        } else {
            SyscallRequest::MemInfo { buf: arg1, len: arg2 }
        }
    } else {
        SyscallRequest::Fail
    }
}

/// Decoding an exit call gives an exit request whatever the first
/// argument, its code is that argument read as a signed 64-bit number (so
/// it gives the argument back when read as unsigned), two calls with
/// different first arguments give different requests, and the other
/// arguments play no part.
pub proof fn law_exit_keeps_code(a: u64, b: u64, x: u64, y: u64, x2: u64, y2: u64)
    ensures
        decode(SYS_EXIT, a, x, y) is Exit,
        decode(SYS_EXIT, a, x, y)->code as u64 == a,
        a <= i64::MAX ==> decode(SYS_EXIT, a, x, y)->code == a as int,
        a > i64::MAX ==> decode(SYS_EXIT, a, x, y)->code == a - 0x1_0000_0000_0000_0000,
        a != b ==> decode(SYS_EXIT, a, x, y) != decode(SYS_EXIT, b, x, y),
        decode(SYS_EXIT, a, x, y) == decode(SYS_EXIT, a, x2, y2),
{
    assert((a as i64) as u64 == a) by (bit_vector);
    assert(a <= 0x7fff_ffff_ffff_ffff ==> (a as i64) as int == a as int) by (bit_vector);
    assert(a > 0x7fff_ffff_ffff_ffff ==> (a as i64) as int == a - 0x1_0000_0000_0000_0000) by (bit_vector);
    assert((b as i64) as u64 == b) by (bit_vector);
}

} // verus!
