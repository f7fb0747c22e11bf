//! System call interface: numbers, request decoding and the small
//! buffer writer the informational calls use.
//!
//! Syscalls are direct function calls from kernel space; decoding a call
//! here yields the request that the kernel then carries out.

pub mod dispatcher;
pub mod info;

use vstd::prelude::*;

verus! {

/// Read from a file descriptor.
pub const SYS_READ: u64 = 0;

/// Write to a file descriptor.
pub const SYS_WRITE: u64 = 1;

/// Terminate the calling process.
pub const SYS_EXIT: u64 = 12;

/// Return the current process ID.
pub const SYS_GETPID: u64 = 14;

/// Yield the CPU to another task.
pub const SYS_YIELD: u64 = 15;

/// Return system uptime in ticks.
pub const SYS_UPTIME: u64 = 50;

/// Write memory info into a user buffer.
pub const SYS_MEMINFO: u64 = 51;

/// Dispatches a system call by number (see [`dispatcher::dispatch`]).
pub fn dispatch(num: u64, arg1: u64, arg2: u64, arg3: u64) -> (r: dispatcher::SyscallRequest)
    ensures
        r == dispatcher::decode(num, arg1, arg2, arg3),
{
    dispatcher::dispatch(num, arg1, arg2, arg3)
}

} // verus!
