use minios::syscall::dispatcher::SyscallRequest;
use minios::syscall::info::{sys_meminfo, BufWriter, MEMINFO_TEXT};
use minios::syscall::{dispatch, SYS_EXIT, SYS_GETPID, SYS_MEMINFO, SYS_READ, SYS_UPTIME, SYS_WRITE, SYS_YIELD};

#[test]
fn dispatch_decodes_each_call() {
    assert_eq!(dispatch(SYS_READ, 0, 100, 8), SyscallRequest::Read { buf: 100, len: 8 });
    assert_eq!(dispatch(SYS_READ, 1, 100, 8), SyscallRequest::Fail);
    assert_eq!(dispatch(SYS_WRITE, 1, 200, 4), SyscallRequest::Write { buf: 200, len: 4 });
    assert_eq!(dispatch(SYS_WRITE, (1u64 << 32) + 1, 200, 4), SyscallRequest::Write { buf: 200, len: 4 });
    assert_eq!(dispatch(SYS_WRITE, 2, 200, 4), SyscallRequest::Fail);
    assert_eq!(dispatch(SYS_EXIT, u64::MAX, 0, 0), SyscallRequest::Exit { code: -1 });
    assert_eq!(dispatch(SYS_GETPID, 0, 0, 0), SyscallRequest::GetPid);
    assert_eq!(dispatch(SYS_YIELD, 0, 0, 0), SyscallRequest::Yield);
    assert_eq!(dispatch(SYS_UPTIME, 0, 0, 0), SyscallRequest::Uptime);
    assert_eq!(dispatch(SYS_MEMINFO, 0, 10, 0), SyscallRequest::Fail);
    assert_eq!(dispatch(SYS_MEMINFO, 4096, 10, 0), SyscallRequest::MemInfo { buf: 4096, len: 10 });
    assert_eq!(dispatch(99, 0, 0, 0), SyscallRequest::Fail);
}

#[test]
fn meminfo_fits_buffer() {
    let (b, n) = sys_meminfo(vec![0u8; 10]);
    assert_eq!(n, 10);
    assert_eq!(&b[..], &MEMINFO_TEXT.as_bytes()[..10]);
    let (b, n) = sys_meminfo(vec![7u8; 40]);
    assert_eq!(n, MEMINFO_TEXT.len());
    assert_eq!(&b[..n], MEMINFO_TEXT.as_bytes());
    assert_eq!(b[n], 7);
}

#[test]
fn buf_writer_appends_until_full() {
    let mut w = BufWriter::new(vec![0u8; 5]);
    w.write_str("abc");
    w.write_str("defg");
    assert_eq!(w.written(), 5);
    w.write_str("z");
    assert_eq!(w.into_inner(), b"abcde".to_vec());
}
