use minios::cmdargs::{
    alloc_size, each_line, frame_usage, lenient_u64, log_history_count, nice_args,
    page_table_indices, repeat_count, sleep_ticks, watch_count,
};
use minios::numparse::{parse_hex, parse_u32, parse_usize};
use minios::text::parse_head_args;

#[test]
fn parse_u32_values() {
    assert_eq!(parse_u32("0"), Some(0));
    assert_eq!(parse_u32(""), Some(0));
    assert_eq!(parse_u32("4294967295"), Some(u32::MAX));
    assert_eq!(parse_u32("4294967296"), None);
    assert_eq!(parse_u32("12a"), None);
    assert_eq!(parse_u32("-1"), None);
    assert_eq!(parse_u32("99999999999x"), None);
}

#[test]
fn parse_usize_values() {
    assert_eq!(parse_usize("42"), Some(42));
    assert_eq!(parse_usize("18446744073709551616"), None);
    assert_eq!(parse_usize(" 1"), None);
}

#[test]
fn parse_hex_values() {
    assert_eq!(parse_hex("0x1F"), 31);
    assert_eq!(parse_hex("0Xff"), 255);
    assert_eq!(parse_hex("0x4444_4444_0000"), 0x4444_4444_0000);
    assert_eq!(parse_hex("abc"), 0xabc);
    assert_eq!(parse_hex("0xzz"), 0);
    assert_eq!(parse_hex(""), 0);
    assert_eq!(parse_hex("0x1_0000_0000_0000_0001"), 1);
}

#[test]
fn head_args() {
    assert_eq!(parse_head_args(&[]), (10, ""));
    assert_eq!(parse_head_args(&["f"]), (10, "f"));
    assert_eq!(parse_head_args(&["3", "f"]), (3, "f"));
    assert_eq!(parse_head_args(&["x", "f", "g"]), (10, "f"));
}

#[test]
fn lenient_numbers() {
    assert_eq!(lenient_u64("1a2"), Some(12));
    assert_eq!(lenient_u64("abc"), Some(0));
    assert_eq!(lenient_u64("99999999999999999999"), None);
    assert_eq!(sleep_ticks(&[]), Some(100));
    assert_eq!(sleep_ticks(&["0"]), Some(1));
    assert_eq!(sleep_ticks(&["250"]), Some(250));
    assert_eq!(log_history_count(&["history"]), Some(20));
    assert_eq!(log_history_count(&["history", "x5"]), Some(5));
    assert_eq!(log_history_count(&["history", "x"]), Some(1));
}

#[test]
fn command_counts() {
    assert_eq!(repeat_count("5"), 5);
    assert_eq!(repeat_count("500"), 100);
    assert_eq!(repeat_count("five"), 1);
    assert_eq!(watch_count(&["ps"]), 3);
    assert_eq!(watch_count(&["ps", "7"]), 7);
    assert_eq!(watch_count(&["ps", "x"]), 3);
    assert_eq!(each_line("echo", "hi"), "echo hi");
}

#[test]
fn nice_and_alloc() {
    assert_eq!(nice_args(&["5", "2"]), (5, 2));
    assert_eq!(nice_args(&["5", "258"]), (5, 2));
    assert_eq!(nice_args(&["x", "9"]), (0, 3));
    assert_eq!(alloc_size("64"), Some(64));
    assert_eq!(alloc_size("0"), None);
    assert_eq!(alloc_size("1000001"), None);
    assert_eq!(alloc_size("abc"), None);
}

#[test]
fn page_table_split() {
    assert_eq!(page_table_indices(0x4444_4444_0000), (136, 273, 34, 64, 0));
    let (a, b, c, d, e) = page_table_indices(0xFFFF_8000_1234_5678);
    assert_eq!((a << 39) | (b << 30) | (c << 21) | (d << 12) | e, 0x8000_1234_5678);
}

#[test]
fn frames_bar() {
    assert_eq!(frame_usage(100, 25), (75, 75, 37, 13));
    assert_eq!(frame_usage(0, 0), (0, 0, 0, 50));
    assert_eq!(frame_usage(3, 0), (3, 100, 50, 0));
}
