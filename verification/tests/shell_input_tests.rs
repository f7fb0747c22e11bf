use minios::history::History;
use minios::input::LineBuffer;
use minios::parser::{parse, split_words};
use minios::alias::join_args;
use minios::chars::is_whitespace;
use minios::shell::{handle_key, KeyAction, ShellSession, Submission};

#[test]
fn whitespace_matches_std() {
    for u in 0u32..=0x10FFFF {
        if let Some(c) = char::from_u32(u) {
            assert_eq!(is_whitespace(c), c.is_whitespace(), "char {:#x}", u);
        }
    }
}

#[test]
fn split_words_matches_std() {
    let line = " a\u{3000}b\tc\u{a0}d  é\u{2028}x ";
    let expected: Vec<&str> = line.split_whitespace().collect();
    assert_eq!(split_words(line), expected);
}

#[test]
fn parse_keeps_first_sixteen_words() {
    let p = parse("a b c d e f g h i j k l m n o p q r");
    assert_eq!(p.command(), "a");
    assert_eq!(p.args().len(), 15);
    assert_eq!(p.args()[14], "p");
}

#[test]
fn join_then_parse_gives_words_back() {
    let words = ["cat", "/etc/init.sh", "x"];
    let joined = join_args(&words);
    assert_eq!(joined, "cat /etc/init.sh x");
    let p = parse(&joined);
    assert_eq!(p.command(), "cat");
    assert_eq!(p.args(), &["/etc/init.sh", "x"]);
}

#[test]
fn join_args_empty_and_single() {
    assert_eq!(join_args(&[]), "");
    assert_eq!(join_args(&["one"]), "one");
}

#[test]
fn line_buffer_push_backspace_clear() {
    let mut b = LineBuffer::new();
    assert!(b.is_empty());
    for &c in b"ls /" {
        b.push(c);
    }
    assert_eq!(b.as_str(), "ls /");
    b.backspace();
    assert_eq!(b.as_str(), "ls ");
    b.push(b'x');
    b.backspace();
    assert_eq!(b.as_str(), "ls ");
    b.clear();
    assert!(b.is_empty());
    b.backspace();
    assert!(b.is_empty());
}

#[test]
fn line_buffer_keeps_at_most_255_bytes() {
    let mut b = LineBuffer::new();
    for _ in 0..300 {
        b.push(b'a');
    }
    assert_eq!(b.as_str().len(), 255);
}

#[test]
fn line_buffer_invalid_utf8_reads_empty() {
    let mut b = LineBuffer::new();
    b.push(b'a');
    b.push(0xC3);
    assert_eq!(b.as_str(), "");
    assert!(!b.is_empty());
}

#[test]
fn history_keeps_last_32_in_order() {
    let mut h = History::new();
    assert_eq!(h.len(), 0);
    assert_eq!(h.get(0), None);
    assert_eq!(h.last(), None);
    for i in 0..40 {
        h.push(&format!("cmd{}", i));
    }
    assert_eq!(h.len(), 32);
    assert_eq!(h.get(0), Some("cmd8"));
    assert_eq!(h.get(31), Some("cmd39"));
    assert_eq!(h.get(32), None);
    assert_eq!(h.last(), Some("cmd39"));
}

#[test]
fn history_before_wrap() {
    let mut h = History::new();
    h.push("a");
    h.push("b");
    assert_eq!(h.len(), 2);
    assert_eq!(h.get(0), Some("a"));
    assert_eq!(h.get(1), Some("b"));
    assert_eq!(h.last(), Some("b"));
}

#[test]
fn history_cuts_long_lines() {
    let mut h = History::new();
    let long = "x".repeat(300);
    h.push(&long);
    assert_eq!(h.get(0).unwrap().len(), 256);
    let cut = format!("{}é", "y".repeat(255));
    h.push(&cut);
    assert_eq!(h.get(1), None);
}

fn type_line(b: &mut LineBuffer, s: &str) {
    for &c in s.as_bytes() {
        handle_key(b, c);
    }
}

#[test]
fn keys_edit_the_line() {
    let mut b = LineBuffer::new();
    assert!(matches!(handle_key(&mut b, b'e'), KeyAction::Insert { byte: b'e' }));
    assert!(matches!(handle_key(&mut b, 8), KeyAction::Erase));
    assert!(b.is_empty());
    assert!(matches!(handle_key(&mut b, 127), KeyAction::Insert { byte: 127 }));
    b.clear();
    assert!(matches!(handle_key(&mut b, 7), KeyAction::Ignore));
    type_line(&mut b, "echo");
    assert!(matches!(handle_key(&mut b, b'\n'), KeyAction::Submit));
    assert_eq!(b.as_str(), "echo");
}

#[test]
fn tab_completes_unique_prefix() {
    let mut b = LineBuffer::new();
    type_line(&mut b, "pag");
    match handle_key(&mut b, b'\t') {
        KeyAction::Complete { erased, name } => {
            assert_eq!(erased, 3);
            assert_eq!(name, "pagetable");
        }
        other => panic!("unexpected {:?}", other),
    }
    assert_eq!(b.as_str(), "pagetable");
}

#[test]
fn tab_ignores_ambiguous_or_empty() {
    let mut b = LineBuffer::new();
    assert!(matches!(handle_key(&mut b, b'\t'), KeyAction::Ignore));
    type_line(&mut b, "he");
    assert!(matches!(handle_key(&mut b, b'\t'), KeyAction::Ignore));
    assert_eq!(b.as_str(), "he");
}

#[test]
fn submit_runs_and_recalls() {
    let mut s = ShellSession::new();
    let mut b = LineBuffer::new();
    assert_eq!(s.submit(&mut b), Submission::Skip);
    type_line(&mut b, "!!");
    assert_eq!(s.submit(&mut b), Submission::NoPrevious);
    b.clear();
    type_line(&mut b, "ls / | grep a");
    assert_eq!(s.submit(&mut b), Submission::Run { recalled: false, pipe: true });
    b.clear();
    type_line(&mut b, "!!");
    assert_eq!(s.submit(&mut b), Submission::Run { recalled: true, pipe: true });
    assert_eq!(b.as_str(), "ls / | grep a");
    b.clear();
    type_line(&mut b, "help");
    assert_eq!(s.submit(&mut b), Submission::Run { recalled: false, pipe: false });
    assert_eq!(s.history().len(), 3);
    assert_eq!(s.history().get(0), Some("ls / | grep a"));
    assert_eq!(s.history().last(), Some("help"));
}
