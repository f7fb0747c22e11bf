use minios::errors::suggest_recovery;
use minios::pipe::{pipe_filter, split_pipe, PipeFilter};
use minios::textlines::{grep_lines, head_lines, lines, script_commands, trim, word_count};

#[test]
fn lines_match_std() {
    for text in ["", "a", "a\n", "\n", "\n\n", "a\nb", "a\r\nb\r\n", "a\n\nb\n", "x\ry\r", "é\nü"] {
        let expected: Vec<&str> = text.lines().collect();
        assert_eq!(lines(text), expected, "text {:?}", text);
    }
}

#[test]
fn head_and_grep() {
    let t = "one\ntwo\nthree\nfour\n";
    assert_eq!(head_lines(t, 2), vec!["one", "two"]);
    assert_eq!(head_lines(t, 10).len(), 4);
    assert_eq!(grep_lines(t, "o"), vec!["one", "two", "four"]);
    assert_eq!(grep_lines(t, "zz"), Vec::<&str>::new());
}

#[test]
fn wc_counts() {
    assert_eq!(word_count("hello world\nfoo\n"), (2, 3, 16));
    assert_eq!(word_count(""), (0, 0, 0));
}

#[test]
fn trim_matches_std() {
    for s in ["", "  ", " a ", "\u{3000}b\t", "x"] {
        assert_eq!(trim(s), s.trim());
    }
}

#[test]
fn script_skips_blank_and_comments() {
    let script = "# setup\n  ls /  \n\n echo hi\r\n   #not\n";
    assert_eq!(script_commands(script), vec!["ls /", "echo hi"]);
}

#[test]
fn pipe_split() {
    assert_eq!(split_pipe("ls / | grep a"), Some(("ls /", "grep a")));
    assert_eq!(split_pipe("a | b | c"), Some(("a", "b | c")));
    assert_eq!(split_pipe("a|b"), None);
    assert_eq!(split_pipe(""), None);
}

#[test]
fn pipe_filters() {
    assert_eq!(pipe_filter("head", &[]), PipeFilter::Head { count: 10 });
    assert_eq!(pipe_filter("head", &["3"]), PipeFilter::Head { count: 3 });
    assert_eq!(pipe_filter("head", &["x"]), PipeFilter::Head { count: 10 });
    assert_eq!(pipe_filter("grep", &["a"]), PipeFilter::Grep);
    assert_eq!(pipe_filter("wc", &[]), PipeFilter::Wc);
    assert_eq!(pipe_filter("cat", &[]), PipeFilter::PassThrough);
}

#[test]
fn recovery_advice() {
    assert_eq!(
        suggest_recovery("/x: not found"),
        Some("Check the path with 'ls'. File names are case-sensitive.")
    );
    assert_eq!(
        suggest_recovery("permission denied"),
        Some("This operation is not allowed on this file (e.g. writing to /proc/).")
    );
    assert_eq!(suggest_recovery("Invalid PID 7"), Some("Use 'ps' to see valid PIDs."));
    assert_eq!(
        suggest_recovery("invalid argument"),
        Some("Check the command syntax with 'explain <command>'.")
    );
    assert_eq!(suggest_recovery("all good"), None);
}
