use minios::manual::{explain_topic, man_entry, ExplainTopic};

#[test]
fn man_entry_known_commands() {
    let ls = man_entry("ls").unwrap();
    assert_eq!(ls.usage, "ls [path]");
    assert_eq!(ls.summary, "Lists directory contents. Default: /");
    let bench = man_entry("bench").unwrap();
    assert_eq!(bench.usage, "bench <alloc|trace|fs>");
    assert_eq!(bench.summary, "Run performance benchmarks.");
    assert_eq!(man_entry("kill").unwrap().usage, "kill <pid>");
}

#[test]
fn man_entry_unknown_or_inexact() {
    assert!(man_entry("ps").is_none());
    assert!(man_entry("").is_none());
    assert!(man_entry("ls ").is_none());
    assert!(man_entry("LS").is_none());
}

#[test]
fn explain_topic_choices() {
    assert_eq!(explain_topic("ls"), Some(ExplainTopic::Ls));
    assert_eq!(explain_topic("meminfo"), Some(ExplainTopic::Meminfo));
    assert_eq!(explain_topic("mkdir"), Some(ExplainTopic::Mkdir));
    assert_eq!(explain_topic("kill"), None);
    assert_eq!(explain_topic(""), None);
}
