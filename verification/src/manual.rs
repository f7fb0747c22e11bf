//! Reference pages: the `man` entries and the commands `explain` covers.

use crate::table::bytes_eq;
use vstd::prelude::*;
use vstd::string::StringSliceAdditionalSpecFns;

verus! {

/// A manual entry: the usage line and a one-line summary.
#[derive(Clone, Copy, Debug)]
pub struct ManEntry {
    pub usage: &'static str,
    pub summary: &'static str,
}

/// The manual entry for command word `t`, if it has one.
pub open spec fn man_entry_for(t: Seq<u8>) -> Option<ManEntry> {
    if t == "ls".spec_bytes() {
        Some(ManEntry { usage: "ls [path]", summary: "Lists directory contents. Default: /" })
    } else if t == "cat".spec_bytes() {
        Some(ManEntry { usage: "cat <file>", summary: "Displays file contents." })
    } else if t == "trace".spec_bytes() {
        Some(
            ManEntry {
                usage: "trace <list|tree|follow|filter|stats|clear|export>",
                summary: "Manage the kernel trace system.",
            },
        )
    } else if t == "log".spec_bytes() {
        Some(
            ManEntry {
                usage: "log <level|module|history|off> [value]",
                summary: "Control kernel logging.",
            },
        )
    } else if t == "spawn".spec_bytes() {
        Some(ManEntry { usage: "spawn [name]", summary: "Create a background kernel task." })
    } else if t == "kill".spec_bytes() {
        Some(ManEntry { usage: "kill <pid>", summary: "Terminate a process by PID." })
    } else if t == "crash".spec_bytes() {
        Some(
            ManEntry {
                usage: "crash <oom|stack|divide-zero|null-deref|fork-bomb>",
                summary: "Safely demonstrate fault scenarios.",
            },
        )
    } else if t == "compare".spec_bytes() {
        Some(
            ManEntry {
                usage: "compare <scheduler|memory|filesystem|ipc|syscall>",
                summary: "Compare MiniOS vs Linux design.",
            },
        )
    } else if t == "lab".spec_bytes() {
        Some(ManEntry { usage: "lab <1-5|name>", summary: "Run interactive OS experiments." })
    } else if t == "bench".spec_bytes() {
        Some(ManEntry { usage: "bench <alloc|trace|fs>", summary: "Run performance benchmarks." })
    } else {
        None
    }
}

/// Looks up the manual entry of command `topic`; `None` when it has none.
pub fn man_entry(topic: &str) -> (r: Option<ManEntry>)
    ensures
        r == man_entry_for(topic.spec_bytes()),
{
    let t = topic.as_bytes();
    if bytes_eq(t, "ls".as_bytes()) {
        Some(ManEntry { usage: "ls [path]", summary: "Lists directory contents. Default: /" })
    } else if bytes_eq(t, "cat".as_bytes()) {
        Some(ManEntry { usage: "cat <file>", summary: "Displays file contents." })
    } else if bytes_eq(t, "trace".as_bytes()) {
        Some(
            ManEntry {
                usage: "trace <list|tree|follow|filter|stats|clear|export>",
                summary: "Manage the kernel trace system.",
            },
        )
    } else if bytes_eq(t, "log".as_bytes()) {
        Some(
            ManEntry {
                usage: "log <level|module|history|off> [value]",
                summary: "Control kernel logging.",
            },
        )
    } else if bytes_eq(t, "spawn".as_bytes()) {
        Some(ManEntry { usage: "spawn [name]", summary: "Create a background kernel task." })
    } else if bytes_eq(t, "kill".as_bytes()) {
        Some(ManEntry { usage: "kill <pid>", summary: "Terminate a process by PID." })
    } else if bytes_eq(t, "crash".as_bytes()) {
        Some(
            ManEntry {
                usage: "crash <oom|stack|divide-zero|null-deref|fork-bomb>",
                summary: "Safely demonstrate fault scenarios.",
            },
        )
    } else if bytes_eq(t, "compare".as_bytes()) {
        Some(
            ManEntry {
                usage: "compare <scheduler|memory|filesystem|ipc|syscall>",
                summary: "Compare MiniOS vs Linux design.",
            },
        )
    } else if bytes_eq(t, "lab".as_bytes()) {
        Some(ManEntry { usage: "lab <1-5|name>", summary: "Run interactive OS experiments." })
    } else if bytes_eq(t, "bench".as_bytes()) {
        Some(ManEntry { usage: "bench <alloc|trace|fs>", summary: "Run performance benchmarks." })
    } else {
        None
    }
}

/// A command that `explain` describes.
#[derive(Clone, Copy, PartialEq, Eq, Structural, Debug)]
pub enum ExplainTopic {
    Ls,
    Cat,
    Ps,
    Meminfo,
    Trace,
    Spawn,
    Help,
    Echo,
    Write,
    Mkdir,
}

/// The explanation for command word `t`, if there is one.
pub open spec fn explain_topic_for(t: Seq<u8>) -> Option<ExplainTopic> {
    if t == "ls".spec_bytes() {
        Some(ExplainTopic::Ls)
    } else if t == "cat".spec_bytes() {
        Some(ExplainTopic::Cat)
    } else if t == "ps".spec_bytes() {
        Some(ExplainTopic::Ps)
    } else if t == "meminfo".spec_bytes() {
        Some(ExplainTopic::Meminfo)
    } else if t == "trace".spec_bytes() {
        Some(ExplainTopic::Trace)
    } else if t == "spawn".spec_bytes() {
        Some(ExplainTopic::Spawn)
    } else if t == "help".spec_bytes() {
        Some(ExplainTopic::Help)
    } else if t == "echo".spec_bytes() {
        Some(ExplainTopic::Echo)
    } else if t == "write".spec_bytes() {
        Some(ExplainTopic::Write)
    } else if t == "mkdir".spec_bytes() {
        Some(ExplainTopic::Mkdir)
    } else {
        None
    }
}

/// Chooses the explanation for command `topic`; `None` when there is none.
pub fn explain_topic(topic: &str) -> (r: Option<ExplainTopic>)
    ensures
        r == explain_topic_for(topic.spec_bytes()),
{
    let t = topic.as_bytes();
    if bytes_eq(t, "ls".as_bytes()) {
        Some(ExplainTopic::Ls)
    } else if bytes_eq(t, "cat".as_bytes()) {
        Some(ExplainTopic::Cat)
    } else if bytes_eq(t, "ps".as_bytes()) {
        Some(ExplainTopic::Ps)
    } else if bytes_eq(t, "meminfo".as_bytes()) {
        Some(ExplainTopic::Meminfo)
    } else if bytes_eq(t, "trace".as_bytes()) {
        Some(ExplainTopic::Trace)
    } else if bytes_eq(t, "spawn".as_bytes()) {
        Some(ExplainTopic::Spawn)
    } else if bytes_eq(t, "help".as_bytes()) {
        Some(ExplainTopic::Help)
    } else if bytes_eq(t, "echo".as_bytes()) {
        Some(ExplainTopic::Echo)
    } else if bytes_eq(t, "write".as_bytes()) {
        Some(ExplainTopic::Write)
    } else if bytes_eq(t, "mkdir".as_bytes()) {
        Some(ExplainTopic::Mkdir)
    } else {
        None
    }
}

} // verus!
