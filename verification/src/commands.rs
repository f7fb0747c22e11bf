//! The shell's command registry: names and one-line descriptions.
//!
//! The handlers themselves live with the console code; the registry says
//! which names exist, in which order they are listed, and how names are
//! looked up and completed.

use crate::table::bytes_eq;
use vstd::prelude::*;
use vstd::string::StringSliceAdditionalSpecFns;

verus! {

/// A shell command with its name and description.
#[derive(Clone, Copy)]
pub struct Command {
    pub name: &'static str,
    pub description: &'static str,
}

/// Number of shell commands, all of which `help` lists.
pub const COMMAND_TOTAL: usize = 44;

/// The [`COMMAND_TOTAL`] registered commands, in the order `help` lists them.
pub open spec fn command_table() -> Seq<Command> {
    seq![
        Command { name: "help", description: "List all available commands" },
        Command { name: "echo", description: "Print arguments to the screen" },
        Command { name: "clear", description: "Clear the VGA screen" },
        Command { name: "uptime", description: "Show tick count since boot" },
        Command { name: "meminfo", description: "Show memory statistics" },
        Command { name: "interrupts", description: "Show interrupt statistics" },
        Command { name: "ls", description: "List directory contents" },
        Command { name: "cat", description: "Print file contents" },
        Command { name: "mkdir", description: "Create a directory" },
        Command { name: "touch", description: "Create an empty file" },
        Command { name: "write", description: "Write content to a file" },
        Command { name: "pwd", description: "Print working directory" },
        Command { name: "ps", description: "List all processes" },
        Command { name: "spawn", description: "Spawn a background kernel task" },
        Command { name: "kill", description: "Terminate a process by PID" },
        Command { name: "sched", description: "Show scheduler queue stats" },
        Command { name: "nice", description: "Change process priority" },
        Command { name: "trace", description: "Trace subsystem (list|tree|stats|clear|export|follow|filter)" },
        Command { name: "pagetable", description: "Decompose virtual address into page table indices" },
        Command { name: "frames", description: "Show physical frame usage with visual bar" },
        Command { name: "alloc", description: "Allocate heap memory and show result" },
        Command { name: "explain", description: "Explain how a command works internally" },
        Command { name: "tutorial", description: "Interactive guide to exploring MiniOS" },
        Command { name: "compare", description: "Compare MiniOS vs Linux design choices" },
        Command { name: "lab", description: "Run interactive OS learning experiments" },
        Command { name: "crash", description: "Safe fault experiments (oom|stack|divide-zero|null|fork-bomb)" },
        Command { name: "run", description: "Execute commands from a script file" },
        Command { name: "each", description: "Run a command for each item in a list" },
        Command { name: "repeat", description: "Repeat a command N times" },
        Command { name: "syllabus", description: "Show structured OS course outline" },
        Command { name: "history", description: "Show command history" },
        Command { name: "set", description: "Set an environment variable" },
        Command { name: "env", description: "List all environment variables" },
        Command { name: "head", description: "Show first N lines of a file" },
        Command { name: "grep", description: "Search for a pattern in a file" },
        Command { name: "wc", description: "Count lines, words, bytes in a file" },
        Command { name: "alias", description: "Create or list command aliases" },
        Command { name: "log", description: "Control kernel log system (level, module, history)" },
        Command { name: "debug", description: "Toggle debug mode (on|off|status)" },
        Command { name: "journey", description: "Show your MiniOS learning journey progress" },
        Command { name: "graduation", description: "Show learning completion report" },
        Command { name: "top", description: "Show system-wide status snapshot (processes, memory, IRQs)" },
        Command { name: "bench", description: "Run built-in performance benchmarks (alloc, trace, fs)" },
        Command { name: "memmap", description: "Show ASCII memory layout diagram" }
    ]
}

/// No two commands in `t` have the same name.
pub open spec fn names_distinct(t: Seq<Command>) -> bool {
    forall|i: int, j: int| 0 <= i < j < t.len() ==> #[trigger] t[i].name@ != #[trigger] t[j].name@
}

/// The position of name `s` in the registry, or -1.
spec fn registry_slot(s: Seq<char>) -> int {
    if s == "help"@ {
        0
    } else if s == "echo"@ {
        1
    } else if s == "clear"@ {
        2
    } else if s == "uptime"@ {
        3
    } else if s == "meminfo"@ {
        4
    } else if s == "interrupts"@ {
        5
    } else if s == "ls"@ {
        6
    } else if s == "cat"@ {
        7
    } else if s == "mkdir"@ {
        8
    } else if s == "touch"@ {
        9
    } else if s == "write"@ {
        10
    } else if s == "pwd"@ {
        11
    } else if s == "ps"@ {
        12
    } else if s == "spawn"@ {
        13
    } else if s == "kill"@ {
        14
    } else if s == "sched"@ {
        15
    } else if s == "nice"@ {
        16
    } else if s == "trace"@ {
        17
    } else if s == "pagetable"@ {
        18
    } else if s == "frames"@ {
        19
    } else if s == "alloc"@ {
        20
    } else if s == "explain"@ {
        21
    } else if s == "tutorial"@ {
        22
    } else if s == "compare"@ {
        23
    } else if s == "lab"@ {
        24
    } else if s == "crash"@ {
        25
    } else if s == "run"@ {
        26
    } else if s == "each"@ {
        27
    } else if s == "repeat"@ {
        28
    } else if s == "syllabus"@ {
        29
    } else if s == "history"@ {
        30
    } else if s == "set"@ {
        31
    } else if s == "env"@ {
        32
    } else if s == "head"@ {
        33
    } else if s == "grep"@ {
        34
    } else if s == "wc"@ {
        35
    } else if s == "alias"@ {
        36
    } else if s == "log"@ {
        37
    } else if s == "debug"@ {
        38
    } else if s == "journey"@ {
        39
    } else if s == "graduation"@ {
        40
    } else if s == "top"@ {
        41
    } else if s == "bench"@ {
        42
    } else if s == "memmap"@ {
        43
    } else {
        -1
    }
}

/// The registry lists each name once: every name sits at its own slot.
proof fn lemma_table_names_distinct()
    ensures
        names_distinct(command_table()),
{
    reveal_strlit("help");
    reveal_strlit("echo");
    reveal_strlit("clear");
    reveal_strlit("uptime");
    reveal_strlit("meminfo");
    reveal_strlit("interrupts");
    reveal_strlit("ls");
    reveal_strlit("cat");
    reveal_strlit("mkdir");
    reveal_strlit("touch");
    reveal_strlit("write");
    reveal_strlit("pwd");
    reveal_strlit("ps");
    reveal_strlit("spawn");
    reveal_strlit("kill");
    reveal_strlit("sched");
    reveal_strlit("nice");
    reveal_strlit("trace");
    reveal_strlit("pagetable");
    reveal_strlit("frames");
    reveal_strlit("alloc");
    reveal_strlit("explain");
    reveal_strlit("tutorial");
    reveal_strlit("compare");
    reveal_strlit("lab");
    reveal_strlit("crash");
    reveal_strlit("run");
    reveal_strlit("each");
    reveal_strlit("repeat");
    reveal_strlit("syllabus");
    reveal_strlit("history");
    reveal_strlit("set");
    reveal_strlit("env");
    reveal_strlit("head");
    reveal_strlit("grep");
    reveal_strlit("wc");
    reveal_strlit("alias");
    reveal_strlit("log");
    reveal_strlit("debug");
    reveal_strlit("journey");
    reveal_strlit("graduation");
    reveal_strlit("top");
    reveal_strlit("bench");
    reveal_strlit("memmap");
    assert("help"@.len() == 4);
    assert("echo"@.len() == 4);
    assert("clear"@.len() == 5);
    assert("uptime"@.len() == 6);
    assert("meminfo"@.len() == 7);
    assert("interrupts"@.len() == 10);
    assert("ls"@.len() == 2);
    assert("cat"@.len() == 3);
    assert("mkdir"@.len() == 5);
    assert("touch"@.len() == 5);
    assert("write"@.len() == 5);
    assert("pwd"@.len() == 3);
    assert("ps"@.len() == 2);
    assert("spawn"@.len() == 5);
    assert("kill"@.len() == 4);
    assert("sched"@.len() == 5);
    assert("nice"@.len() == 4);
    assert("trace"@.len() == 5);
    assert("pagetable"@.len() == 9);
    assert("frames"@.len() == 6);
    assert("alloc"@.len() == 5);
    assert("explain"@.len() == 7);
    assert("tutorial"@.len() == 8);
    assert("compare"@.len() == 7);
    assert("lab"@.len() == 3);
    assert("crash"@.len() == 5);
    assert("run"@.len() == 3);
    assert("each"@.len() == 4);
    assert("repeat"@.len() == 6);
    assert("syllabus"@.len() == 8);
    assert("history"@.len() == 7);
    assert("set"@.len() == 3);
    assert("env"@.len() == 3);
    assert("head"@.len() == 4);
    assert("grep"@.len() == 4);
    assert("wc"@.len() == 2);
    assert("alias"@.len() == 5);
    assert("log"@.len() == 3);
    assert("debug"@.len() == 5);
    assert("journey"@.len() == 7);
    assert("graduation"@.len() == 10);
    assert("top"@.len() == 3);
    assert("bench"@.len() == 5);
    assert("memmap"@.len() == 6);
    let t = command_table();
    assert forall|i: int| 0 <= i < t.len() implies registry_slot(#[trigger] t[i].name@) == i by {
        if i == 0 {
        } else if i == 1 {
            assert("help"@[0] != "echo"@[0]);
        } else if i == 2 {
        } else if i == 3 {
        } else if i == 4 {
        } else if i == 5 {
        } else if i == 6 {
        } else if i == 7 {
        } else if i == 8 {
            assert("clear"@[0] != "mkdir"@[0]);
        } else if i == 9 {
            assert("clear"@[0] != "touch"@[0]);
            assert("mkdir"@[0] != "touch"@[0]);
        } else if i == 10 {
            assert("clear"@[0] != "write"@[0]);
            assert("mkdir"@[0] != "write"@[0]);
            assert("touch"@[0] != "write"@[0]);
        } else if i == 11 {
            assert("cat"@[0] != "pwd"@[0]);
        } else if i == 12 {
            assert("ls"@[0] != "ps"@[0]);
        } else if i == 13 {
            assert("clear"@[0] != "spawn"@[0]);
            assert("mkdir"@[0] != "spawn"@[0]);
            assert("touch"@[0] != "spawn"@[0]);
            assert("write"@[0] != "spawn"@[0]);
        } else if i == 14 {
            assert("help"@[0] != "kill"@[0]);
            assert("echo"@[0] != "kill"@[0]);
        } else if i == 15 {
            assert("clear"@[0] != "sched"@[0]);
            assert("mkdir"@[0] != "sched"@[0]);
            assert("touch"@[0] != "sched"@[0]);
            assert("write"@[0] != "sched"@[0]);
            assert("spawn"@[1] != "sched"@[1]);
        } else if i == 16 {
            assert("help"@[0] != "nice"@[0]);
            assert("echo"@[0] != "nice"@[0]);
            assert("kill"@[0] != "nice"@[0]);
        } else if i == 17 {
            assert("clear"@[0] != "trace"@[0]);
            assert("mkdir"@[0] != "trace"@[0]);
            assert("touch"@[1] != "trace"@[1]);
            assert("write"@[0] != "trace"@[0]);
            assert("spawn"@[0] != "trace"@[0]);
            assert("sched"@[0] != "trace"@[0]);
        } else if i == 18 {
        } else if i == 19 {
            assert("uptime"@[0] != "frames"@[0]);
        } else if i == 20 {
            assert("clear"@[0] != "alloc"@[0]);
            assert("mkdir"@[0] != "alloc"@[0]);
            assert("touch"@[0] != "alloc"@[0]);
            assert("write"@[0] != "alloc"@[0]);
            assert("spawn"@[0] != "alloc"@[0]);
            assert("sched"@[0] != "alloc"@[0]);
            assert("trace"@[0] != "alloc"@[0]);
        } else if i == 21 {
            assert("meminfo"@[0] != "explain"@[0]);
        } else if i == 22 {
        } else if i == 23 {
            assert("meminfo"@[0] != "compare"@[0]);
            assert("explain"@[0] != "compare"@[0]);
        } else if i == 24 {
            assert("cat"@[0] != "lab"@[0]);
            assert("pwd"@[0] != "lab"@[0]);
        } else if i == 25 {
            assert("clear"@[1] != "crash"@[1]);
            assert("mkdir"@[0] != "crash"@[0]);
            assert("touch"@[0] != "crash"@[0]);
            assert("write"@[0] != "crash"@[0]);
            assert("spawn"@[0] != "crash"@[0]);
            assert("sched"@[0] != "crash"@[0]);
            assert("trace"@[0] != "crash"@[0]);
            assert("alloc"@[0] != "crash"@[0]);
        } else if i == 26 {
            assert("cat"@[0] != "run"@[0]);
            assert("pwd"@[0] != "run"@[0]);
            assert("lab"@[0] != "run"@[0]);
        } else if i == 27 {
            assert("help"@[0] != "each"@[0]);
            assert("echo"@[1] != "each"@[1]);
            assert("kill"@[0] != "each"@[0]);
            assert("nice"@[0] != "each"@[0]);
        } else if i == 28 {
            assert("uptime"@[0] != "repeat"@[0]);
            assert("frames"@[0] != "repeat"@[0]);
        } else if i == 29 {
            assert("tutorial"@[0] != "syllabus"@[0]);
        } else if i == 30 {
            assert("meminfo"@[0] != "history"@[0]);
            assert("explain"@[0] != "history"@[0]);
            assert("compare"@[0] != "history"@[0]);
        } else if i == 31 {
            assert("cat"@[0] != "set"@[0]);
            assert("pwd"@[0] != "set"@[0]);
            assert("lab"@[0] != "set"@[0]);
            assert("run"@[0] != "set"@[0]);
        } else if i == 32 {
            assert("cat"@[0] != "env"@[0]);
            assert("pwd"@[0] != "env"@[0]);
            assert("lab"@[0] != "env"@[0]);
            assert("run"@[0] != "env"@[0]);
            assert("set"@[0] != "env"@[0]);
        } else if i == 33 {
            assert("help"@[2] != "head"@[2]);
            assert("echo"@[0] != "head"@[0]);
            assert("kill"@[0] != "head"@[0]);
            assert("nice"@[0] != "head"@[0]);
            assert("each"@[0] != "head"@[0]);
        } else if i == 34 {
            assert("help"@[0] != "grep"@[0]);
            assert("echo"@[0] != "grep"@[0]);
            assert("kill"@[0] != "grep"@[0]);
            assert("nice"@[0] != "grep"@[0]);
            assert("each"@[0] != "grep"@[0]);
            assert("head"@[0] != "grep"@[0]);
        } else if i == 35 {
            assert("ls"@[0] != "wc"@[0]);
            assert("ps"@[0] != "wc"@[0]);
        } else if i == 36 {
            assert("clear"@[0] != "alias"@[0]);
            assert("mkdir"@[0] != "alias"@[0]);
            assert("touch"@[0] != "alias"@[0]);
            assert("write"@[0] != "alias"@[0]);
            assert("spawn"@[0] != "alias"@[0]);
            assert("sched"@[0] != "alias"@[0]);
            assert("trace"@[0] != "alias"@[0]);
            assert("alloc"@[2] != "alias"@[2]);
            assert("crash"@[0] != "alias"@[0]);
        } else if i == 37 {
            assert("cat"@[0] != "log"@[0]);
            assert("pwd"@[0] != "log"@[0]);
            assert("lab"@[1] != "log"@[1]);
            assert("run"@[0] != "log"@[0]);
            assert("set"@[0] != "log"@[0]);
            assert("env"@[0] != "log"@[0]);
        } else if i == 38 {
            assert("clear"@[0] != "debug"@[0]);
            assert("mkdir"@[0] != "debug"@[0]);
            assert("touch"@[0] != "debug"@[0]);
            assert("write"@[0] != "debug"@[0]);
            assert("spawn"@[0] != "debug"@[0]);
            assert("sched"@[0] != "debug"@[0]);
            assert("trace"@[0] != "debug"@[0]);
            assert("alloc"@[0] != "debug"@[0]);
            assert("crash"@[0] != "debug"@[0]);
            assert("alias"@[0] != "debug"@[0]);
        } else if i == 39 {
            assert("meminfo"@[0] != "journey"@[0]);
            assert("explain"@[0] != "journey"@[0]);
            assert("compare"@[0] != "journey"@[0]);
            assert("history"@[0] != "journey"@[0]);
        } else if i == 40 {
            assert("interrupts"@[0] != "graduation"@[0]);
        } else if i == 41 {
            assert("cat"@[0] != "top"@[0]);
            assert("pwd"@[0] != "top"@[0]);
            assert("lab"@[0] != "top"@[0]);
            assert("run"@[0] != "top"@[0]);
            assert("set"@[0] != "top"@[0]);
            assert("env"@[0] != "top"@[0]);
            assert("log"@[0] != "top"@[0]);
        } else if i == 42 {
            assert("clear"@[0] != "bench"@[0]);
            assert("mkdir"@[0] != "bench"@[0]);
            assert("touch"@[0] != "bench"@[0]);
            assert("write"@[0] != "bench"@[0]);
            assert("spawn"@[0] != "bench"@[0]);
            assert("sched"@[0] != "bench"@[0]);
            assert("trace"@[0] != "bench"@[0]);
            assert("alloc"@[0] != "bench"@[0]);
            assert("crash"@[0] != "bench"@[0]);
            assert("alias"@[0] != "bench"@[0]);
            assert("debug"@[0] != "bench"@[0]);
        } else if i == 43 {
            assert("uptime"@[0] != "memmap"@[0]);
            assert("frames"@[0] != "memmap"@[0]);
            assert("repeat"@[0] != "memmap"@[0]);
        }
    }
}

/// Index of the first command named exactly `name` (compared as bytes).
pub open spec fn first_named(t: Seq<Command>, name: Seq<u8>) -> Option<int>
    decreases t.len(),
{
    if t.len() == 0 {
        None
    } else if t[0].name.spec_bytes() == name {
        Some(0)
    } else {
        match first_named(t.drop_first(), name) {
            Some(i) => Some(i + 1),
            None => None,
        }
    }
}

/// `p` is a prefix of `s`.
pub open spec fn is_prefix(p: Seq<u8>, s: Seq<u8>) -> bool {
    p.len() <= s.len() && s.take(p.len() as int) == p
}

/// The names in `t` that start with `prefix`, in order.
pub open spec fn names_with_prefix(t: Seq<Command>, prefix: Seq<u8>) -> Seq<&'static str>
    decreases t.len(),
{
    if t.len() == 0 {
        Seq::empty()
    } else {
        let rest = names_with_prefix(t.drop_last(), prefix);
        if is_prefix(prefix, t.last().name.spec_bytes()) {
            rest.push(t.last().name)
        } else {
            rest
        }
    }
}

/// The first command in `t` whose name starts with `prefix` and is not
/// `input`.
pub open spec fn first_similar(t: Seq<Command>, prefix: Seq<u8>, input: Seq<u8>) -> Option<&'static str>
    decreases t.len(),
{
    if t.len() == 0 {
        None
    } else if is_prefix(prefix, t[0].name.spec_bytes()) && t[0].name.spec_bytes() != input {
        Some(t[0].name)
    } else {
        first_similar(t.drop_first(), prefix, input)
    }
}

/// Returns the full list of registered commands: [`COMMAND_TOTAL`]
/// commands, no two with the same name.
pub fn list_commands() -> (r: Vec<Command>)
    ensures
        r@ == command_table(),
        r@.len() == COMMAND_TOTAL,
        names_distinct(r@),
{
    let r = vec![
        Command { name: "help", description: "List all available commands" },
        Command { name: "echo", description: "Print arguments to the screen" },
        Command { name: "clear", description: "Clear the VGA screen" },
        Command { name: "uptime", description: "Show tick count since boot" },
        Command { name: "meminfo", description: "Show memory statistics" },
        Command { name: "interrupts", description: "Show interrupt statistics" },
        Command { name: "ls", description: "List directory contents" },
        Command { name: "cat", description: "Print file contents" },
        Command { name: "mkdir", description: "Create a directory" },
        Command { name: "touch", description: "Create an empty file" },
        Command { name: "write", description: "Write content to a file" },
        Command { name: "pwd", description: "Print working directory" },
        Command { name: "ps", description: "List all processes" },
        Command { name: "spawn", description: "Spawn a background kernel task" },
        Command { name: "kill", description: "Terminate a process by PID" },
        Command { name: "sched", description: "Show scheduler queue stats" },
        Command { name: "nice", description: "Change process priority" },
        Command { name: "trace", description: "Trace subsystem (list|tree|stats|clear|export|follow|filter)" },
        Command { name: "pagetable", description: "Decompose virtual address into page table indices" },
        Command { name: "frames", description: "Show physical frame usage with visual bar" },
        Command { name: "alloc", description: "Allocate heap memory and show result" },
        Command { name: "explain", description: "Explain how a command works internally" },
        Command { name: "tutorial", description: "Interactive guide to exploring MiniOS" },
        Command { name: "compare", description: "Compare MiniOS vs Linux design choices" },
        Command { name: "lab", description: "Run interactive OS learning experiments" },
        Command { name: "crash", description: "Safe fault experiments (oom|stack|divide-zero|null|fork-bomb)" },
        Command { name: "run", description: "Execute commands from a script file" },
        Command { name: "each", description: "Run a command for each item in a list" },
        Command { name: "repeat", description: "Repeat a command N times" },
        Command { name: "syllabus", description: "Show structured OS course outline" },
        Command { name: "history", description: "Show command history" },
        Command { name: "set", description: "Set an environment variable" },
        Command { name: "env", description: "List all environment variables" },
        Command { name: "head", description: "Show first N lines of a file" },
        Command { name: "grep", description: "Search for a pattern in a file" },
        Command { name: "wc", description: "Count lines, words, bytes in a file" },
        Command { name: "alias", description: "Create or list command aliases" },
        Command { name: "log", description: "Control kernel log system (level, module, history)" },
        Command { name: "debug", description: "Toggle debug mode (on|off|status)" },
        Command { name: "journey", description: "Show your MiniOS learning journey progress" },
        Command { name: "graduation", description: "Show learning completion report" },
        Command { name: "top", description: "Show system-wide status snapshot (processes, memory, IRQs)" },
        Command { name: "bench", description: "Run built-in performance benchmarks (alloc, trace, fs)" },
        Command { name: "memmap", description: "Show ASCII memory layout diagram" }
    ];
    assert(r@ =~= command_table());
    proof {
        lemma_table_names_distinct();
    }
    r
}

/// Finds a command by name.
pub fn find_command(name: &str) -> (r: Option<Command>)
    ensures
        match first_named(command_table(), name.spec_bytes()) {
            Some(i) => r == Some(command_table()[i]),
            None => r is None,
        },
{
    let cmds = list_commands();
    assert(command_table().skip(0) =~= command_table());
    let mut i: usize = 0;
    while i < cmds.len()
        invariant
            cmds@ == command_table(),
            0 <= i <= cmds@.len(),
            first_named(command_table(), name.spec_bytes()) == (match first_named(
                command_table().skip(i as int),
                name.spec_bytes(),
            ) {
                Some(k) => Some(k + i),
                None => None::<int>,
            }),
        decreases cmds@.len() - i,
    {
        let c = cmds[i];
        assert(command_table().skip(i as int).drop_first() =~= command_table().skip(i + 1));
        if bytes_eq(c.name.as_bytes(), name.as_bytes()) {
            return Some(c);
        }
        i = i + 1;
    }
    None
}

/// Byte-wise prefix test.
fn starts_with(s: &[u8], p: &[u8]) -> (r: bool)
    ensures
        r == is_prefix(p@, s@),
{
    if p.len() > s.len() {
        return false;
    }
    let mut i: usize = 0;
    while i < p.len()
        invariant
            p@.len() <= s@.len(),
            0 <= i <= p@.len(),
            forall|k: int| 0 <= k < i ==> s@[k] == p@[k],
        decreases p@.len() - i,
    {
        if s[i] != p[i] {
            assert(s@.take(p@.len() as int)[i as int] != p@[i as int]);
            return false;
        }
        i = i + 1;
    }
    assert(s@.take(p@.len() as int) =~= p@);
    true
}

/// Returns the unique command name starting with `prefix`, or `None` if
/// zero or several commands match (ambiguous).
pub fn find_completion(prefix: &str) -> (r: Option<&'static str>)
    ensures
        ({
            let m = names_with_prefix(command_table(), prefix.spec_bytes());
            &&& m.len() == 1 ==> r == Some(m[0])
            &&& m.len() != 1 ==> r is None
        }),
{
    let cmds = list_commands();
    let mut found: Option<&'static str> = None;
    let mut i: usize = 0;
    while i < cmds.len()
        invariant
            cmds@ == command_table(),
            0 <= i <= cmds@.len(),
            ({
                let m = names_with_prefix(command_table().take(i as int), prefix.spec_bytes());
                &&& m.len() <= 1
                &&& m.len() == 1 ==> found == Some(m[0])
                &&& m.len() == 0 ==> found is None
            }),
        decreases cmds@.len() - i,
    {
        let c = cmds[i];
        assert(command_table().take(i + 1).drop_last() =~= command_table().take(i as int));
        if starts_with(c.name.as_bytes(), prefix.as_bytes()) {
            if found.is_some() {
                proof {
                    lemma_prefix_matches_grow(command_table(), prefix.spec_bytes(), i + 1);
                }
                return None;
            }
            found = Some(c.name);
        }
        i = i + 1;
    }
    assert(command_table().take(cmds@.len() as int) =~= command_table());
    found
}

/// Once two names match, longer prefixes of the table match at least two.
proof fn lemma_prefix_matches_grow(t: Seq<Command>, p: Seq<u8>, k: int)
    requires
        0 <= k <= t.len(),
        names_with_prefix(t.take(k), p).len() >= 2,
    ensures
        names_with_prefix(t, p).len() >= 2,
    decreases t.len() - k,
{
    if k < t.len() {
        assert(t.take(k + 1).drop_last() =~= t.take(k));
        lemma_prefix_matches_grow(t, p, k + 1);
    } else {
        assert(t.take(k) =~= t);
    }
}

/// Byte 2 of `b` continues a character that starts before it, so the
/// first two characters of `b` are not its first two bytes.
pub open spec fn splits_at_two(b: Seq<u8>) -> bool {
    b.len() > 2 && 0x80 <= b[2] < 0xC0
}

/// Returns a command whose name shares its first two characters with
/// `input` (and differs from `input`), or `None` if `input` is shorter
/// than two bytes or nothing matches.
///
/// Command names are plain ASCII, so only an input whose first two
/// characters are its first two bytes can match; when byte 2 continues a
/// character, the answer is `None`.
pub fn find_similar(input: &str) -> (r: Option<&'static str>)
    ensures
        input.spec_bytes().len() < 2 ==> r is None,
        splits_at_two(input.spec_bytes()) ==> r is None,
        input.spec_bytes().len() >= 2 && !splits_at_two(input.spec_bytes()) ==> r == first_similar(
            command_table(),
            input.spec_bytes().take(2),
            input.spec_bytes(),
        ),
{
    let ib = input.as_bytes();
    if ib.len() < 2 {
        return None;
    }
    if ib.len() > 2 && ib[2] >= 0x80 && ib[2] < 0xC0 {
        return None;
    }
    let prefix = vstd::slice::slice_subrange(ib, 0, 2);
    assert(prefix@ =~= input.spec_bytes().take(2));
    let cmds = list_commands();
    assert(command_table().skip(0) =~= command_table());
    let mut i: usize = 0;
    while i < cmds.len()
        invariant
            cmds@ == command_table(),
            0 <= i <= cmds@.len(),
            ib@.len() >= 2,
            !splits_at_two(ib@),
            prefix@ == input.spec_bytes().take(2),
            ib@ == input.spec_bytes(),
            first_similar(command_table(), prefix@, ib@) == first_similar(
                command_table().skip(i as int),
                prefix@,
                ib@,
            ),
        decreases cmds@.len() - i,
    {
        let c = cmds[i];
        assert(command_table().skip(i as int).drop_first() =~= command_table().skip(i + 1));
        let nb = c.name.as_bytes();
        if starts_with(nb, prefix) && !bytes_eq(nb, ib) {
            return Some(c.name);
        }
        i = i + 1;
    }
    None
}

} // verus!
