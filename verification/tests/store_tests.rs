use minios::alias::{expand_alias_line, Aliases};
use minios::commands::{find_command, find_completion, find_similar, list_commands};
use minios::env_cmds::{get_var, init_defaults, Environment};
use minios::journey::{
    chapter_progress, completed_count, graduation_stage, is_done, mark, next_step,
    percent_complete, step_hint, step_marker, GraduationStage, Journey, STEP_GREP, STEP_HELP,
    STEP_PS,
};
use minios::quiz::{cmd_challenge, cmd_quiz, ChallengeKind, QuizTopic};

#[test]
fn alias_set_then_get() {
    let mut a = Aliases::new();
    assert_eq!(a.get("ll"), None);
    assert!(a.set("ll", "ls /"));
    assert_eq!(a.get("ll"), Some("ls /"));
    assert!(a.set("ll", "ls /tmp"));
    assert_eq!(a.get("ll"), Some("ls /tmp"));
    assert!(a.set("p", "ps"));
    assert_eq!(a.get("ll"), Some("ls /tmp"));
    assert_eq!(a.get("p"), Some("ps"));
}

#[test]
fn alias_limits() {
    let mut a = Aliases::new();
    let long_name = "n".repeat(20);
    assert!(a.set(&long_name, "x"));
    assert_eq!(a.get(&long_name), None);
    assert_eq!(a.get(&long_name[..16]), Some("x"));
    let long_cmd = "c".repeat(200);
    assert!(a.set("k", &long_cmd));
    assert_eq!(a.get("k").unwrap().len(), 128);
    for i in 0..14 {
        assert!(a.set(&format!("a{}", i), "y"));
    }
    assert!(!a.set("full", "z"));
    assert_eq!(a.get("full"), None);
    assert!(a.set("k", "kept"));
    assert_eq!(a.get("k"), Some("kept"));
}

#[test]
fn alias_expansion_line() {
    assert_eq!(expand_alias_line("ls", &["/", "-a"]), b"ls / -a".to_vec());
    assert_eq!(expand_alias_line("ls", &[]), b"ls".to_vec());
    let big = "x".repeat(300);
    let line = expand_alias_line("ls", &[&big, "y"]);
    assert_eq!(line.len(), 255);
    assert_eq!(&line[..3], b"ls ");
}

#[test]
fn environment_defaults_and_lookup() {
    let mut env = Environment::new();
    assert_eq!(get_var(&env, "VERSION"), "");
    init_defaults(&mut env);
    assert_eq!(get_var(&env, "VERSION"), "0.4.0");
    assert_eq!(get_var(&env, "SHELL"), "minios-shell");
    assert!(env.set("SHELL", "other"));
    assert_eq!(get_var(&env, "SHELL"), "other");
    assert_eq!(get_var(&env, "NOPE"), "");
    let long = "v".repeat(100);
    assert!(env.set("LONG", &long));
    assert_eq!(get_var(&env, "LONG").len(), 64);
}

#[test]
fn journey_progress() {
    let mut j = Journey::new();
    assert!(!is_done(&j, STEP_HELP));
    assert_eq!(step_marker(&j, STEP_HELP), "[ ]");
    assert_eq!(next_step(&j), Some(0));
    assert_eq!(step_hint(0), "Try: help");
    assert_eq!(step_hint(17), "");
    mark(&mut j, STEP_HELP);
    mark(&mut j, STEP_HELP);
    mark(&mut j, STEP_GREP);
    assert!(is_done(&j, STEP_HELP));
    assert!(!is_done(&j, STEP_PS));
    assert_eq!(step_marker(&j, STEP_HELP), "[x]");
    assert_eq!(chapter_progress(&j, &[0, 1, 2, 3, 4]), (1, 5));
    assert_eq!(completed_count(&j), 2);
    assert_eq!(percent_complete(&j), 11);
    assert_eq!(next_step(&j), Some(1));
    assert_eq!(graduation_stage(&j), GraduationStage::KeepExploring);
    for s in 0..9 {
        mark(&mut j, s);
    }
    assert_eq!(completed_count(&j), 10);
    assert_eq!(graduation_stage(&j), GraduationStage::GreatProgress);
    for s in 0..17 {
        mark(&mut j, s);
    }
    assert_eq!(percent_complete(&j), 100);
    assert_eq!(next_step(&j), None);
    assert_eq!(graduation_stage(&j), GraduationStage::Complete);
    mark(&mut j, 31);
    assert_eq!(completed_count(&j), 17);
}

#[test]
fn command_registry() {
    let all = list_commands();
    assert_eq!(all.len(), 44);
    assert_eq!(all[0].name, "help");
    assert_eq!(all[43].name, "memmap");
    for i in 0..all.len() {
        for j in (i + 1)..all.len() {
            assert_ne!(all[i].name, all[j].name);
        }
    }
    assert!(find_command("signal").is_none());
    assert_eq!(find_completion("ps"), Some("ps"));
    assert_eq!(find_command("help").unwrap().description, "List all available commands");
    assert!(find_command("nope").is_none());
    assert_eq!(find_completion("pag"), Some("pagetable"));
    assert_eq!(find_completion("he"), None);
    assert_eq!(find_completion("zz"), None);
    assert_eq!(find_similar("hepl"), Some("help"));
    assert_eq!(find_similar("help"), Some("head"));
    assert_eq!(find_similar("x"), None);
    assert_eq!(find_similar("aé"), None);
    assert_eq!(find_similar("é"), None);
    assert_eq!(find_similar("lsé"), Some("ls"));
}

#[test]
fn quiz_and_challenge_topics() {
    assert_eq!(cmd_quiz(&[]), QuizTopic::List);
    assert_eq!(cmd_quiz(&["2"]), QuizTopic::Memory);
    assert_eq!(cmd_quiz(&["process"]), QuizTopic::Process);
    assert_eq!(cmd_quiz(&["fs"]), QuizTopic::Fs);
    assert_eq!(cmd_quiz(&["other"]), QuizTopic::List);
    assert_eq!(cmd_challenge(&[]), ChallengeKind::List);
    assert_eq!(cmd_challenge(&["find-pid"]), ChallengeKind::FindPid);
    assert_eq!(cmd_challenge(&["1"]), ChallengeKind::CreateFile);
    assert_eq!(cmd_challenge(&["3"]), ChallengeKind::MemoryCheck);
    assert_eq!(cmd_challenge(&["x"]), ChallengeKind::List);
}

#[test]
fn journey_complete_exactly_when_no_next_step() {
    let mut j = Journey::new();
    for s in 0..16 {
        mark(&mut j, s);
    }
    mark(&mut j, 20);
    assert_eq!(completed_count(&j), 16);
    assert_eq!(next_step(&j), Some(16));
    mark(&mut j, 16);
    assert_eq!(completed_count(&j), 17);
    assert_eq!(next_step(&j), None);
}
