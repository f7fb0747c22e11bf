//! Topic selection for the quiz and challenge commands.

use crate::table::bytes_eq;
use vstd::prelude::*;
use vstd::string::StringSliceAdditionalSpecFns;

verus! {

/// Which quiz to show.
#[derive(Clone, Copy, PartialEq, Eq, Structural, Debug)]
pub enum QuizTopic {
    /// The list of topics.
    List,
    Process,
    Memory,
    Fs,
}

/// Which challenge to show.
#[derive(Clone, Copy, PartialEq, Eq, Structural, Debug)]
pub enum ChallengeKind {
    /// The list of challenges.
    List,
    CreateFile,
    FindPid,
    MemoryCheck,
}

/// The quiz for topic word `t`.
pub open spec fn quiz_for(t: Seq<u8>) -> QuizTopic {
    if t == "process".spec_bytes() || t == "1".spec_bytes() {
        QuizTopic::Process
    } else if t == "memory".spec_bytes() || t == "2".spec_bytes() {
        QuizTopic::Memory
    } else if t == "fs".spec_bytes() || t == "3".spec_bytes() {
        QuizTopic::Fs
    } else {
        QuizTopic::List
    }
}

/// The challenge for word `t`.
pub open spec fn challenge_for(t: Seq<u8>) -> ChallengeKind {
    if t == "1".spec_bytes() || t == "create-file".spec_bytes() {
        ChallengeKind::CreateFile
    } else if t == "2".spec_bytes() || t == "find-pid".spec_bytes() {
        ChallengeKind::FindPid
    } else if t == "3".spec_bytes() || t == "memory-check".spec_bytes() {
        ChallengeKind::MemoryCheck
    } else {
        ChallengeKind::List
    }
}

/// `s` is exactly `lit`.
fn word_is(s: &str, lit: &str) -> (r: bool)
    ensures
        r == (s.spec_bytes() == lit.spec_bytes()),
{
    bytes_eq(s.as_bytes(), lit.as_bytes())
}

/// Chooses the quiz for `quiz [topic]`: with no topic (or an unknown one)
/// the topic list.
pub fn cmd_quiz(args: &[&str]) -> (r: QuizTopic)
    ensures
        args@.len() == 0 ==> r == QuizTopic::List,
        args@.len() > 0 ==> r == quiz_for(args@[0].spec_bytes()),
{
    if args.len() == 0 {
        return QuizTopic::List;
    }
    let topic = args[0];
    if word_is(topic, "process") || word_is(topic, "1") {
        QuizTopic::Process
    } else if word_is(topic, "memory") || word_is(topic, "2") {
        QuizTopic::Memory
    } else if word_is(topic, "fs") || word_is(topic, "3") {
        QuizTopic::Fs
    } else {
        QuizTopic::List
    }
}

/// Chooses the challenge for `challenge [name]`: with no name (or an
/// unknown one) the challenge list.
pub fn cmd_challenge(args: &[&str]) -> (r: ChallengeKind)
    ensures
        args@.len() == 0 ==> r == ChallengeKind::List,
        args@.len() > 0 ==> r == challenge_for(args@[0].spec_bytes()),
{
    if args.len() == 0 {
        return ChallengeKind::List;
    }
    let t = args[0];
    if word_is(t, "1") || word_is(t, "create-file") {
        ChallengeKind::CreateFile
    } else if word_is(t, "2") || word_is(t, "find-pid") {
        ChallengeKind::FindPid
    } else if word_is(t, "3") || word_is(t, "memory-check") {
        ChallengeKind::MemoryCheck
    } else {
        ChallengeKind::List
    }
}

} // verus!
