//! Verified core of a small teaching operating system: the shell's line
//! editing, parsing and bookkeeping, the system-call decoder, and the
//! span-tracing ring buffer with its context stack and JSON export.

pub mod alias;
pub mod chars;
pub mod cmdargs;
pub mod commands;
pub mod context;
pub mod engine;
pub mod env_cmds;
pub mod errors;
pub mod export;
pub mod history;
pub mod ids;
pub mod input;
pub mod journey;
pub mod manual;
pub mod null;
pub mod numparse;
pub mod parser;
pub mod pipe;
pub mod quiz;
pub mod ringbuffer;
pub mod shell;
pub mod span;
pub mod syscall;
pub mod table;
pub mod text;
pub mod textlines;
pub mod utf8text;
