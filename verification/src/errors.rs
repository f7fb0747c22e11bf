//! Recovery advice for error messages.

use crate::text::{contains_bytes, contains_pattern};
use vstd::prelude::*;
use vstd::string::StringSliceAdditionalSpecFns;

verus! {

/// The advice for an error message `e`: the first rule whose phrase occurs
/// in `e` decides.
pub open spec fn recovery_for(e: Seq<u8>) -> Option<&'static str> {
    if contains_bytes(e, "not found".spec_bytes()) {
        Some("Check the path with 'ls'. File names are case-sensitive.")
    } else if contains_bytes(e, "not a directory".spec_bytes()) {
        Some("The path points to a file, not a directory. Use 'cat' instead of 'ls'.")
    } else if contains_bytes(e, "not a file".spec_bytes()) {
        Some("The path is a directory. Use 'ls' to view its contents.")
    } else if contains_bytes(e, "already exists".spec_bytes()) {
        Some("A file or directory with that name exists. Choose a different name.")
    } else if contains_bytes(e, "permission".spec_bytes()) {
        Some("This operation is not allowed on this file (e.g. writing to /proc/).")
    } else if contains_bytes(e, "invalid".spec_bytes()) {
        Some("Check the command syntax with 'explain <command>'.")
    } else if contains_bytes(e, "Invalid PID".spec_bytes()) {
        Some("Use 'ps' to see valid PIDs.")
    } else {
        None
    }
}

/// Suggests how to recover from the error message `err`, if a known phrase
/// occurs in it.
pub fn suggest_recovery(err: &str) -> (r: Option<&'static str>)
    ensures
        r == recovery_for(err.spec_bytes()),
{
    if contains_pattern(err, "not found") {
        return Some("Check the path with 'ls'. File names are case-sensitive.");
    }
    if contains_pattern(err, "not a directory") {
        return Some("The path points to a file, not a directory. Use 'cat' instead of 'ls'.");
    }
    if contains_pattern(err, "not a file") {
        return Some("The path is a directory. Use 'ls' to view its contents.");
    }
    if contains_pattern(err, "already exists") {
        return Some("A file or directory with that name exists. Choose a different name.");
    }
    if contains_pattern(err, "permission") {
        return Some("This operation is not allowed on this file (e.g. writing to /proc/).");
    }
    if contains_pattern(err, "invalid") {
        return Some("Check the command syntax with 'explain <command>'.");
    }
    if contains_pattern(err, "Invalid PID") {
        return Some("Use 'ps' to see valid PIDs.");
    }
    None
}

} // verus!
