//! Cold-start tracing for a child process: the labels, run identifiers, run
//! directory names and the typed record that a direct run produces.
use vstd::prelude::*;

pub mod cli;
pub mod label;
pub mod record;
pub mod run_dir;
pub mod runner;
pub mod timestamp;
pub mod text;

verus! {

/// `String::push` appends one character to the end of the string.
pub assume_specification[ String::push ](s: &mut String, ch: char)
    ensures
        final(s)@ == old(s)@.push(ch),
;

} // verus!
