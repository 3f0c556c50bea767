use vstd::prelude::*;

pub mod ansi;
pub mod extract;
pub mod filter;
pub mod laws;
pub mod registry;
pub mod render;
pub mod text;
pub mod wrap;

verus! {

/// Severity classification of a log record.
#[derive(Clone, Copy, PartialEq, Eq, Structural, Debug)]
pub enum Level {
    Verbose,
    Debug,
    Info,
    Warn,
    Error,
    Fatal,
    Unknown,
}

} // verus!
