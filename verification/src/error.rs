//! Compile-time failures. Malformed source is a fatal, whole-file
//! failure: the compiler never produces a partial registry.

use vstd::prelude::*;

verus! {

/// What went wrong on a source line.
#[derive(Clone, Copy, PartialEq, Eq, Structural, Debug)]
pub enum ErrorKind {
    /// A `move` instruction whose direction token is missing or unknown.
    BadDirection,
    /// A distance or duration token that is missing, not a decimal
    /// integer, or out of range.
    BadInteger,
    /// A `press`, `release` or `hold` target that is missing or not in
    /// the key lexicon. `button_hint` is set when the token spells a
    /// mouse-button name, so the author probably forgot the word `mouse`.
    BadKey { button_hint: bool },
    /// A `mouse` target whose button token is missing or unknown.
    BadButton,
    /// An `end` was reached while no macro name was set.
    MissingName,
    /// A line that is neither an instruction nor the name of a declared
    /// macro.
    UnknownInstruction,
    /// A declared macro that never reached its `end`.
    Unterminated,
}

/// A fatal source error, carrying the 1-based number of the offending
/// line.
#[derive(Clone, Copy, PartialEq, Eq, Structural, Debug)]
pub struct SourceSyntaxError {
    pub line: usize,
    pub kind: ErrorKind,
}

} // verus!
