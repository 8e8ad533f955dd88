//! Small shared value types.
use vstd::prelude::*;

verus! {

/// Terminal dimensions.
#[derive(Debug, Clone, Copy, PartialEq, Eq, Structural)]
pub struct Dimensions {
    /// Columns.
    pub cols: u16,
    /// Rows.
    pub rows: u16,
}

impl Default for Dimensions {
    fn default() -> (r: Self)
        ensures
            r == (Dimensions { cols: 80, rows: 24 }),
    {
        Dimensions { cols: 80, rows: 24 }
    }
}

/// A control character to send, held as its byte.
#[derive(Debug, Clone, Copy, PartialEq, Eq, Structural)]
pub struct ControlChar {
    /// The byte sent.
    pub byte: u8,
}

impl ControlChar {
    /// The control character for `Ctrl+<letter>` (the letter's code with bit 0x40 cleared).
    pub fn ctrl(letter: u8) -> (r: Self)
        requires
            64 <= letter < 128,
        ensures
            r.byte == letter - 64,
    {
        ControlChar { byte: letter - 64 }
    }
}

/// A completed match: what matched, the output before it and after it.
#[derive(Debug, Clone)]
pub struct Match {
    /// Index of the pattern that matched.
    pub pattern_index: usize,
    /// The matched text.
    pub matched: String,
    /// The output before the match.
    pub before: String,
    /// The output after the match.
    pub after: String,
    /// Capture groups.
    pub captures: Vec<String>,
}

impl Match {
    /// A match without captures.
    pub fn new(pattern_index: usize, matched: String, before: String, after: String) -> (r: Self)
        ensures
            r.pattern_index == pattern_index,
            r.matched == matched,
            r.before == before,
            r.after == after,
            r.captures@.len() == 0,
    {
        Match { pattern_index, matched, before, after, captures: Vec::new() }
    }

    /// The same match with these captures.
    pub fn with_captures(self, captures: Vec<String>) -> (r: Self)
        ensures
            r.pattern_index == self.pattern_index,
            r.matched == self.matched,
            r.before == self.before,
            r.after == self.after,
            r.captures == captures,
    {
        Match { captures, ..self }
    }
}

} // verus!
