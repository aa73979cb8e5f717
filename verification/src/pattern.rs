use vstd::prelude::*;

verus! {

/// A parsed pattern, as a tree over the closed set of constructs that the
/// scorer distinguishes. The tree is produced by the pattern compiler (see
/// `get`) or built directly by a caller; it is read-only during scoring.
#[derive(Debug)]
pub enum Pattern {
    /// Matches only the empty string; consumes nothing and contributes nothing.
    Empty,
    /// A fixed byte sequence that the target must contain verbatim.
    Literal(Vec<u8>),
    /// A character class: an ordered list of inclusive symbol ranges, plus a
    /// flag saying whether the class ranges over Unicode scalar values
    /// (`unicode == true`) or over raw bytes.
    Class {
        /// Inclusive `(start, end)` symbol ranges.
        ranges: Vec<(u32, u32)>,
        /// True for a class over Unicode scalar values, false for a byte class.
        unicode: bool,
    },
    /// A zero-width assertion (anchor, word boundary, look-around); all
    /// assertion subtypes score identically, so they are not distinguished.
    Look,
    /// A greedy repetition of one child.
    Repetition(Box<Pattern>),
    /// A capture group around one child; scoring passes straight through it.
    Capture(Box<Pattern>),
    /// An ordered sequence of children, matched one after the other.
    Concat(Vec<Pattern>),
    /// An ordered list of alternative branches.
    Alternation(Vec<Pattern>),
}

/// The one error of the scoring API: the pattern text is not syntactically
/// valid, as decided by the pattern compiler.
#[derive(Debug, PartialEq, Eq, Structural, Clone, Copy)]
pub enum PatternError {
    /// The pattern failed to parse.
    Syntax,
}

} // verus!
