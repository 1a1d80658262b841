//! Source positions attached to syntax nodes and diagnostics.

use vstd::prelude::*;

verus! {

/// A range of the source text, in character offsets.
#[derive(Clone, Copy, Debug, PartialEq, Eq, Structural)]
pub struct Span {
    /// Offset of the first character of the range.
    pub begin: u32,
    /// Offset one past the last character of the range.
    pub end: u32,
}

impl Span {
    /// An empty span at offset zero, used where no better position is known.
    pub fn zero() -> (r: Span)
        ensures
            r.begin == 0,
            r.end == 0,
    {
        Span { begin: 0, end: 0 }
    }

    /// A span from `begin` to `end`.
    pub fn new(begin: u32, end: u32) -> (r: Span)
        ensures
            r.begin == begin,
            r.end == end,
    {
        Span { begin, end }
    }
}

/// A value paired with the span it came from.
#[derive(Clone, Debug)]
pub struct Spanned<T> {
    /// Where the value stood in the source.
    pub span: Span,
    /// The value itself.
    pub node: T,
}

} // verus!
