//! Source locations of tokens and syntax-tree nodes.

use vstd::prelude::*;

verus! {

/// Where a token stands in the source: character offsets `start..end`, the
/// text between them, and the line (from 1) and column (from 0) of `start`.
#[derive(Debug, PartialEq, Eq)]
pub struct TextSpan {
    pub start: usize,
    pub end: usize,
    pub literal: String,
    pub line: usize,
    pub column: usize,
}

/// The mathematical content of a `TextSpan`.
pub struct SpanView {
    pub start: int,
    pub end: int,
    pub literal: Seq<char>,
    pub line: int,
    pub column: int,
}

impl View for TextSpan {
    type V = SpanView;

    open spec fn view(&self) -> SpanView {
        SpanView {
            start: self.start as int,
            end: self.end as int,
            literal: self.literal@,
            line: self.line as int,
            column: self.column as int,
        }
    }
}

impl TextSpan {
    pub fn new(start: usize, end: usize, literal: String, line: usize, column: usize) -> (r: Self)
        ensures
            r.start == start,
            r.end == end,
            r.literal@ == literal@,
            r.line == line,
            r.column == column,
    {
        TextSpan { start, end, literal, line, column }
    }

    /// A copy with the same content.
    pub fn duplicate(&self) -> (r: Self)
        ensures
            r@ == self@,
    {
        TextSpan {
            start: self.start,
            end: self.end,
            literal: self.literal.clone(),
            line: self.line,
            column: self.column,
        }
    }
}

} // verus!
