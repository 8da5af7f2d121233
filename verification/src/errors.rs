//! Source positions and the diagnostics that are reported against them.

use vstd::prelude::*;

verus! {

/// A place in a source text.
#[derive(Clone, Copy, Debug, PartialEq, Eq, Structural, PartialOrd, Ord, Hash)]
pub struct Position {
    pub line: usize,
    pub column: usize,
    pub idx: usize,
}

/// A stretch of source text, from `start` to `end`.
#[derive(Clone, Copy, Debug, PartialEq, Eq, Structural, PartialOrd, Ord, Hash)]
pub struct Span {
    pub start: Position,
    pub end: Position,
}

/// A value together with the stretch of source text it was read from.
#[derive(Clone, Debug, PartialEq, Eq, Hash)]
pub struct Spanned<T> {
    pub contents: T,
    pub span: Span,
}

impl<T> Spanned<T> {
    /// `contents` as read from `span`.
    pub fn from(span: Span, contents: T) -> (r: Spanned<T>)
        ensures
            r.contents == contents,
            r.span == span,
    {
        Spanned { contents, span }
    }

    /// The stretch of source text of this value.
    pub fn span(&self) -> (r: Span)
        ensures
            r == self.span,
    {
        self.span
    }
}

/// An error message with a second message that points at a span.
#[derive(Clone, Debug, PartialEq, Eq)]
pub struct CustomDiagnostic {
    pub message: String,
    pub secondary_message: String,
    pub secondary_span: Span,
}

impl CustomDiagnostic {
    /// The report with one message of its own and one at a span.
    pub fn simple_error(primary_message: String, secondary_message: String, secondary_span: Span) -> (r:
        CustomDiagnostic)
        ensures
            r.message == primary_message,
            r.secondary_message == secondary_message,
            r.secondary_span == secondary_span,
    {
        CustomDiagnostic { message: primary_message, secondary_message, secondary_span }
    }
}

} // verus!
