//! Diagnostics: error kinds, source spans, and their messages.

use vstd::prelude::*;

verus! {

/// A half-open region `[lo, hi)` of character positions in an input text.
///
/// Spans point back into the text handed to the parser that produced the
/// diagnostic (or, for a variant's provenance, into the declaration text).
/// They serve error reporting only and never take part in equality of
/// generated output.
#[derive(Clone, Copy, Debug, PartialEq, Eq, Structural)]
pub struct SrcSpan {
    pub lo: usize,
    pub hi: usize,
}

/// The kinds of input the transform rejects.
#[derive(Clone, Copy, Debug, PartialEq, Eq, Structural)]
pub enum ErrorKind {
    /// The first argument is not a range expression at all.
    NotARange,
    /// A bound of the range is present but is not a non-negative integer
    /// literal that fits the machine word.
    BoundNotIntegerLiteral,
    /// The range has no upper bound (`a..` or `..`).
    MissingUpperBound,
    /// The annotated declaration is not an enum declaration.
    NotAnEnum,
}

/// A terminal, user-surfaced error: what went wrong and where.
#[derive(Clone, Copy, Debug, PartialEq, Eq, Structural)]
pub struct Diagnostic {
    pub kind: ErrorKind,
    pub span: SrcSpan,
}

impl ErrorKind {
    /// The user-facing message for this kind of error.
    pub fn message(&self) -> (r: &'static str)
        ensures
            r@ == message_spec(*self),
    {
        match self {
            ErrorKind::NotARange => "range-enum requires a range",
            ErrorKind::BoundNotIntegerLiteral => "range-enum requires a usize range",
            ErrorKind::MissingUpperBound => "range-enum requires an explicit end of range",
            ErrorKind::NotAnEnum => "range-enum requires an enum",
        }
    }
}

/// The message text owed for each error kind.
pub open spec fn message_spec(kind: ErrorKind) -> Seq<char> {
    match kind {
        ErrorKind::NotARange => "range-enum requires a range"@,
        ErrorKind::BoundNotIntegerLiteral => "range-enum requires a usize range"@,
        ErrorKind::MissingUpperBound => "range-enum requires an explicit end of range"@,
        ErrorKind::NotAnEnum => "range-enum requires an enum"@,
    }
}

impl Diagnostic {
    /// Builds a diagnostic of the given kind spanning `[lo, hi)`.
    pub fn new(kind: ErrorKind, lo: usize, hi: usize) -> (r: Diagnostic)
        ensures
            r == (Diagnostic { kind, span: SrcSpan { lo, hi } }),
    {
        Diagnostic { kind, span: SrcSpan { lo, hi } }
    }

    /// The user-facing message for this diagnostic.
    pub fn message(&self) -> (r: &'static str)
        ensures
            r@ == message_spec(self.kind),
    {
        self.kind.message()
    }
}

} // verus!
