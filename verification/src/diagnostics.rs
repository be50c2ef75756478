//! The input schema: already-decoded compiler diagnostics. An outside
//! collaborator (for example a JSON decoder around the compiler's structured
//! output) is expected to supply these records; this library only reads them.

use vstd::prelude::*;

verus! {

/// One physical source line of a span, with the 1-based column range that the
/// compiler highlights on it.
#[derive(Debug, Clone, Hash, PartialEq)]
pub struct DiagnosticSpanLine {
    pub text: String,
    pub highlight_start: usize,
    pub highlight_end: usize,
}

/// A rectangular region of source text, possibly spanning several lines, with
/// an optional machine-suggested replacement for the highlighted part.
#[derive(Debug, Clone, Hash, PartialEq)]
pub struct DiagnosticSpan {
    pub file_name: String,
    pub line_start: usize,
    pub line_end: usize,
    pub column_start: usize,
    pub column_end: usize,
    pub suggested_replacement: Option<String>,
    pub text: Vec<DiagnosticSpanLine>,
}

/// A structured compiler message: a top-level text, its spans, and nested
/// sub-diagnostics (help or note annotations).
#[derive(Debug, Hash, PartialEq)]
pub struct Diagnostic {
    pub message: String,
    pub spans: Vec<DiagnosticSpan>,
    pub children: Vec<Diagnostic>,
}

} // verus!
