//! Extraction of actionable code-fix suggestions from structured compiler
//! diagnostics. Given a [`diagnostics::Diagnostic`], [`collect_suggestions`]
//! assembles zero or one [`Suggestion`]: the diagnostic's message together
//! with context [`Snippet`]s for its own spans and one [`Replacement`] for
//! each child span that carries machine-suggested replacement text.

use vstd::prelude::*;

pub mod diagnostics;
pub mod snippet;
pub mod suggest;
pub mod text;

pub use snippet::parse_snippet;
pub use suggest::collect_span;
pub use suggest::collect_suggestions;

use text::decimal_digits;

verus! {

/// A 1-based line/column position in a source file.
#[derive(Debug, Copy, Clone, Hash, PartialEq, Eq, Structural)]
pub struct LinePosition {
    pub line: usize,
    pub column: usize,
}

impl LinePosition {
    /// The canonical rendering `"{line}:{column}"`.
    pub open spec fn display_view(self) -> Seq<char> {
        decimal_digits(self.line as int) + seq![':'] + decimal_digits(self.column as int)
    }

    pub fn to_display_string(&self) -> (s: String)
        ensures
            s@ == self.display_view(),
    {
        let mut s = String::new();
        text::append_decimal(&mut s, self.line);
        proof {
            reveal_strlit(":");
        }
        s.append(":");
        text::append_decimal(&mut s, self.column);
        proof {
            assert(s@ =~= self.display_view());
        }
        s
    }
}

/// An inclusive region of source text, possibly spanning several lines.
#[derive(Debug, Copy, Clone, Hash, PartialEq, Eq, Structural)]
pub struct LineRange {
    pub start: LinePosition,
    pub end: LinePosition,
}

impl LineRange {
    /// The canonical rendering `"{start}-{end}"`.
    pub open spec fn display_view(self) -> Seq<char> {
        self.start.display_view() + seq!['-'] + self.end.display_view()
    }

    pub fn to_display_string(&self) -> (s: String)
        ensures
            s@ == self.display_view(),
    {
        let mut s = self.start.to_display_string();
        proof {
            reveal_strlit("-");
        }
        s.append("-");
        let e = self.end.to_display_string();
        s.append(e.as_str());
        proof {
            assert(s@ =~= self.display_view());
        }
        s
    }
}

/// The extracted, unindented source text for one span, split around the
/// highlighted sub-range.
#[derive(Debug, Hash, PartialEq)]
pub struct Snippet {
    pub sub_message: Option<String>,
    pub file_name: String,
    pub line_range: LineRange,
    /// leading surrounding text, text to replace, trailing surrounding text
    ///
    /// This split is useful for highlighting the part that gets replaced.
    pub text: (String, String, String),
}

impl Clone for Snippet {
    fn clone(&self) -> (r: Self)
        ensures
            r == *self,
    {
        Snippet {
            sub_message: match &self.sub_message {
                Some(s) => Some(s.clone()),
                None => None,
            },
            file_name: self.file_name.clone(),
            line_range: self.line_range,
            text: (self.text.0.clone(), self.text.1.clone(), self.text.2.clone()),
        }
    }
}

/// A flagged region paired with the compiler-suggested substitute text.
#[derive(Debug, Clone, Hash, PartialEq)]
pub struct Replacement {
    pub snippet: Snippet,
    pub replacement: String,
}

/// The aggregate result for one diagnostic: its message, the context
/// snippets of its own spans, and every replacement gathered from its
/// children.
#[derive(Debug, Clone, Hash, PartialEq)]
pub struct Suggestion {
    pub message: String,
    pub snippets: Vec<Snippet>,
    pub replacements: Vec<Replacement>,
}

} // verus!
