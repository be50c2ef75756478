//! The snippet extractor: turns one diagnostic span into a [`Snippet`] whose
//! text is uniformly unindented and split into lead / body / tail around the
//! highlighted sub-range.

use vstd::math::min;
use vstd::prelude::*;
use vstd::string::StrSliceExecFns;
use vstd::string::StringExecFns;

use crate::diagnostics::{DiagnosticSpan, DiagnosticSpanLine};
use crate::text::{is_whitespace, leading_ws, leading_ws_count, lemma_leading_ws_bounds};
use crate::{LinePosition, LineRange, Snippet};

verus! {

/// The indentation budget of one line record: its count of leading
/// whitespace characters, capped at the line's `highlight_start` column.
pub open spec fn line_indent(l: DiagnosticSpanLine) -> int {
    min(leading_ws(l.text@), l.highlight_start as int)
}

/// The uniform indent of a span: the minimum budget over all its lines.
/// Stripping this shared minimum (rather than each line's own indentation)
/// keeps continuation lines correctly aligned relative to the first line.
pub open spec fn span_indent(lines: Seq<DiagnosticSpanLine>) -> int
    recommends
        lines.len() >= 1,
    decreases lines.len(),
{
    if lines.len() <= 1 {
        line_indent(lines[0])
    } else {
        min(span_indent(lines.drop_last()), line_indent(lines.last()))
    }
}

pub proof fn lemma_span_indent_le(lines: Seq<DiagnosticSpanLine>, i: int)
    requires
        0 <= i < lines.len(),
    ensures
        span_indent(lines) <= line_indent(lines[i]),
    decreases lines.len(),
{
    if lines.len() <= 1 {
    } else if i == lines.len() - 1 {
    } else {
        lemma_span_indent_le(lines.drop_last(), i);
        assert(lines.drop_last()[i] == lines[i]);
    }
}

pub proof fn lemma_span_indent_nonneg(lines: Seq<DiagnosticSpanLine>)
    requires
        lines.len() >= 1,
    ensures
        span_indent(lines) >= 0,
    decreases lines.len(),
{
    if lines.len() <= 1 {
        lemma_leading_ws_bounds(lines[0].text@);
    } else {
        lemma_span_indent_nonneg(lines.drop_last());
        lemma_leading_ws_bounds(lines.last().text@);
    }
}

/// The inputs on which the extractor is defined: at least one line record,
/// highlight columns that are 1-based and lie within their line, and a
/// uniform indent that stays left of the first line's highlight start and of
/// the last line's highlight end.
pub open spec fn span_wf(span: DiagnosticSpan) -> bool {
    let lines = span.text@;
    let n = lines.len() as int;
    &&& n >= 1
    &&& 1 <= lines[0].highlight_start as int
    &&& lines[0].highlight_start <= lines[0].highlight_end
    &&& lines[0].highlight_end as int <= lines[0].text@.len() + 1
    &&& span_indent(lines) <= lines[0].highlight_start as int - 1
    &&& n > 1 ==> {
        &&& 1 <= lines[n - 1].highlight_end as int
        &&& lines[n - 1].highlight_end as int <= lines[n - 1].text@.len() + 1
        &&& span_indent(lines) <= lines[n - 1].highlight_end as int - 1
    }
}

/// The unhighlighted context on the first line, after the uniform indent.
pub open spec fn spec_lead(span: DiagnosticSpan) -> Seq<char> {
    let lines = span.text@;
    lines[0].text@.subrange(span_indent(lines), lines[0].highlight_start as int - 1)
}

/// The newline-joined interior lines (indices `1 .. j`), each unindented.
pub open spec fn interior_body(lines: Seq<DiagnosticSpanLine>, indent: int, j: int) -> Seq<char>
    decreases j,
{
    if j <= 1 {
        Seq::empty()
    } else {
        interior_body(lines, indent, j - 1) + seq!['\n'] + lines[j - 1].text@.subrange(
            indent,
            lines[j - 1].text@.len() as int,
        )
    }
}

/// The highlighted text: from `highlight_start` on the first line through
/// `highlight_end` on the last, interior lines unindented and joined by
/// single newlines.
pub open spec fn spec_body(span: DiagnosticSpan) -> Seq<char> {
    let lines = span.text@;
    let n = lines.len() as int;
    let indent = span_indent(lines);
    let first = lines[0].text@.subrange(
        lines[0].highlight_start as int - 1,
        lines[0].highlight_end as int - 1,
    );
    if n == 1 {
        first
    } else {
        first + interior_body(lines, indent, n - 1) + seq!['\n'] + lines[n - 1].text@.subrange(
            indent,
            lines[n - 1].highlight_end as int - 1,
        )
    }
}

/// The unhighlighted context after `highlight_end` on the last line.
pub open spec fn spec_tail(span: DiagnosticSpan) -> Seq<char> {
    let lines = span.text@;
    let n = lines.len() as int;
    lines[n - 1].text@.subrange(
        lines[n - 1].highlight_end as int - 1,
        lines[n - 1].text@.len() as int,
    )
}

/// The 1-based line/column rectangle of a span, taken verbatim.
pub open spec fn span_range(span: DiagnosticSpan) -> LineRange {
    LineRange {
        start: LinePosition { line: span.line_start, column: span.column_start },
        end: LinePosition { line: span.line_end, column: span.column_end },
    }
}

pub open spec fn opt_view(m: Option<String>) -> Option<Seq<char>> {
    match m {
        Some(s) => Some(s@),
        None => None,
    }
}

/// What it means for `s` to be the snippet extracted from `span` with
/// annotation `msg`.
pub open spec fn snippet_matches(s: Snippet, msg: Option<Seq<char>>, span: DiagnosticSpan) -> bool {
    &&& opt_view(s.sub_message) == msg
    &&& s.file_name@ == span.file_name@
    &&& s.line_range == span_range(span)
    &&& s.text.0@ == spec_lead(span)
    &&& s.text.1@ == spec_body(span)
    &&& s.text.2@ == spec_tail(span)
}

/// Law: on a single-line span, lead, body and tail partition the line after
/// uniform-indent stripping: `lead + body + tail` is exactly the line's text
/// from the uniform indent onward.
pub proof fn lemma_single_line_split(span: DiagnosticSpan)
    requires
        span_wf(span),
        span.text@.len() == 1,
    ensures
        spec_lead(span) + spec_body(span) + spec_tail(span) == span.text@[0].text@.subrange(
            span_indent(span.text@),
            span.text@[0].text@.len() as int,
        ),
{
    let lines = span.text@;
    lemma_span_indent_nonneg(lines);
    lemma_span_indent_le(lines, 0);
    lemma_leading_ws_bounds(lines[0].text@);
    assert(spec_lead(span) + spec_body(span) + spec_tail(span) =~= lines[0].text@.subrange(
        span_indent(lines),
        lines[0].text@.len() as int,
    ));
}

/// Law: the uniform indent is monotone and stripping it is idempotent. It
/// never exceeds any line's own whitespace-capped budget (so no line loses
/// more than `highlight_start` permits, however deep another line's
/// indentation is), it strips whitespace only, and recounting after the
/// strip finds exactly the residual leading whitespace.
pub proof fn lemma_indent_monotone_idempotent(lines: Seq<DiagnosticSpanLine>, i: int)
    requires
        lines.len() >= 1,
        0 <= i < lines.len(),
    ensures
        0 <= span_indent(lines) <= line_indent(lines[i]),
        span_indent(lines) <= leading_ws(lines[i].text@),
        span_indent(lines) <= lines[0].highlight_start as int,
        forall|j: int| 0 <= j < span_indent(lines) ==> is_whitespace(lines[i].text@[j]),
        leading_ws(lines[i].text@.skip(span_indent(lines))) == leading_ws(lines[i].text@)
            - span_indent(lines),
{
    lemma_span_indent_nonneg(lines);
    lemma_span_indent_le(lines, i);
    lemma_span_indent_le(lines, 0);
    lemma_leading_ws_bounds(lines[i].text@);
    crate::text::lemma_leading_ws_skip(lines[i].text@, span_indent(lines));
}

/// The `i`-th of the `n` segments that make up a span's body: the first
/// starts at the first line's `highlight_start`, the last ends at the last
/// line's `highlight_end`, interior segments are whole unindented lines.
pub open spec fn body_segment(span: DiagnosticSpan, i: int) -> Seq<char> {
    let lines = span.text@;
    let n = lines.len() as int;
    let indent = span_indent(lines);
    if i == 0 {
        lines[0].text@.subrange(
            lines[0].highlight_start as int - 1,
            lines[0].highlight_end as int - 1,
        )
    } else if i < n - 1 {
        lines[i].text@.subrange(indent, lines[i].text@.len() as int)
    } else {
        lines[n - 1].text@.subrange(indent, lines[n - 1].highlight_end as int - 1)
    }
}

/// Segments `0 .. j` of a span's body, joined by single newline separators.
pub open spec fn joined_segments(span: DiagnosticSpan, j: int) -> Seq<char>
    decreases j,
{
    if j <= 1 {
        body_segment(span, 0)
    } else {
        joined_segments(span, j - 1) + seq!['\n'] + body_segment(span, j - 1)
    }
}

proof fn lemma_joined_prefix(span: DiagnosticSpan, j: int)
    requires
        span_wf(span),
        1 <= j <= span.text@.len() - 1,
    ensures
        body_segment(span, 0) + interior_body(span.text@, span_indent(span.text@), j)
            == joined_segments(span, j),
    decreases j,
{
    let lines = span.text@;
    let indent = span_indent(lines);
    if j == 1 {
        assert(body_segment(span, 0) + interior_body(lines, indent, 1) =~= joined_segments(
            span,
            1,
        ));
    } else {
        lemma_joined_prefix(span, j - 1);
        assert(body_segment(span, 0) + interior_body(lines, indent, j) =~= (body_segment(span, 0)
            + interior_body(lines, indent, j - 1)) + seq!['\n'] + body_segment(span, j - 1));
    }
}

/// Law: the body of a span of `n` lines is exactly its `n` segments joined
/// by single newline separators.
pub proof fn lemma_body_joined(span: DiagnosticSpan)
    requires
        span_wf(span),
    ensures
        spec_body(span) == joined_segments(span, span.text@.len() as int),
{
    let lines = span.text@;
    let n = lines.len() as int;
    if n == 1 {
    } else {
        lemma_joined_prefix(span, n - 1);
        assert(spec_body(span) =~= joined_segments(span, n - 1) + seq!['\n'] + body_segment(
            span,
            n - 1,
        ));
    }
}

fn line_indent_exec(l: &DiagnosticSpanLine) -> (r: usize)
    ensures
        r as int == line_indent(*l),
{
    let ws = leading_ws_count(l.text.as_str());
    if ws < l.highlight_start {
        ws
    } else {
        l.highlight_start
    }
}

fn span_indent_exec(span: &DiagnosticSpan) -> (r: usize)
    requires
        span.text@.len() >= 1,
    ensures
        r as int == span_indent(span.text@),
{
    let ghost lines = span.text@;
    let n = span.text.len();
    let mut indent = line_indent_exec(&span.text[0]);
    proof {
        assert(lines.subrange(0, 1) =~= seq![lines[0]]);
    }
    let mut i: usize = 1;
    while i < n
        invariant
            1 <= i <= n,
            n == lines.len(),
            lines == span.text@,
            indent as int == span_indent(lines.subrange(0, i as int)),
        decreases n - i,
    {
        let li = line_indent_exec(&span.text[i]);
        proof {
            let t = lines.subrange(0, i as int + 1);
            assert(t.drop_last() =~= lines.subrange(0, i as int));
            assert(t.last() == lines[i as int]);
        }
        if li < indent {
            indent = li;
        }
        i += 1;
    }
    proof {
        assert(lines.subrange(0, n as int) =~= lines);
    }
    indent
}

/// Builds the snippet for one span: unindents every line by the uniform
/// indent and splits the text into lead / body / tail around the highlighted
/// sub-range, carrying `message` over as the snippet's annotation.
pub fn parse_snippet(message: Option<String>, span: &DiagnosticSpan) -> (r: Snippet)
    requires
        span_wf(*span),
    ensures
        snippet_matches(r, opt_view(message), *span),
{
    let ghost lines = span.text@;
    let n = span.text.len();
    let indent = span_indent_exec(span);
    let first = &span.text[0];
    let hs = first.highlight_start;
    let he = first.highlight_end;
    let lead = String::from_str(first.text.as_str().substring_char(indent, hs - 1));
    let mut body = String::from_str(first.text.as_str().substring_char(hs - 1, he - 1));
    let ghost first_seg = lines[0].text@.subrange(hs as int - 1, he as int - 1);
    if n > 1 {
        let interior_end = n - 1;
        let mut i: usize = 1;
        proof {
            assert(body@ =~= first_seg + interior_body(lines, indent as int, 1));
        }
        while i < interior_end
            invariant
                1 <= i <= interior_end,
                interior_end == n - 1,
                n == lines.len(),
                n > 1,
                lines == span.text@,
                indent as int == span_indent(lines),
                body@ == first_seg + interior_body(lines, indent as int, i as int),
            decreases interior_end - i,
        {
            proof {
                reveal_strlit("\n");
                lemma_span_indent_le(lines, i as int);
                lemma_leading_ws_bounds(lines[i as int].text@);
                lemma_span_indent_nonneg(lines);
            }
            body.append("\n");
            let line = &span.text[i];
            let len_i = line.text.as_str().unicode_len();
            let seg = line.text.as_str().substring_char(indent, len_i);
            body.append(seg);
            proof {
                assert(body@ =~= first_seg + interior_body(lines, indent as int, i as int + 1));
            }
            i += 1;
        }
        proof {
            reveal_strlit("\n");
            lemma_span_indent_nonneg(lines);
        }
        body.append("\n");
        let last = &span.text[n - 1];
        let seg = last.text.as_str().substring_char(indent, last.highlight_end - 1);
        body.append(seg);
    }
    proof {
        assert(body@ =~= spec_body(*span));
    }
    let last = &span.text[n - 1];
    let last_len = last.text.as_str().unicode_len();
    let tail = String::from_str(last.text.as_str().substring_char(last.highlight_end - 1, last_len));
    Snippet {
        sub_message: message,
        file_name: span.file_name.clone(),
        line_range: LineRange {
            start: LinePosition { line: span.line_start, column: span.column_start },
            end: LinePosition { line: span.line_end, column: span.column_end },
        },
        text: (lead, body, tail),
    }
}

} // verus!
