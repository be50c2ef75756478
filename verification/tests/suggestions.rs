use rustfix::collect_span;
use rustfix::collect_suggestions;
use rustfix::diagnostics::{Diagnostic, DiagnosticSpan, DiagnosticSpanLine};
use rustfix::parse_snippet;
use rustfix::{LinePosition, LineRange};

fn line(text: &str, hs: usize, he: usize) -> DiagnosticSpanLine {
    DiagnosticSpanLine {
        text: text.to_string(),
        highlight_start: hs,
        highlight_end: he,
    }
}

fn span(file: &str, lines: Vec<DiagnosticSpanLine>, repl: Option<&str>) -> DiagnosticSpan {
    DiagnosticSpan {
        file_name: file.to_string(),
        line_start: 1,
        line_end: lines.len(),
        column_start: 1,
        column_end: 1,
        suggested_replacement: repl.map(|s| s.to_string()),
        text: lines,
    }
}

fn diagnostic(message: &str, spans: Vec<DiagnosticSpan>, children: Vec<Diagnostic>) -> Diagnostic {
    Diagnostic {
        message: message.to_string(),
        spans,
        children,
    }
}

#[test]
fn single_line_split_around_highlight() {
    // One span, text "    let x = 1;", highlight marking `x`:
    // indent 4 is stripped, lead="let ", body="x", tail=" = 1;".
    let sp = span("code.rs", vec![line("    let x = 1;", 9, 10)], None);
    let snip = parse_snippet(None, &sp);
    assert_eq!(snip.text.0, "let ");
    assert_eq!(snip.text.1, "x");
    assert_eq!(snip.text.2, " = 1;");
    assert_eq!(snip.file_name, "code.rs");
    assert_eq!(snip.sub_message, None);
}

#[test]
fn single_line_parts_rebuild_the_unindented_line() {
    let sp = span("lib.rs", vec![line("    let x = 1;", 9, 10)], None);
    let snip = parse_snippet(None, &sp);
    let rebuilt = format!("{}{}{}", snip.text.0, snip.text.1, snip.text.2);
    assert_eq!(rebuilt, "let x = 1;");
}

#[test]
fn line_range_taken_verbatim() {
    let mut sp = span("a.rs", vec![line("abc", 1, 2)], None);
    sp.line_start = 3;
    sp.column_start = 14;
    sp.line_end = 4;
    sp.column_end = 7;
    let snip = parse_snippet(Some("note".to_string()), &sp);
    assert_eq!(
        snip.line_range,
        LineRange {
            start: LinePosition { line: 3, column: 14 },
            end: LinePosition { line: 4, column: 7 },
        }
    );
    assert_eq!(snip.sub_message, Some("note".to_string()));
}

#[test]
fn multi_line_body_joined_by_newlines() {
    // Three lines: the shared indent is the first line's 2, even though the
    // continuation lines are indented more deeply.
    let sp = span(
        "m.rs",
        vec![
            line("  one", 3, 6),
            line("      two", 7, 10),
            line("   three", 4, 9),
        ],
        None,
    );
    let snip = parse_snippet(None, &sp);
    assert_eq!(snip.text.0, "");
    assert_eq!(snip.text.1, "one\n    two\n three");
    assert_eq!(snip.text.2, "");
}

#[test]
fn two_line_span_has_no_interior_segment() {
    // Exactly two lines: the interior loop contributes nothing; the second
    // line keeps its extra indentation beyond the shared minimum of 2.
    let sp = span(
        "t.rs",
        vec![line("  ab", 3, 5), line("        cd", 3, 11)],
        None,
    );
    let snip = parse_snippet(None, &sp);
    assert_eq!(snip.text.0, "");
    assert_eq!(snip.text.1, "ab\n      cd");
    assert_eq!(snip.text.2, "");
}

#[test]
fn tail_empty_when_highlight_reaches_line_end() {
    let sp = span("e.rs", vec![line("  foo()", 3, 8)], None);
    let snip = parse_snippet(None, &sp);
    assert_eq!(snip.text.0, "");
    assert_eq!(snip.text.1, "foo()");
    assert_eq!(snip.text.2, "");
}

#[test]
fn indent_capped_by_highlight_start() {
    // The second line's own leading whitespace (8) would allow a deeper
    // strip, but the shared indent stays at the first line's budget of 2.
    let sp = span(
        "c.rs",
        vec![line("  ab", 3, 5), line("        cd", 9, 11)],
        None,
    );
    let snip = parse_snippet(None, &sp);
    assert_eq!(snip.text.1, "ab\n      cd");
}

#[test]
fn collect_span_absent_without_replacement() {
    let sp = span("s.rs", vec![line("abc", 1, 2)], None);
    assert!(collect_span(Some("m".to_string()), &sp).is_none());
}

#[test]
fn collect_span_present_with_replacement() {
    let sp = span("s.rs", vec![line("abc", 1, 2)], Some("xyz"));
    let repl = collect_span(Some("m".to_string()), &sp).unwrap();
    assert_eq!(repl.replacement, "xyz");
    assert_eq!(repl.snippet.sub_message, Some("m".to_string()));
    assert_eq!(repl.snippet.text.1, "a");
}

#[test]
fn no_children_means_no_suggestion() {
    // Even with a non-empty `spans`, zero children yield no suggestion.
    let d = diagnostic(
        "unused variable",
        vec![span("x.rs", vec![line("let x = 1;", 5, 6)], None)],
        vec![],
    );
    assert!(collect_suggestions(&d).is_none());
}

#[test]
fn children_without_replacements_mean_no_suggestion() {
    let child = diagnostic(
        "consider this",
        vec![span("x.rs", vec![line("let x = 1;", 5, 6)], None)],
        vec![],
    );
    let d = diagnostic(
        "unused variable",
        vec![span("x.rs", vec![line("let x = 1;", 5, 6)], None)],
        vec![child],
    );
    assert!(collect_suggestions(&d).is_none());
}

#[test]
fn child_replacement_yields_suggestion() {
    // A child with message "try this" and one span suggesting "y" produces
    // one replacement carrying that message and text.
    let child = diagnostic(
        "try this",
        vec![span("x.rs", vec![line("let x = 1;", 5, 6)], Some("y"))],
        vec![],
    );
    let d = diagnostic("unused variable", vec![], vec![child]);
    let sugg = collect_suggestions(&d).unwrap();
    assert_eq!(sugg.message, "unused variable");
    assert_eq!(sugg.replacements.len(), 1);
    assert_eq!(sugg.replacements[0].replacement, "y");
    assert_eq!(
        sugg.replacements[0].snippet.sub_message,
        Some("try this".to_string())
    );
}

#[test]
fn snippets_cover_every_own_span_in_order() {
    // One snippet per direct span, in input order, none carrying an
    // annotation, whether or not a given child span has a replacement.
    let child = diagnostic(
        "first child",
        vec![
            span("a.rs", vec![line("aaa", 1, 2)], Some("r1")),
            span("b.rs", vec![line("bbb", 1, 2)], None),
        ],
        vec![],
    );
    let child2 = diagnostic(
        "second child",
        vec![span("c.rs", vec![line("ccc", 1, 2)], Some("r2"))],
        vec![],
    );
    let d = diagnostic(
        "top message",
        vec![
            span("one.rs", vec![line("first", 1, 3)], None),
            span("two.rs", vec![line("second", 2, 4)], None),
        ],
        vec![child, child2],
    );
    let sugg = collect_suggestions(&d).unwrap();
    assert_eq!(sugg.snippets.len(), 2);
    assert_eq!(sugg.snippets[0].file_name, "one.rs");
    assert_eq!(sugg.snippets[1].file_name, "two.rs");
    assert_eq!(sugg.snippets[0].sub_message, None);
    assert_eq!(sugg.snippets[1].sub_message, None);
    // Replacements preserve child-then-span traversal order and skip the
    // span without a suggestion.
    assert_eq!(sugg.replacements.len(), 2);
    assert_eq!(sugg.replacements[0].replacement, "r1");
    assert_eq!(
        sugg.replacements[0].snippet.sub_message,
        Some("first child".to_string())
    );
    assert_eq!(sugg.replacements[1].replacement, "r2");
    assert_eq!(
        sugg.replacements[1].snippet.sub_message,
        Some("second child".to_string())
    );
}

#[test]
fn empty_replacement_text_still_counts() {
    // An empty suggested replacement is present, not absent.
    let child = diagnostic(
        "remove this",
        vec![span("x.rs", vec![line("let mut x;", 5, 9)], Some(""))],
        vec![],
    );
    let d = diagnostic("unneeded mut", vec![], vec![child]);
    let sugg = collect_suggestions(&d).unwrap();
    assert_eq!(sugg.replacements.len(), 1);
    assert_eq!(sugg.replacements[0].replacement, "");
}

#[test]
fn non_breaking_space_counts_as_indentation() {
    // U+00A0 has the Unicode White_Space property, so it is stripped like
    // an ordinary space.
    let sp = span("u.rs", vec![line("\u{a0}\u{a0}x = 1", 3, 4)], None);
    let snip = parse_snippet(None, &sp);
    assert_eq!(snip.text.0, "");
    assert_eq!(snip.text.1, "x");
    assert_eq!(snip.text.2, " = 1");
}

#[test]
fn columns_are_character_offsets() {
    // Multi-byte characters count as single columns: the highlight 3..5
    // covers the two Greek letters, not two bytes.
    let sp = span("g.rs", vec![line("  αβ = 1;", 3, 5)], None);
    let snip = parse_snippet(None, &sp);
    assert_eq!(snip.text.0, "");
    assert_eq!(snip.text.1, "αβ");
    assert_eq!(snip.text.2, " = 1;");
}

#[test]
fn position_renders_line_colon_column() {
    let p = LinePosition { line: 3, column: 14 };
    assert_eq!(p.to_display_string(), "3:14");
    let q = LinePosition { line: 0, column: 10 };
    assert_eq!(q.to_display_string(), "0:10");
    let r = LinePosition {
        line: 120,
        column: 9,
    };
    assert_eq!(r.to_display_string(), "120:9");
}

#[test]
fn range_renders_start_dash_end() {
    let r = LineRange {
        start: LinePosition { line: 3, column: 14 },
        end: LinePosition { line: 4, column: 7 },
    };
    assert_eq!(r.to_display_string(), "3:14-4:7");
}
