//! The suggestion collector: walks a diagnostic's own spans (context
//! snippets) and its children's spans (candidate replacements), and
//! assembles zero or one [`Suggestion`].

use vstd::prelude::*;

use crate::diagnostics::{Diagnostic, DiagnosticSpan};
use crate::snippet::{opt_view, parse_snippet, snippet_matches, span_wf};
use crate::{Replacement, Snippet, Suggestion};

verus! {

/// What it means for `r` to be the replacement built from a child diagnostic
/// with message `msg` and a span that carries suggested replacement text.
pub open spec fn replacement_matches(r: Replacement, msg: Seq<char>, span: DiagnosticSpan) -> bool {
    &&& snippet_matches(r.snippet, Some(msg), span)
    &&& span.suggested_replacement is Some
    &&& r.replacement@ == span.suggested_replacement->0@
}

/// The ordered (message, span) sources contributed by the spans of one child
/// with message `msg`: exactly the spans that carry a suggested replacement,
/// in input order.
pub open spec fn span_sources(msg: Seq<char>, spans: Seq<DiagnosticSpan>) -> Seq<
    (Seq<char>, DiagnosticSpan),
>
    decreases spans.len(),
{
    if spans.len() == 0 {
        Seq::empty()
    } else {
        span_sources(msg, spans.drop_last()) + (if spans.last().suggested_replacement is Some {
            seq![(msg, spans.last())]
        } else {
            Seq::empty()
        })
    }
}

/// The ordered (message, span) sources of all replacements of a diagnostic:
/// children in input order, each child's spans in input order.
pub open spec fn child_sources(children: Seq<Diagnostic>) -> Seq<(Seq<char>, DiagnosticSpan)>
    decreases children.len(),
{
    if children.len() == 0 {
        Seq::empty()
    } else {
        child_sources(children.drop_last()) + span_sources(
            children.last().message@,
            children.last().spans@,
        )
    }
}

/// `rs` holds exactly one replacement per source, in order.
pub open spec fn replacements_match(
    rs: Seq<Replacement>,
    srcs: Seq<(Seq<char>, DiagnosticSpan)>,
) -> bool {
    &&& rs.len() == srcs.len()
    &&& forall|k: int| 0 <= k < rs.len() ==> replacement_matches(#[trigger] rs[k], srcs[k].0, srcs[k].1)
}

/// Every span of the diagnostic itself, and every replacement-bearing span
/// of its children, is well formed for the extractor.
pub open spec fn diagnostic_wf(d: Diagnostic) -> bool {
    &&& forall|i: int| 0 <= i < d.spans@.len() ==> span_wf(#[trigger] d.spans@[i])
    &&& forall|i: int, j: int|
        0 <= i < d.children@.len() && 0 <= j < d.children@[i].spans@.len() && (#[trigger] d.children@[
            i
        ].spans@[j]).suggested_replacement is Some ==> span_wf(d.children@[i].spans@[j])
}

proof fn lemma_span_sources_empty(msg: Seq<char>, spans: Seq<DiagnosticSpan>)
    ensures
        span_sources(msg, spans).len() == 0 <==> (forall|j: int|
            0 <= j < spans.len() ==> (#[trigger] spans[j]).suggested_replacement is None),
    decreases spans.len(),
{
    if spans.len() == 0 {
    } else {
        let front = spans.drop_last();
        lemma_span_sources_empty(msg, front);
        assert(spans[spans.len() - 1] == spans.last());
        if span_sources(msg, spans).len() == 0 {
            assert forall|j: int|
                0 <= j < spans.len() implies (#[trigger] spans[j]).suggested_replacement
                is None by {
                if j < spans.len() - 1 {
                    assert(front[j] == spans[j]);
                }
            }
        } else {
            if span_sources(msg, front).len() != 0 {
                let j = choose|j: int|
                    0 <= j < front.len() && !((#[trigger] front[j]).suggested_replacement
                        is None);
                assert(spans[j] == front[j]);
                assert(!(spans[j].suggested_replacement is None));
            }
        }
    }
}

/// Law: a diagnostic yields no suggestion exactly when no span of any of its
/// children carries a suggested replacement: `child_sources` is empty if and
/// only if every child span's `suggested_replacement` is absent.
pub proof fn lemma_absent_iff_no_replacement(children: Seq<Diagnostic>)
    ensures
        child_sources(children).len() == 0 <==> (forall|i: int, j: int|
            0 <= i < children.len() && 0 <= j < children[i].spans@.len() ==> (#[trigger] children[
                i
            ].spans@[j]).suggested_replacement is None),
    decreases children.len(),
{
    if children.len() == 0 {
    } else {
        let front = children.drop_last();
        let last = children.last();
        lemma_absent_iff_no_replacement(front);
        lemma_span_sources_empty(last.message@, last.spans@);
        assert(children[children.len() - 1] == last);
        if child_sources(children).len() == 0 {
            assert forall|i: int, j: int|
                0 <= i < children.len() && 0 <= j < children[i].spans@.len() implies (
            #[trigger] children[i].spans@[j]).suggested_replacement is None by {
                if i < children.len() - 1 {
                    assert(front[i] == children[i]);
                }
            }
        } else {
            if child_sources(front).len() != 0 {
                let (i, j) = choose|i: int, j: int|
                    0 <= i < front.len() && 0 <= j < front[i].spans@.len() && !((#[trigger] front[
                        i
                    ].spans@[j]).suggested_replacement is None);
                assert(children[i] == front[i]);
                assert(!(children[i].spans@[j].suggested_replacement is None));
            } else {
                let j = choose|j: int|
                    0 <= j < last.spans@.len() && !((#[trigger] last.spans@[j]).suggested_replacement
                        is None);
                assert(!(children[children.len() - 1].spans@[j].suggested_replacement is None));
            }
        }
    }
}

/// Builds the replacement for one child span, or nothing when the span
/// carries no suggested replacement text.
pub fn collect_span(message: Option<String>, span: &DiagnosticSpan) -> (r: Option<Replacement>)
    requires
        span.suggested_replacement is Some ==> span_wf(*span),
    ensures
        r is Some <==> span.suggested_replacement is Some,
        r is Some ==> {
            &&& snippet_matches(r->0.snippet, opt_view(message), *span)
            &&& r->0.replacement@ == span.suggested_replacement->0@
        },
{
    match &span.suggested_replacement {
        Some(replacement) => Some(
            Replacement { snippet: parse_snippet(message, span), replacement: replacement.clone() },
        ),
        None => None,
    }
}

/// Walks `diagnostic`: its own spans become context snippets (no
/// annotation), every replacement-bearing span of its children becomes a
/// replacement annotated with that child's message. Returns nothing when no
/// child span carries a suggested replacement; otherwise the diagnostic's
/// message with the collected snippets and replacements.
pub fn collect_suggestions(diagnostic: &Diagnostic) -> (r: Option<Suggestion>)
    requires
        diagnostic_wf(*diagnostic),
    ensures
        r is Some <==> child_sources(diagnostic.children@).len() > 0,
        r is Some ==> {
            let s = r->0;
            &&& s.message@ == diagnostic.message@
            &&& s.snippets@.len() == diagnostic.spans@.len()
            &&& forall|i: int|
                0 <= i < diagnostic.spans@.len() ==> snippet_matches(
                    #[trigger] s.snippets@[i],
                    None,
                    diagnostic.spans@[i],
                )
            &&& replacements_match(s.replacements@, child_sources(diagnostic.children@))
        },
{
    let mut snippets: Vec<Snippet> = Vec::new();
    let mut si: usize = 0;
    while si < diagnostic.spans.len()
        invariant
            0 <= si <= diagnostic.spans@.len(),
            diagnostic_wf(*diagnostic),
            snippets@.len() == si,
            forall|i: int|
                0 <= i < si ==> snippet_matches(
                    #[trigger] snippets@[i],
                    None,
                    diagnostic.spans@[i],
                ),
        decreases diagnostic.spans@.len() - si,
    {
        let sn = parse_snippet(None, &diagnostic.spans[si]);
        snippets.push(sn);
        si += 1;
    }
    let mut replacements: Vec<Replacement> = Vec::new();
    let mut c: usize = 0;
    while c < diagnostic.children.len()
        invariant
            0 <= c <= diagnostic.children@.len(),
            diagnostic_wf(*diagnostic),
            replacements_match(
                replacements@,
                child_sources(diagnostic.children@.subrange(0, c as int)),
            ),
        decreases diagnostic.children@.len() - c,
    {
        let child = &diagnostic.children[c];
        let mut j: usize = 0;
        proof {
            assert(child.spans@.subrange(0, 0) =~= Seq::<DiagnosticSpan>::empty());
            assert(span_sources(child.message@, child.spans@.subrange(0, 0)) =~= Seq::<
                (Seq<char>, DiagnosticSpan),
            >::empty());
        }
        while j < child.spans.len()
            invariant
                0 <= j <= child.spans@.len(),
                diagnostic_wf(*diagnostic),
                0 <= c < diagnostic.children@.len(),
                *child == diagnostic.children@[c as int],
                replacements_match(
                    replacements@,
                    child_sources(diagnostic.children@.subrange(0, c as int)) + span_sources(
                        child.message@,
                        child.spans@.subrange(0, j as int),
                    ),
                ),
            decreases child.spans@.len() - j,
        {
            let span = &child.spans[j];
            proof {
                assert(diagnostic.children@[c as int].spans@[j as int].suggested_replacement
                    is Some ==> span_wf(diagnostic.children@[c as int].spans@[j as int]));
            }
            let ghost old_srcs = child_sources(diagnostic.children@.subrange(0, c as int))
                + span_sources(child.message@, child.spans@.subrange(0, j as int));
            if let Some(sugg) = collect_span(Some(child.message.clone()), span) {
                replacements.push(sugg);
            }
            proof {
                let t = child.spans@.subrange(0, j as int + 1);
                assert(t.drop_last() =~= child.spans@.subrange(0, j as int));
                assert(t.last() == child.spans@[j as int]);
                let new_srcs = child_sources(diagnostic.children@.subrange(0, c as int))
                    + span_sources(child.message@, t);
                if child.spans@[j as int].suggested_replacement is Some {
                    assert(new_srcs =~= old_srcs + seq![
                        (child.message@, child.spans@[j as int]),
                    ]);
                } else {
                    assert(new_srcs =~= old_srcs);
                }
            }
            j += 1;
        }
        proof {
            assert(child.spans@.subrange(0, child.spans@.len() as int) =~= child.spans@);
            let t = diagnostic.children@.subrange(0, c as int + 1);
            assert(t.drop_last() =~= diagnostic.children@.subrange(0, c as int));
            assert(t.last() == diagnostic.children@[c as int]);
        }
        c += 1;
    }
    proof {
        assert(diagnostic.children@.subrange(0, diagnostic.children@.len() as int)
            =~= diagnostic.children@);
    }
    if replacements.len() == 0 {
        None
    } else {
        Some(Suggestion { message: diagnostic.message.clone(), snippets, replacements })
    }
}

} // verus!
