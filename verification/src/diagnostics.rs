//! The diagnostic pipeline: the errors that lexing and parsing found in a
//! text, each with the span it is about, become the diagnostics to publish
//! for that text, and the text is committed to the document store.

use crate::position::{lemma_positions_ordered, offset_to_position, position_at, Range};
use crate::store::DocumentStore;
use crate::text::rope_text;
use ropey::Rope;
use vstd::prelude::*;

verus! {

/// The offsets `start..end` of a text, counted in characters; `end` is not
/// part of the span.
///
/// A span belongs to the text it was computed against, and is resolved
/// against that text only.
#[derive(Clone, Copy, Debug, PartialEq, Eq, Structural)]
pub struct Span {
    pub start: usize,
    pub end: usize,
}

/// An error of the lexing or the parsing stage: what went wrong, and where.
#[derive(Clone, Debug, PartialEq, Eq)]
pub struct SpannedError {
    pub message: String,
    pub span: Span,
}

/// How severe a diagnostic is. Every error of the two stages is an error.
#[derive(Clone, Copy, Debug, PartialEq, Eq, Structural)]
pub enum Severity {
    Error,
}

/// What is shown to the author of a document: a message for a range of it.
#[derive(Clone, Debug, PartialEq, Eq)]
pub struct Diagnostic {
    pub range: Range,
    pub severity: Severity,
    pub message: String,
}

/// A document as the client sends it: on opening it, and whole again on each
/// change.
#[derive(Clone, Debug, PartialEq, Eq)]
pub struct TextDocumentItem {
    pub uri: String,
    pub text: String,
    pub version: i32,
}

/// What lexing and parsing a text gave.
#[derive(Clone, Debug, PartialEq, Eq)]
pub enum Analysis {
    /// Lexing recovered no tokens, so the parser did not run.
    Unlexed { lex_errors: Vec<SpannedError> },
    /// Lexing recovered tokens, all or some of them, and the parser ran over
    /// them.
    Parsed { lex_errors: Vec<SpannedError>, parse_errors: Vec<SpannedError> },
}

/// The full set of diagnostics of one version of a document. It replaces
/// whatever was published for that document before.
#[derive(Clone, Debug, PartialEq, Eq)]
pub struct PublishDiagnostics {
    pub uri: String,
    pub diagnostics: Vec<Diagnostic>,
    pub version: i32,
}

/// A `SpannedError` as a value of specifications.
pub struct SpannedErrorView {
    pub message: Seq<char>,
    pub span: Span,
}

/// A `Diagnostic` as a value of specifications.
pub struct DiagnosticView {
    pub range: Range,
    pub severity: Severity,
    pub message: Seq<char>,
}

impl DeepView for SpannedError {
    type V = SpannedErrorView;

    open spec fn deep_view(&self) -> SpannedErrorView {
        SpannedErrorView { message: self.message@, span: self.span }
    }
}

impl DeepView for Diagnostic {
    type V = DiagnosticView;

    open spec fn deep_view(&self) -> DiagnosticView {
        DiagnosticView { range: self.range, severity: self.severity, message: self.message@ }
    }
}

impl Analysis {
    /// The pending errors: those of the lexer, in the order it gave them, and
    /// behind them those of the parser, in the order it gave them.
    pub open spec fn pending(&self) -> Seq<SpannedErrorView> {
        match self {
            Analysis::Unlexed { lex_errors } => lex_errors.deep_view(),
            Analysis::Parsed { lex_errors, parse_errors } => lex_errors.deep_view()
                + parse_errors.deep_view(),
        }
    }
}

/// The range of `span` in `text`: the positions of its two ends. A span with
/// an end beyond the end of the text has none.
pub open spec fn resolve_span(text: Seq<char>, span: Span) -> Option<Range> {
    match (position_at(text, span.start as int), position_at(text, span.end as int)) {
        (Some(start), Some(end)) => Some(Range { start, end }),
        _ => None,
    }
}

/// The diagnostic for `error` in `text`, if its span has a range there.
pub open spec fn resolve_error(text: Seq<char>, error: SpannedErrorView) -> Option<DiagnosticView> {
    match resolve_span(text, error.span) {
        Some(range) => Some(
            DiagnosticView { range, severity: Severity::Error, message: error.message },
        ),
        None => None,
    }
}

/// The diagnostics for `errors` in `text`, in the order of the errors. An
/// error whose span has no range in the text is left out.
pub open spec fn resolve_errors(text: Seq<char>, errors: Seq<SpannedErrorView>) -> Seq<
    DiagnosticView,
>
    decreases errors.len(),
{
    if errors.len() == 0 {
        Seq::empty()
    } else {
        let before = resolve_errors(text, errors.drop_last());
        match resolve_error(text, errors.last()) {
            Some(diagnostic) => before.push(diagnostic),
            None => before,
        }
    }
}

/// A span that lies in the text, with its start not behind its end, has a
/// range there, and the start of that range is not behind its end.
pub proof fn lemma_span_in_text_resolves(text: Seq<char>, span: Span)
    requires
        text.len() <= usize::MAX,
        span.start <= span.end <= text.len(),
    ensures
        resolve_span(text, span) matches Some(range) && (range.start.line < range.end.line || (
        range.start.line == range.end.line && range.start.column <= range.end.column)),
{
    lemma_positions_ordered(text, span.start as int, span.end as int);
}

/// The diagnostics of two runs of errors, one behind the other, are those of
/// the first followed by those of the second.
pub proof fn lemma_resolve_errors_concat(
    text: Seq<char>,
    first: Seq<SpannedErrorView>,
    second: Seq<SpannedErrorView>,
)
    ensures
        resolve_errors(text, first + second) == resolve_errors(text, first) + resolve_errors(
            text,
            second,
        ),
    decreases second.len(),
{
    if second.len() == 0 {
        assert(first + second =~= first);
    } else {
        assert((first + second).drop_last() =~= first + second.drop_last());
        assert((first + second).last() == second.last());
        lemma_resolve_errors_concat(text, first, second.drop_last());
    }
}

/// There are no more diagnostics than errors, and as many where every span
/// lies within the text.
pub proof fn lemma_resolve_errors_len(text: Seq<char>, errors: Seq<SpannedErrorView>)
    ensures
        resolve_errors(text, errors).len() <= errors.len(),
        (forall|i: int|
            0 <= i < errors.len() ==> errors[i].span.start <= text.len() && errors[i].span.end
                <= text.len()) ==> resolve_errors(text, errors).len() == errors.len(),
    decreases errors.len(),
{
    if errors.len() > 0 {
        lemma_resolve_errors_len(text, errors.drop_last());
        assert(forall|i: int|
            0 <= i < errors.len() - 1 ==> errors.drop_last()[i] == errors[i]);
    }
}

/// A text with a single error, at a span that lies within the text, has
/// exactly one diagnostic: the message of the error, for the range between
/// the positions of the two ends of the span.
pub proof fn lemma_single_error(text: Seq<char>, errors: Seq<SpannedErrorView>)
    requires
        errors.len() == 1,
        errors[0].span.start <= text.len(),
        errors[0].span.end <= text.len(),
    ensures
        resolve_errors(text, errors) == seq![
            DiagnosticView {
                range: Range {
                    start: position_at(text, errors[0].span.start as int)->0,
                    end: position_at(text, errors[0].span.end as int)->0,
                },
                severity: Severity::Error,
                message: errors[0].message,
            },
        ],
{
    assert(errors.drop_last().len() == 0);
    assert(resolve_errors(text, errors.drop_last()) =~= Seq::empty());
}

/// A text without errors has no diagnostics.
pub proof fn lemma_no_errors(text: Seq<char>, errors: Seq<SpannedErrorView>)
    requires
        errors.len() == 0,
    ensures
        resolve_errors(text, errors) == Seq::<DiagnosticView>::empty(),
{
}

/// The range of `span` in the text of `rope`, or `None` when one of its ends
/// lies beyond the end of the text.
pub fn span_to_range(span: Span, rope: &Rope) -> (range: Option<Range>)
    ensures
        range == resolve_span(rope_text(rope), span),
{
    let start = offset_to_position(span.start, rope)?;
    let end = offset_to_position(span.end, rope)?;
    Some(Range { start, end })
}

/// Appends to `diagnostics` the diagnostics for `errors` in the text of
/// `rope`.
fn resolve_into(rope: &Rope, errors: &Vec<SpannedError>, diagnostics: &mut Vec<Diagnostic>)
    ensures
        final(diagnostics).deep_view() == old(diagnostics).deep_view() + resolve_errors(
            rope_text(rope),
            errors.deep_view(),
        ),
{
    let ghost text = rope_text(rope);
    let ghost before = diagnostics.deep_view();
    let mut i: usize = 0;
    assert(errors.deep_view().take(0) =~= Seq::empty());
    assert(before + resolve_errors(text, errors.deep_view().take(0)) =~= before);
    while i < errors.len()
        invariant
            i <= errors.len(),
            text == rope_text(rope),
            diagnostics.deep_view() == before + resolve_errors(
                text,
                errors.deep_view().take(i as int),
            ),
        decreases errors.len() - i,
    {
        let error = &errors[i];
        let ghost done = errors.deep_view().take(i as int);
        let ghost next = errors.deep_view().take(i + 1);
        assert(next.drop_last() =~= done);
        assert(next.last() == error.deep_view());
        let ghost resolved = diagnostics.deep_view();
        match span_to_range(error.span, rope) {
            Some(range) => {
                let diagnostic = Diagnostic {
                    range,
                    severity: Severity::Error,
                    message: error.message.clone(),
                };
                diagnostics.push(diagnostic);
                assert(diagnostics.deep_view() =~= resolved.push(diagnostic.deep_view()));
                assert(before + resolve_errors(text, next) =~= (before + resolve_errors(
                    text,
                    done,
                )).push(diagnostic.deep_view()));
            },
            None => {},
        }
        i += 1;
    }
    assert(errors.deep_view().take(i as int) =~= errors.deep_view());
}

/// The diagnostics for `errors` in the text of `rope`: one for each error
/// whose span lies within the text, in the order of the errors.
pub fn resolve_diagnostics(rope: &Rope, errors: &Vec<SpannedError>) -> (diagnostics: Vec<
    Diagnostic,
>)
    ensures
        diagnostics.deep_view() == resolve_errors(rope_text(rope), errors.deep_view()),
{
    let mut diagnostics: Vec<Diagnostic> = Vec::new();
    assert(diagnostics.deep_view() =~= Seq::empty());
    resolve_into(rope, errors, &mut diagnostics);
    assert(Seq::<DiagnosticView>::empty() + resolve_errors(rope_text(rope), errors.deep_view())
        =~= resolve_errors(rope_text(rope), errors.deep_view()));
    diagnostics
}

/// Checks one version of a document: resolves the errors that lexing and
/// parsing its text gave against that text, lexer errors first, commits the
/// text to the store under the document's URI, and gives the diagnostics to
/// publish for that version.
pub fn check_document(
    store: &mut DocumentStore,
    document: TextDocumentItem,
    analysis: Analysis,
) -> (published: PublishDiagnostics)
    ensures
        final(store)@ == old(store)@.insert(document.uri@, document.text@),
        published.uri@ == document.uri@,
        published.version == document.version,
        published.diagnostics.deep_view() == resolve_errors(document.text@, analysis.pending()),
{
    let rope = Rope::from_str(document.text.as_str());
    let mut diagnostics: Vec<Diagnostic> = Vec::new();
    assert(diagnostics.deep_view() =~= Seq::empty());
    match &analysis {
        Analysis::Unlexed { lex_errors } => {
            resolve_into(&rope, lex_errors, &mut diagnostics);
        },
        Analysis::Parsed { lex_errors, parse_errors } => {
            resolve_into(&rope, lex_errors, &mut diagnostics);
            resolve_into(&rope, parse_errors, &mut diagnostics);
            proof {
                lemma_resolve_errors_concat(
                    document.text@,
                    lex_errors.deep_view(),
                    parse_errors.deep_view(),
                );
            }
        },
    }
    assert(diagnostics.deep_view() =~= resolve_errors(document.text@, analysis.pending()));
    store.put(document.uri.clone(), rope);
    PublishDiagnostics { uri: document.uri, diagnostics, version: document.version }
}

} // verus!
