use daleth_lsp::diagnostics::{Analysis, Diagnostic, Severity, Span, SpannedError, TextDocumentItem};
use daleth_lsp::format::{FormatError, TextEdit};
use daleth_lsp::position::{Position, Range};
use daleth_lsp::session::Session;

fn document(uri: &str, text: &str, version: i32) -> TextDocumentItem {
    TextDocumentItem { uri: uri.to_string(), text: text.to_string(), version }
}

fn clean() -> Analysis {
    Analysis::Parsed { lex_errors: vec![], parse_errors: vec![] }
}

fn range(start: (usize, usize), end: (usize, usize)) -> Range {
    Range {
        start: Position { line: start.0, column: start.1 },
        end: Position { line: end.0, column: end.1 },
    }
}

#[test]
fn new_session_has_no_documents() {
    let session = Session::new();
    assert!(matches!(session.format_source("A"), Err(FormatError::DocumentNotFound)));
}

#[test]
fn did_open_publishes_and_stores() {
    let mut session = Session::new();
    let analysis = Analysis::Parsed {
        lex_errors: vec![SpannedError { message: "bad".to_string(), span: Span { start: 3, end: 5 } }],
        parse_errors: vec![],
    };
    let published = session.did_open(document("A", "ab\ncd", 1), analysis);
    assert_eq!(published.uri, "A");
    assert_eq!(published.version, 1);
    assert_eq!(
        published.diagnostics,
        vec![Diagnostic {
            range: range((1, 0), (1, 2)),
            severity: Severity::Error,
            message: "bad".to_string(),
        }]
    );
    assert_eq!(session.format_source("A").unwrap().text(), "ab\ncd");
}

#[test]
fn did_change_replaces_text_and_diagnostics() {
    let mut session = Session::new();
    let broken = Analysis::Unlexed {
        lex_errors: vec![SpannedError { message: "bad".to_string(), span: Span { start: 0, end: 1 } }],
    };
    let published = session.did_open(document("A", "?", 1), broken);
    assert_eq!(published.diagnostics.len(), 1);
    let published = session.did_change(document("A", "h1: a", 2), clean());
    assert_eq!(published.uri, "A");
    assert_eq!(published.version, 2);
    assert!(published.diagnostics.is_empty());
    assert_eq!(session.format_source("A").unwrap().text(), "h1: a");
}

#[test]
fn last_change_wins() {
    let mut session = Session::new();
    session.did_open(document("A", "a  b", 1), clean());
    session.did_change(document("A", "a b", 2), clean());
    let snapshot = session.format_source("A").unwrap();
    assert_eq!(snapshot.text(), "a b");
    let edits = Session::formatting(&snapshot, Some("a b".to_string())).unwrap();
    assert_eq!(edits, vec![TextEdit { range: range((0, 0), (0, 3)), new_text: "a b".to_string() }]);
    assert_eq!(session.format_source("A").unwrap().text(), "a b");
}

#[test]
fn documents_do_not_mix() {
    let mut session = Session::new();
    session.did_open(document("A", "text of a", 1), clean());
    session.did_open(document("B", "text of b", 1), clean());
    session.did_change(document("A", "new text of a", 2), clean());
    assert_eq!(session.format_source("A").unwrap().text(), "new text of a");
    assert_eq!(session.format_source("B").unwrap().text(), "text of b");
}

#[test]
fn did_close_removes_the_document() {
    let mut session = Session::new();
    session.did_open(document("A", "text of a", 1), clean());
    session.did_open(document("B", "text of b", 1), clean());
    session.did_close("A");
    assert!(matches!(session.format_source("A"), Err(FormatError::DocumentNotFound)));
    assert_eq!(session.format_source("B").unwrap().text(), "text of b");
    session.did_close("A");
    session.did_close("never opened");
    assert_eq!(session.format_source("B").unwrap().text(), "text of b");
}

#[test]
fn closed_document_can_be_opened_again() {
    let mut session = Session::new();
    session.did_open(document("A", "first", 1), clean());
    session.did_close("A");
    session.did_open(document("A", "second", 1), clean());
    assert_eq!(session.format_source("A").unwrap().text(), "second");
}

#[test]
fn formatting_answers_with_exactly_one_edit() {
    let mut session = Session::new();
    session.did_open(document("A", "h1:   a\np:  b", 1), clean());
    let snapshot = session.format_source("A").unwrap();
    let edits = Session::formatting(&snapshot, Some("h1: a\np: b".to_string())).unwrap();
    assert_eq!(
        edits,
        vec![TextEdit { range: range((0, 0), (1, 5)), new_text: "h1: a\np: b".to_string() }]
    );
}

#[test]
fn formatting_fails_when_the_text_does_not_parse() {
    let mut session = Session::new();
    session.did_open(document("A", "h1: {", 1), clean());
    let snapshot = session.format_source("A").unwrap();
    assert_eq!(Session::formatting(&snapshot, None), Err(FormatError::LexOrParseError));
}
