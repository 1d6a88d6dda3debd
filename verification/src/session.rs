//! The session controller: what the server does with each notification and
//! request of the client. It owns the document store; sending what it
//! returns is left to the caller.

use crate::diagnostics::{check_document, resolve_errors, Analysis, PublishDiagnostics, TextDocumentItem};
use crate::format::{format_document, read_document, whole_range, FormatError, Snapshot, TextEdit};
use crate::store::DocumentStore;
use vstd::prelude::*;

verus! {

/// The state of one session with a client: the documents that are open.
pub struct Session {
    store: DocumentStore,
}

impl View for Session {
    type V = Map<Seq<char>, Seq<char>>;

    /// For each open document, by URI, the characters of its text.
    closed spec fn view(&self) -> Map<Seq<char>, Seq<char>> {
        self.store@
    }
}

impl Session {
    /// A session in which no document is open.
    pub fn new() -> (session: Session)
        ensures
            (session@ == Map::<Seq<char>, Seq<char>>::empty()),
    {
        Session { store: DocumentStore::new() }
    }

    /// A document was opened: its text is checked and stored, and the
    /// diagnostics for it are to be published.
    pub fn did_open(&mut self, document: TextDocumentItem, analysis: Analysis) -> (published:
        PublishDiagnostics)
        ensures
            final(self)@ == old(self)@.insert(document.uri@, document.text@),
            published.uri@ == document.uri@,
            published.version == document.version,
            published.diagnostics.deep_view() == resolve_errors(
                document.text@,
                analysis.pending(),
            ),
    {
        check_document(&mut self.store, document, analysis)
    }

    /// A document was changed: `document` holds its whole new text, which is
    /// checked and stored in place of the old one, and the diagnostics for it
    /// are to be published in place of the old ones.
    pub fn did_change(&mut self, document: TextDocumentItem, analysis: Analysis) -> (published:
        PublishDiagnostics)
        ensures
            final(self)@ == old(self)@.insert(document.uri@, document.text@),
            published.uri@ == document.uri@,
            published.version == document.version,
            published.diagnostics.deep_view() == resolve_errors(
                document.text@,
                analysis.pending(),
            ),
    {
        check_document(&mut self.store, document, analysis)
    }

    /// A document was closed: its text is dropped from the store.
    pub fn did_close(&mut self, uri: &str)
        ensures
            final(self)@ == old(self)@.remove(uri@),
    {
        let _ = self.store.remove(uri);
    }

    /// The first half of a format request: the text to hand to the
    /// formatter, as the store holds it now. Fails with `DocumentNotFound`
    /// for a document that is not open.
    pub fn format_source(&self, uri: &str) -> (snapshot: Result<Snapshot, FormatError>)
        ensures
            match snapshot {
                Ok(snapshot) => self@.contains_key(uri@) && snapshot@ == self@[uri@],
                Err(error) => error == FormatError::DocumentNotFound && !self@.contains_key(uri@),
            },
    {
        read_document(&self.store, uri)
    }

    /// The second half of a format request: the answer to the client, given
    /// what the formatter rendered from the snapshot's text. On success it is
    /// exactly one edit, which replaces the whole document.
    pub fn formatting(snapshot: &Snapshot, rendered: Option<String>) -> (edits: Result<
        Vec<TextEdit>,
        FormatError,
    >)
        ensures
            match edits {
                Ok(edits) => rendered matches Some(text) && edits.len() == 1
                    && edits[0].new_text@ == text@ && edits[0].range == whole_range(snapshot@),
                Err(error) => error == FormatError::LexOrParseError && rendered is None,
            },
    {
        match format_document(snapshot, rendered) {
            Ok(edit) => {
                let mut edits: Vec<TextEdit> = Vec::new();
                edits.push(edit);
                Ok(edits)
            },
            Err(error) => Err(error),
        }
    }
}

} // verus!
