//! The format pipeline: the text of a stored document is read as a
//! snapshot, rendered anew by the formatter, and the rendered text becomes
//! one edit that replaces the whole document.

use crate::position::{
    lemma_boundaries_resolve, lemma_position_at_injective, offset_to_position, position_at,
    Position, Range,
};
use crate::store::DocumentStore;
use crate::text::{rope_text, rope_to_string};
use ropey::Rope;
use vstd::prelude::*;

verus! {

/// Why a format request gives no edit.
#[derive(Clone, Copy, Debug, PartialEq, Eq, Structural)]
pub enum FormatError {
    /// No document is stored under the URI: it was never opened.
    DocumentNotFound,
    /// The text could not be lexed or parsed in full, so there is nothing to
    /// render.
    LexOrParseError,
}

/// An edit of a document: the text in `range` is replaced by `new_text`.
#[derive(Clone, Debug, PartialEq, Eq)]
pub struct TextEdit {
    pub range: Range,
    pub new_text: String,
}

/// The text of a document as it was when it was read from the store.
///
/// What is computed from the snapshot's text, a rendering or a range, is
/// resolved against the snapshot, whatever the store holds by then.
pub struct Snapshot {
    rope: Rope,
    text: String,
}

impl View for Snapshot {
    type V = Seq<char>;

    /// The characters of the text.
    closed spec fn view(&self) -> Seq<char> {
        rope_text(&self.rope)
    }
}

impl Snapshot {
    #[verifier::type_invariant]
    spec fn text_is_of_rope(self) -> bool {
        self.text@ == rope_text(&self.rope)
    }

    /// The text of the snapshot.
    pub fn text(&self) -> (text: &str)
        ensures
            text@ == self@,
    {
        proof {
            use_type_invariant(self);
        }
        self.text.as_str()
    }
}

/// The range of a whole text: from line 0, column 0 to the position of its
/// end.
pub open spec fn whole_range(text: Seq<char>) -> Range {
    Range {
        start: Position { line: 0, column: 0 },
        end: position_at(text, text.len() as int)->0,
    }
}

/// What `text` becomes when the characters between the two positions of
/// `range` are replaced by `new_text`. It is meant for a range whose two
/// positions are positions of `text`.
pub open spec fn apply_edit(text: Seq<char>, range: Range, new_text: Seq<char>) -> Seq<char> {
    let start = choose|offset: int| position_at(text, offset) == Some(range.start);
    let end = choose|offset: int| position_at(text, offset) == Some(range.end);
    text.subrange(0, start) + new_text + text.subrange(end, text.len() as int)
}

/// An edit that replaces the whole range of a text by a rendering leaves the
/// rendering, and nothing of the text.
pub proof fn lemma_edit_yields_rendering(text: Seq<char>, rendered: Seq<char>)
    requires
        text.len() <= usize::MAX,
    ensures
        apply_edit(text, whole_range(text), rendered) == rendered,
{
    let range = whole_range(text);
    let start = choose|offset: int| position_at(text, offset) == Some(range.start);
    let end = choose|offset: int| position_at(text, offset) == Some(range.end);
    lemma_boundaries_resolve(text);
    assert(position_at(text, 0) == Some(range.start));
    assert(position_at(text, text.len() as int) == Some(range.end));
    lemma_position_at_injective(text, 0, start);
    lemma_position_at_injective(text, text.len() as int, end);
    assert(text.subrange(0, 0) + rendered + text.subrange(text.len() as int, text.len() as int)
        =~= rendered);
}

/// A text that the formatter renders as itself is left as it is by the edit
/// of a format request.
pub proof fn lemma_formatted_text_is_unchanged(text: Seq<char>)
    requires
        text.len() <= usize::MAX,
    ensures
        apply_edit(text, whole_range(text), text) == text,
{
    lemma_edit_yields_rendering(text, text);
}

/// Reads the text stored under `uri` as a snapshot. Fails with
/// `DocumentNotFound` when the store has no such document.
pub fn read_document(store: &DocumentStore, uri: &str) -> (snapshot: Result<Snapshot, FormatError>)
    ensures
        match snapshot {
            Ok(snapshot) => store@.contains_key(uri@) && snapshot@ == store@[uri@],
            Err(error) => error == FormatError::DocumentNotFound && !store@.contains_key(uri@),
        },
{
    match store.get(uri) {
        Some(rope) => {
            let text = rope_to_string(&rope);
            Ok(Snapshot { rope, text })
        },
        None => Err(FormatError::DocumentNotFound),
    }
}

/// The edit that formats the document of `snapshot`, given what the
/// formatter rendered from the snapshot's text: `None` when the text could
/// not be lexed and parsed in full.
///
/// Where there is a rendering, the one edit replaces the whole text by it.
/// Where there is none, the request fails with `LexOrParseError`.
pub fn format_document(snapshot: &Snapshot, rendered: Option<String>) -> (edit: Result<
    TextEdit,
    FormatError,
>)
    ensures
        match edit {
            Ok(edit) => rendered matches Some(text) && edit.new_text@ == text@ && edit.range
                == whole_range(snapshot@),
            Err(error) => error == FormatError::LexOrParseError && rendered is None,
        },
{
    let new_text = match rendered {
        Some(text) => text,
        None => {
            return Err(FormatError::LexOrParseError);
        },
    };
    // The start and the end of a text always have a position. Were one of
    // them missing, there would be no range to replace, and no edit.
    let end_offset: usize = snapshot.rope.len_chars();
    let start = match offset_to_position(0, &snapshot.rope) {
        Some(position) => position,
        None => {
            return Err(FormatError::LexOrParseError);
        },
    };
    let end = match offset_to_position(end_offset, &snapshot.rope) {
        Some(position) => position,
        None => {
            return Err(FormatError::LexOrParseError);
        },
    };
    Ok(TextEdit { range: Range { start, end }, new_text })
}

} // verus!
