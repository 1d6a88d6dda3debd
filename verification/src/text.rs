//! The text of a document: a `ropey::Rope`, and the model of lines over the
//! characters it holds.
//!
//! Offsets count characters, not bytes. A text of `n` characters has the
//! offsets `0..=n`; offset `n` is the end of the text.

use ropey::Rope;
use vstd::prelude::*;

verus! {

/// `ropey::Rope`, named so that it can stand in fields and signatures. What
/// a rope holds is known only through `rope_text`.
#[verifier::external_type_specification]
#[verifier::external_body]
pub struct ExRope(Rope);

/// `ropey::Error`, the error of the rope's fallible methods. Nothing is read
/// from it.
#[verifier::external_type_specification]
#[verifier::external_body]
pub struct ExRopeError(ropey::Error);

/// The characters that a rope holds, in order.
pub uninterp spec fn rope_text(rope: &Rope) -> Seq<char>;

/// The characters that break a line: line feed, vertical tab, form feed,
/// carriage return, next line, line separator and paragraph separator. These
/// are the line breaks of `ropey` as it is built by default, with its feature
/// `unicode_lines`.
pub open spec fn is_line_break(c: char) -> bool {
    ||| c == '\u{000A}'
    ||| c == '\u{000B}'
    ||| c == '\u{000C}'
    ||| c == '\u{000D}'
    ||| c == '\u{0085}'
    ||| c == '\u{2028}'
    ||| c == '\u{2029}'
}

/// Whether a line break ends with the character at `index`.
///
/// A carriage return directly followed by a line feed forms one break with
/// it, which ends with the line feed.
pub open spec fn ends_line(text: Seq<char>, index: int) -> bool {
    &&& 0 <= index < text.len()
    &&& is_line_break(text[index])
    &&& !(text[index] == '\u{000D}' && index + 1 < text.len() && text[index + 1] == '\u{000A}')
}

/// The number of line breaks that end before `offset`: the zero-based index
/// of the line that holds `offset`.
pub open spec fn line_breaks_before(text: Seq<char>, offset: int) -> nat
    decreases offset,
{
    if offset <= 0 {
        0
    } else if ends_line(text, offset - 1) {
        line_breaks_before(text, offset - 1) + 1
    } else {
        line_breaks_before(text, offset - 1)
    }
}

/// The number of lines of a text: one more than its line breaks. A text that
/// ends with a line break has an empty last line.
pub open spec fn line_count(text: Seq<char>) -> nat {
    line_breaks_before(text, text.len() as int) + 1
}

/// Whether a line begins at `offset`: at the start of the text, and directly
/// after each line break.
pub open spec fn is_line_start(text: Seq<char>, offset: int) -> bool {
    &&& 0 <= offset <= text.len()
    &&& (offset == 0 || ends_line(text, offset - 1))
}

/// Whether line number `line` begins at `start`.
pub open spec fn starts_line(text: Seq<char>, start: int, line: nat) -> bool {
    is_line_start(text, start) && line_breaks_before(text, start) == line
}

/// The offset at which the line that holds `offset` begins.
pub open spec fn line_start_at(text: Seq<char>, offset: int) -> int
    decreases offset,
{
    if offset <= 0 {
        0
    } else if ends_line(text, offset - 1) {
        offset
    } else {
        line_start_at(text, offset - 1)
    }
}

/// `Rope::from_str` builds a rope that holds the characters of `text`.
pub assume_specification[ Rope::from_str ](text: &str) -> (rope: Rope)
    ensures
        rope_text(&rope) == text@,
;

/// `Rope::len_chars` counts the characters of the rope.
pub assume_specification[ Rope::len_chars ](rope: &Rope) -> (len: usize)
    ensures
        len == rope_text(rope).len(),
;

/// `Rope::try_char_to_line` fails when `char_idx` lies beyond the end of the
/// text, and otherwise counts the line breaks before `char_idx`; between the
/// two characters of a carriage return and line feed pair, the pair is not
/// counted.
pub assume_specification[ Rope::try_char_to_line ](rope: &Rope, char_idx: usize) -> (line: Result<
    usize,
    ropey::Error,
>)
    ensures
        line is Ok <==> char_idx <= rope_text(rope).len(),
        line matches Ok(l) ==> l == line_breaks_before(rope_text(rope), char_idx as int),
;

/// `Rope::try_line_to_char` fails when `line_idx` is greater than the number
/// of lines. For a line of the text it gives the offset at which that line
/// begins, and for the number of lines itself the length of the text.
pub assume_specification[ Rope::try_line_to_char ](rope: &Rope, line_idx: usize) -> (start: Result<
    usize,
    ropey::Error,
>)
    ensures
        start is Ok <==> line_idx <= line_count(rope_text(rope)),
        start matches Ok(s) ==> if line_idx == line_count(rope_text(rope)) {
            s == rope_text(rope).len()
        } else {
            starts_line(rope_text(rope), s as int, line_idx as nat)
        },
;

/// `String::from(&Rope)` copies the characters of the rope into a string.
#[verifier::external_body]
pub(crate) fn rope_to_string(rope: &Rope) -> (text: String)
    ensures
        text@ == rope_text(rope),
{
    String::from(rope)
}

} // verus!
