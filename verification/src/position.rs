//! The coordinate mapper: from an offset into a text to a line and a column,
//! and back.

use crate::text::{
    ends_line, line_breaks_before, line_count, line_start_at, rope_text, starts_line,
};
use ropey::Rope;
use vstd::prelude::*;

verus! {

/// A zero-based place in a text: the line, and the number of characters
/// between the start of that line and the place.
#[derive(Clone, Copy, Debug, PartialEq, Eq, Structural)]
pub struct Position {
    pub line: usize,
    pub column: usize,
}

/// The part of a text between two positions; `end` is not part of it.
#[derive(Clone, Copy, Debug, PartialEq, Eq, Structural)]
pub struct Range {
    pub start: Position,
    pub end: Position,
}

/// The position of `offset` in `text`, for the offsets `0..=text.len()`.
pub open spec fn position_at(text: Seq<char>, offset: int) -> Option<Position> {
    if 0 <= offset <= text.len() {
        Some(
            Position {
                line: line_breaks_before(text, offset) as usize,
                column: (offset - line_start_at(text, offset)) as usize,
            },
        )
    } else {
        None
    }
}

/// No more line breaks end before an offset than before a later one.
pub proof fn lemma_line_breaks_monotone(text: Seq<char>, a: int, b: int)
    requires
        a <= b,
    ensures
        line_breaks_before(text, a) <= line_breaks_before(text, b),
    decreases b - a,
{
    if a < b {
        lemma_line_breaks_monotone(text, a, b - 1);
    }
}

/// At most `offset` line breaks end before `offset`.
pub proof fn lemma_line_breaks_bounded(text: Seq<char>, offset: int)
    requires
        0 <= offset,
    ensures
        line_breaks_before(text, offset) <= offset,
    decreases offset,
{
    if offset > 0 {
        lemma_line_breaks_bounded(text, offset - 1);
    }
}

/// The line that holds `offset` begins at `line_start_at(text, offset)`,
/// which is not after `offset`.
pub proof fn lemma_line_start_at(text: Seq<char>, offset: int)
    requires
        0 <= offset <= text.len(),
    ensures
        0 <= line_start_at(text, offset) <= offset,
        starts_line(text, line_start_at(text, offset), line_breaks_before(text, offset)),
    decreases offset,
{
    if offset > 0 && !ends_line(text, offset - 1) {
        lemma_line_start_at(text, offset - 1);
    }
}

/// A line begins at one offset only.
pub proof fn lemma_line_start_unique(text: Seq<char>, a: int, b: int, line: nat)
    requires
        starts_line(text, a, line),
        starts_line(text, b, line),
    ensures
        a == b,
{
    if a < b {
        lemma_line_breaks_monotone(text, a, b - 1);
    } else if b < a {
        lemma_line_breaks_monotone(text, b, a - 1);
    }
}

/// The start of a text is line 0, column 0, and its end has a position too:
/// on the last line, as many characters in as that line is long.
pub proof fn lemma_boundaries_resolve(text: Seq<char>)
    requires
        text.len() <= usize::MAX,
    ensures
        position_at(text, 0) == Some(Position { line: 0, column: 0 }),
        position_at(text, text.len() as int) matches Some(end) && end.line + 1 == line_count(text)
            && end.column == text.len() - line_start_at(text, text.len() as int),
{
    lemma_line_breaks_bounded(text, text.len() as int);
    lemma_line_start_at(text, text.len() as int);
}

/// From the position of an offset the offset is found again: the offset at
/// which the position's line begins, plus the column.
pub proof fn lemma_offset_round_trip(text: Seq<char>, offset: int, start: int)
    requires
        text.len() <= usize::MAX,
        position_at(text, offset) is Some,
        starts_line(text, start, position_at(text, offset)->0.line as nat),
    ensures
        start + position_at(text, offset)->0.column == offset,
{
    lemma_line_breaks_bounded(text, offset);
    lemma_line_start_at(text, offset);
    lemma_line_start_unique(
        text,
        start,
        line_start_at(text, offset),
        line_breaks_before(text, offset),
    );
}

/// Positions keep the order of offsets: a later offset is on a later line, or
/// on the same line at a column that is not smaller.
pub proof fn lemma_positions_ordered(text: Seq<char>, a: int, b: int)
    requires
        text.len() <= usize::MAX,
        0 <= a <= b <= text.len(),
    ensures
        ({
            let p = position_at(text, a)->0;
            let q = position_at(text, b)->0;
            p.line < q.line || (p.line == q.line && p.column <= q.column)
        }),
{
    lemma_line_breaks_monotone(text, a, b);
    lemma_line_breaks_bounded(text, a);
    lemma_line_breaks_bounded(text, b);
    lemma_line_start_at(text, a);
    lemma_line_start_at(text, b);
    if line_breaks_before(text, a) == line_breaks_before(text, b) {
        lemma_line_start_unique(
            text,
            line_start_at(text, a),
            line_start_at(text, b),
            line_breaks_before(text, a),
        );
    }
}

/// The line and column of `offset` in the text of `rope`, or `None` when
/// `offset` lies beyond the end of the text.
pub fn offset_to_position(offset: usize, rope: &Rope) -> (position: Option<Position>)
    ensures
        position == position_at(rope_text(rope), offset as int),
{
    let line: usize = rope.try_char_to_line(offset).ok()?;
    proof {
        lemma_line_breaks_monotone(rope_text(rope), offset as int, rope_text(rope).len() as int);
    }
    let first_char_of_line: usize = rope.try_line_to_char(line).ok()?;
    proof {
        lemma_line_start_at(rope_text(rope), offset as int);
        lemma_line_start_unique(
            rope_text(rope),
            first_char_of_line as int,
            line_start_at(rope_text(rope), offset as int),
            line as nat,
        );
    }
    let column: usize = offset - first_char_of_line;
    Some(Position { line, column })
}

/// An offset that has the position `position` lies `position.column`
/// characters after the start of line `position.line`, which is a line of the
/// text.
pub proof fn lemma_position_locates_offset(text: Seq<char>, offset: int, position: Position)
    requires
        text.len() <= usize::MAX,
        position_at(text, offset) == Some(position),
    ensures
        0 <= offset <= text.len(),
        position.line == line_breaks_before(text, offset),
        position.line + 1 <= line_count(text),
        starts_line(text, offset - position.column, position.line as nat),
{
    lemma_line_breaks_bounded(text, offset);
    lemma_line_breaks_monotone(text, offset, text.len() as int);
    lemma_line_start_at(text, offset);
}

/// Two offsets with the same position are the same offset.
pub proof fn lemma_position_at_injective(text: Seq<char>, a: int, b: int)
    requires
        text.len() <= usize::MAX,
        position_at(text, a) is Some,
        position_at(text, a) == position_at(text, b),
    ensures
        a == b,
{
    let position = position_at(text, a)->0;
    lemma_position_locates_offset(text, a, position);
    lemma_position_locates_offset(text, b, position);
    lemma_line_start_unique(text, a - position.column, b - position.column, position.line as nat);
}

/// The offset that has the position `position` in the text of `rope`, or
/// `None` when no offset has it: when the text has no such line, or the line
/// ends before that column.
pub fn position_to_offset(position: Position, rope: &Rope) -> (offset: Option<usize>)
    ensures
        match offset {
            Some(o) => position_at(rope_text(rope), o as int) == Some(position),
            None => forall|o: int| position_at(rope_text(rope), o) != Some(position),
        },
{
    let ghost text = rope_text(rope);
    let len: usize = rope.len_chars();
    let start: usize = match rope.try_line_to_char(position.line) {
        Ok(start) => start,
        Err(_) => {
            assert forall|o: int| position_at(text, o) != Some(position) by {
                if position_at(text, o) == Some(position) {
                    lemma_position_locates_offset(text, o, position);
                }
            }
            return None;
        },
    };
    if position.column > len - start {
        assert forall|o: int| position_at(text, o) != Some(position) by {
            if position_at(text, o) == Some(position) {
                lemma_position_locates_offset(text, o, position);
                lemma_line_start_unique(text, start as int, o - position.column, position.line as nat);
            }
        }
        return None;
    }
    let offset: usize = start + position.column;
    match offset_to_position(offset, rope) {
        Some(found) if found.line == position.line && found.column == position.column => Some(
            offset,
        ),
        _ => {
            assert forall|o: int| position_at(text, o) != Some(position) by {
                if position_at(text, o) == Some(position) {
                    lemma_position_locates_offset(text, o, position);
                    lemma_line_start_unique(
                        text,
                        start as int,
                        o - position.column,
                        position.line as nat,
                    );
                }
            }
            None
        },
    }
}

} // verus!
