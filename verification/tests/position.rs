use daleth_lsp::position::{offset_to_position, position_to_offset, Position};
use ropey::Rope;

fn at(line: usize, column: usize) -> Position {
    Position { line, column }
}

/// The position of each offset of `text`, found by walking its characters.
fn positions_by_walking(text: &str) -> Vec<Position> {
    let chars: Vec<char> = text.chars().collect();
    let mut positions = vec![at(0, 0)];
    let mut line = 0;
    let mut column = 0;
    for (index, c) in chars.iter().enumerate() {
        let breaks = matches!(
            c,
            '\u{000A}' | '\u{000B}' | '\u{000C}' | '\u{000D}' | '\u{0085}' | '\u{2028}' | '\u{2029}'
        );
        let first_of_pair = *c == '\r' && chars.get(index + 1) == Some(&'\n');
        if breaks && !first_of_pair {
            line += 1;
            column = 0;
        } else {
            column += 1;
        }
        positions.push(at(line, column));
    }
    positions
}

fn sample_texts() -> Vec<String> {
    let mut texts: Vec<String> = vec![
        "",
        "a",
        "\n",
        "hello",
        "ab\ncd",
        "ab\ncd\n",
        "a\r\nb",
        "a\rb",
        "\r\n",
        "\r\r\n\n",
        "\n\r",
        "one\u{000B}two\u{000C}three\u{0085}four\u{2028}five\u{2029}six",
        "h\u{e9}llo\nw\u{f6}rld \u{1F600}\r\nend",
        "tag: text\n  inner {\n    more\n  }\n",
    ]
    .into_iter()
    .map(String::from)
    .collect();
    let mut long = String::new();
    for i in 0..600 {
        long.push_str("line ");
        long.push_str(&i.to_string());
        long.push_str(if i % 3 == 0 { "\r\n" } else if i % 3 == 1 { "\n" } else { " \u{2028}\r" });
    }
    texts.push(long);
    texts.push("\r\n".repeat(3000));
    texts
}

#[test]
fn offset_zero_is_line_zero_column_zero() {
    for text in sample_texts() {
        let rope = Rope::from_str(&text);
        assert_eq!(offset_to_position(0, &rope), Some(at(0, 0)), "text {:?}", text);
    }
}

#[test]
fn end_of_text_resolves() {
    for text in sample_texts() {
        let rope = Rope::from_str(&text);
        let end = text.chars().count();
        let expected = positions_by_walking(&text)[end];
        assert_eq!(offset_to_position(end, &rope), Some(expected), "text {:?}", text);
    }
}

#[test]
fn end_of_empty_text_is_its_start() {
    let rope = Rope::from_str("");
    assert_eq!(offset_to_position(0, &rope), Some(at(0, 0)));
    assert_eq!(offset_to_position(1, &rope), None);
}

#[test]
fn offset_beyond_the_end_has_no_position() {
    for text in sample_texts() {
        let rope = Rope::from_str(&text);
        let end = text.chars().count();
        assert_eq!(offset_to_position(end + 1, &rope), None, "text {:?}", text);
        assert_eq!(offset_to_position(end + 1000, &rope), None, "text {:?}", text);
        assert_eq!(offset_to_position(usize::MAX, &rope), None, "text {:?}", text);
    }
}

#[test]
fn positions_in_two_lines() {
    let rope = Rope::from_str("ab\ncd");
    assert_eq!(offset_to_position(0, &rope), Some(at(0, 0)));
    assert_eq!(offset_to_position(1, &rope), Some(at(0, 1)));
    assert_eq!(offset_to_position(2, &rope), Some(at(0, 2)));
    assert_eq!(offset_to_position(3, &rope), Some(at(1, 0)));
    assert_eq!(offset_to_position(4, &rope), Some(at(1, 1)));
    assert_eq!(offset_to_position(5, &rope), Some(at(1, 2)));
    assert_eq!(offset_to_position(6, &rope), None);
}

#[test]
fn text_that_ends_with_a_break_has_an_empty_last_line() {
    let rope = Rope::from_str("ab\n");
    assert_eq!(offset_to_position(2, &rope), Some(at(0, 2)));
    assert_eq!(offset_to_position(3, &rope), Some(at(1, 0)));
}

#[test]
fn carriage_return_and_line_feed_are_one_break() {
    let rope = Rope::from_str("a\r\nb");
    assert_eq!(offset_to_position(1, &rope), Some(at(0, 1)));
    assert_eq!(offset_to_position(2, &rope), Some(at(0, 2)));
    assert_eq!(offset_to_position(3, &rope), Some(at(1, 0)));
    assert_eq!(offset_to_position(4, &rope), Some(at(1, 1)));
}

#[test]
fn lone_carriage_return_breaks_a_line() {
    let rope = Rope::from_str("a\rb");
    assert_eq!(offset_to_position(1, &rope), Some(at(0, 1)));
    assert_eq!(offset_to_position(2, &rope), Some(at(1, 0)));
    let rope = Rope::from_str("\n\r");
    assert_eq!(offset_to_position(1, &rope), Some(at(1, 0)));
    assert_eq!(offset_to_position(2, &rope), Some(at(2, 0)));
}

#[test]
fn unicode_separators_break_a_line() {
    for separator in ['\u{000B}', '\u{000C}', '\u{0085}', '\u{2028}', '\u{2029}'] {
        let text = format!("ab{}c", separator);
        let rope = Rope::from_str(&text);
        assert_eq!(offset_to_position(2, &rope), Some(at(0, 2)), "separator {:?}", separator);
        assert_eq!(offset_to_position(3, &rope), Some(at(1, 0)), "separator {:?}", separator);
        assert_eq!(offset_to_position(4, &rope), Some(at(1, 1)), "separator {:?}", separator);
    }
}

#[test]
fn other_characters_break_no_line() {
    let rope = Rope::from_str("a\tb c\u{00A0}d\u{0000}e");
    assert_eq!(offset_to_position(9, &rope), Some(at(0, 9)));
}

#[test]
fn columns_count_characters_not_bytes() {
    let rope = Rope::from_str("h\u{e9}llo\nw\u{f6}rld \u{1F600}!");
    assert_eq!(offset_to_position(5, &rope), Some(at(0, 5)));
    assert_eq!(offset_to_position(6, &rope), Some(at(1, 0)));
    assert_eq!(offset_to_position(13, &rope), Some(at(1, 7)));
    assert_eq!(offset_to_position(14, &rope), Some(at(1, 8)));
    assert_eq!(offset_to_position(15, &rope), None);
}

#[test]
fn every_offset_has_the_position_found_by_walking() {
    for text in sample_texts() {
        let rope = Rope::from_str(&text);
        let expected = positions_by_walking(&text);
        for (offset, position) in expected.iter().enumerate() {
            assert_eq!(
                offset_to_position(offset, &rope),
                Some(*position),
                "offset {} of {:?}",
                offset,
                text
            );
        }
    }
}

#[test]
fn line_start_plus_column_gives_the_offset_back() {
    for text in sample_texts() {
        let rope = Rope::from_str(&text);
        let end = text.chars().count();
        for offset in 0..=end {
            let position = offset_to_position(offset, &rope).unwrap();
            let line_start = position_to_offset(at(position.line, 0), &rope).unwrap();
            assert_eq!(line_start + position.column, offset, "offset {} of {:?}", offset, text);
            assert_eq!(position_to_offset(position, &rope), Some(offset));
        }
    }
}

#[test]
fn positions_keep_the_order_of_offsets() {
    for text in sample_texts() {
        let rope = Rope::from_str(&text);
        let end = text.chars().count();
        for offset in 0..end {
            let here = offset_to_position(offset, &rope).unwrap();
            let next = offset_to_position(offset + 1, &rope).unwrap();
            assert!(
                (here.line, here.column) < (next.line, next.column),
                "offset {} of {:?}",
                offset,
                text
            );
        }
    }
}

#[test]
fn position_to_offset_finds_offsets() {
    let rope = Rope::from_str("ab\ncd");
    assert_eq!(position_to_offset(at(0, 0), &rope), Some(0));
    assert_eq!(position_to_offset(at(0, 2), &rope), Some(2));
    assert_eq!(position_to_offset(at(1, 0), &rope), Some(3));
    assert_eq!(position_to_offset(at(1, 2), &rope), Some(5));
}

#[test]
fn position_past_the_end_of_its_line_has_no_offset() {
    let rope = Rope::from_str("ab\ncd");
    assert_eq!(position_to_offset(at(0, 3), &rope), None);
    assert_eq!(position_to_offset(at(0, 4), &rope), None);
    assert_eq!(position_to_offset(at(1, 3), &rope), None);
    assert_eq!(position_to_offset(at(0, usize::MAX), &rope), None);
    assert_eq!(position_to_offset(at(1, usize::MAX), &rope), None);
}

#[test]
fn position_on_a_line_the_text_lacks_has_no_offset() {
    let rope = Rope::from_str("ab\ncd");
    assert_eq!(position_to_offset(at(2, 0), &rope), None);
    assert_eq!(position_to_offset(at(3, 0), &rope), None);
    assert_eq!(position_to_offset(at(usize::MAX, 0), &rope), None);
    let rope = Rope::from_str("ab\n");
    assert_eq!(position_to_offset(at(1, 0), &rope), Some(3));
    assert_eq!(position_to_offset(at(2, 0), &rope), None);
    let rope = Rope::from_str("");
    assert_eq!(position_to_offset(at(0, 0), &rope), Some(0));
    assert_eq!(position_to_offset(at(1, 0), &rope), None);
}

#[test]
fn position_between_carriage_return_and_line_feed_has_its_offset() {
    let rope = Rope::from_str("a\r\nb");
    assert_eq!(position_to_offset(at(0, 2), &rope), Some(2));
    assert_eq!(position_to_offset(at(0, 3), &rope), None);
    assert_eq!(position_to_offset(at(1, 0), &rope), Some(3));
}
