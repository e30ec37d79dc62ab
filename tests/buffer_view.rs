use yeet::buffer::{
    move_cursor, move_viewport, reset_cursor, set_content, update_buffer, validate_cursor,
    BufferLine, BufferResult, Cursor, CursorPosition, TextBuffer,
};
use yeet::message::{Buffer, CursorDirection, Mode, ViewPortDirection};
use yeet::model::sized_viewport;
use yeet::view::{correct_line_length, get_lines};
use yeet::viewport::{LineNumber, ViewPort, WindowSettings};

fn lines(names: &[&str]) -> Vec<BufferLine> {
    names.iter().map(|n| BufferLine::from_content(n.to_string())).collect()
}

fn buffer(names: &[&str], height: usize, cursor: Option<usize>) -> TextBuffer {
    TextBuffer {
        lines: lines(names),
        cursor: cursor.map(|v| Cursor { horizontal_index: CursorPosition::Hidden, vertical_index: v }),
        view_port: sized_viewport(10, height),
    }
}

#[test]
fn pads_short_lines_with_spaces() {
    assert_eq!(correct_line_length("ab", 5), "ab   ");
}

#[test]
fn truncates_long_lines() {
    assert_eq!(correct_line_length("abcdef", 3), "abc");
    assert_eq!(correct_line_length("äöüß", 2), "äö");
}

#[test]
fn keeps_lines_of_exact_width() {
    assert_eq!(correct_line_length("abc", 3), "abc");
    assert_eq!(correct_line_length("", 0), "");
}

#[test]
fn get_lines_emits_exactly_height_lines() {
    let mut b = buffer(&["one", "two", "three"], 4, Some(0));
    b.view_port.width = 4;
    b.view_port.vertical_index = 1;
    assert_eq!(get_lines(&b), vec!["two ", "thre", "    ", "    "]);
}

#[test]
fn moving_down_scrolls_the_viewport() {
    let mut b = buffer(&["a", "b", "c", "d", "e", "f"], 3, Some(0));
    move_cursor(Mode::Navigation, &mut b, 4, CursorDirection::Down);
    assert_eq!(b.cursor.unwrap().vertical_index, 4);
    assert_eq!(b.view_port.vertical_index, 2);
    move_cursor(Mode::Navigation, &mut b, 10, CursorDirection::Down);
    assert_eq!(b.cursor.unwrap().vertical_index, 5);
    assert_eq!(b.view_port.vertical_index, 3);
    move_cursor(Mode::Navigation, &mut b, 1, CursorDirection::Top);
    assert_eq!(b.cursor.unwrap().vertical_index, 0);
    assert_eq!(b.view_port.vertical_index, 0);
}

#[test]
fn cursor_stays_within_viewport_after_every_move() {
    let mut b = buffer(&["a", "b", "c", "d", "e", "f", "g", "h"], 3, Some(0));
    let moves = [
        (3, CursorDirection::Down),
        (1, CursorDirection::Up),
        (9, CursorDirection::Bottom),
        (2, CursorDirection::Up),
        (1, CursorDirection::Top),
    ];
    for (n, d) in moves {
        move_cursor(Mode::Navigation, &mut b, n, d);
        let v = b.cursor.unwrap().vertical_index;
        assert!(b.view_port.vertical_index <= v);
        assert!(v < b.view_port.vertical_index + b.view_port.height);
    }
}

#[test]
fn horizontal_moves_clamp_to_the_line() {
    let mut b = buffer(&["abc"], 3, Some(0));
    b.cursor = Some(Cursor { horizontal_index: CursorPosition::Absolute(1), vertical_index: 0 });
    move_cursor(Mode::Normal, &mut b, 5, CursorDirection::Right);
    assert_eq!(b.cursor.unwrap().horizontal_index, CursorPosition::Absolute(2));
    move_cursor(Mode::Insert, &mut b, 5, CursorDirection::Right);
    assert_eq!(b.cursor.unwrap().horizontal_index, CursorPosition::Absolute(3));
    move_cursor(Mode::Normal, &mut b, 1, CursorDirection::LineEnd);
    assert_eq!(b.cursor.unwrap().horizontal_index, CursorPosition::End);
    move_cursor(Mode::Normal, &mut b, 1, CursorDirection::Left);
    assert_eq!(b.cursor.unwrap().horizontal_index, CursorPosition::Absolute(1));
}

#[test]
fn viewport_directions_place_the_cursor_line() {
    let names: Vec<String> = (0..20).map(|i| i.to_string()).collect();
    let refs: Vec<&str> = names.iter().map(|s| s.as_str()).collect();
    let mut b = buffer(&refs, 4, Some(10));
    b.view_port.vertical_index = 8;
    move_viewport(&mut b, ViewPortDirection::TopOnCursor);
    assert_eq!(b.view_port.vertical_index, 10);
    move_viewport(&mut b, ViewPortDirection::BottomOnCursor);
    assert_eq!(b.view_port.vertical_index, 7);
    move_viewport(&mut b, ViewPortDirection::CenterOnCursor);
    assert_eq!(b.view_port.vertical_index, 8);
    move_viewport(&mut b, ViewPortDirection::HalfPageDown);
    assert_eq!(b.cursor.unwrap().vertical_index, 12);
    assert_eq!(b.view_port.vertical_index, 10);
    move_viewport(&mut b, ViewPortDirection::HalfPageUp);
    assert_eq!(b.cursor.unwrap().vertical_index, 10);
    assert_eq!(b.view_port.vertical_index, 8);
}

#[test]
fn validate_cursor_clamps_and_clears() {
    let mut b = buffer(&["a", "b", "c"], 2, Some(2));
    b.lines.pop();
    validate_cursor(&mut b);
    assert_eq!(b.cursor.unwrap().vertical_index, 1);
    set_content(&mut b, Vec::new());
    assert!(b.cursor.is_none());
}

#[test]
fn reset_cursor_returns_to_first_line() {
    let mut c = Some(Cursor { horizontal_index: CursorPosition::Absolute(4), vertical_index: 7 });
    reset_cursor(&mut c);
    assert_eq!(c, Some(Cursor { horizontal_index: CursorPosition::Absolute(0), vertical_index: 0 }));
    let mut none: Option<Cursor> = None;
    reset_cursor(&mut none);
    assert!(none.is_none());
}

#[test]
fn buffer_messages_edit_lines() {
    let mut b = buffer(&["a", "b"], 5, Some(0));
    let r = update_buffer(
        Mode::Normal,
        &mut b,
        &Buffer::Modification(yeet::message::TextModification::InsertNewLine(
            yeet::message::NewLineDirection::Under,
        )),
    );
    assert_eq!(r, BufferResult::Changed);
    assert_eq!(b.lines.len(), 3);
    assert_eq!(b.lines[1].content, "");
    assert_eq!(b.cursor.unwrap().vertical_index, 1);
    update_buffer(
        Mode::Normal,
        &mut b,
        &Buffer::Modification(yeet::message::TextModification::DeleteLineOnCursor),
    );
    let names: Vec<&str> = b.lines.iter().map(|l| l.content.as_str()).collect();
    assert_eq!(names, vec!["a", "b"]);
    let r = update_buffer(Mode::Normal, &mut b, &Buffer::SaveBuffer(None));
    assert_eq!(r, BufferResult::Unchanged);
}

#[test]
fn viewport_widths() {
    let mut vp: ViewPort = sized_viewport(20, 5);
    vp.sign_column_width = 2;
    vp.line_number = LineNumber::Relative;
    vp.line_number_width = 3;
    let mut line = BufferLine::from_content("x".to_string());
    line.prefix = Some("ab".to_string());
    assert_eq!(vp.get_line_number_width(), 3);
    assert_eq!(vp.get_prefix_width(), 5);
    assert_eq!(vp.get_border_width(), 1);
    assert_eq!(vp.get_offset_width(&line), 8);
    assert_eq!(vp.get_content_width(&line), 12);
    vp.line_number = LineNumber::Off;
    vp.set(&WindowSettings { sign_column_width: 0 });
    assert_eq!(vp.get_border_width(), 0);
    assert_eq!(vp.get_offset_width(&line), 2);
    vp.width = 1;
    assert_eq!(vp.get_content_width(&line), 0);
}

#[test]
fn mode_names() {
    assert_eq!(Mode::Navigation.to_string(), "navigation");
    assert_eq!(Mode::Insert.to_string(), "insert");
    assert_eq!(Mode::default(), Mode::Navigation);
    assert_eq!(LineNumber::default(), LineNumber::Off);
}
