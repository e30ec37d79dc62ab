use vstd::prelude::*;

use crate::message::{
    Buffer, CursorDirection, Mode, NewLineDirection, TextModification, ViewPortDirection,
};
use crate::viewport::ViewPort;

verus! {

/// Markers shown in the sign column of a line.
#[derive(Clone, Copy, Debug, PartialEq, Eq, Structural)]
pub enum SignIdentifier {
    Mark,
    QuickFix,
    Trash,
}

/// One line of a buffer: its text, an optional prefix, its signs, the
/// highlighted search match as (first character, length), and the name the
/// line had when it was listed from disk, if it was.
pub struct BufferLine {
    pub prefix: Option<String>,
    pub content: String,
    pub signs: Vec<SignIdentifier>,
    pub search_char_position: Option<(usize, usize)>,
    pub origin: Option<String>,
}

impl BufferLine {
    /// A plain line holding `content`.
    pub fn from_content(content: String) -> (r: BufferLine)
        ensures
            r.content == content,
            r.prefix is None,
            r.signs@.len() == 0,
            r.search_char_position is None,
            r.origin is None,
    {
        BufferLine {
            prefix: None,
            content,
            signs: Vec::new(),
            search_char_position: None,
            origin: None,
        }
    }

    /// The line of a directory entry named `name`, as listed from disk.
    pub fn from_name(name: String) -> (r: BufferLine)
        ensures
            r.content == name,
            r.origin == Some(name),
            r.prefix is None,
            r.signs@.len() == 0,
            r.search_char_position is None,
    {
        let origin = Some(name.clone());
        BufferLine { prefix: None, content: name, signs: Vec::new(), search_char_position: None, origin }
    }
}

/// Horizontal cursor placement: a character index, the end of the line, or
/// none at all (directory listings).
#[derive(Clone, Copy, Debug, PartialEq, Eq, Structural)]
pub enum CursorPosition {
    Absolute(usize),
    End,
    Hidden,
}

#[derive(Clone, Copy, Debug, PartialEq, Eq, Structural)]
pub struct Cursor {
    pub horizontal_index: CursorPosition,
    pub vertical_index: usize,
}

/// Lines, cursor and viewport of one displayed buffer.
pub struct TextBuffer {
    pub lines: Vec<BufferLine>,
    pub cursor: Option<Cursor>,
    pub view_port: ViewPort,
}

/// Two viewports that differ at most in their vertical scroll position.
pub open spec fn same_frame(a: ViewPort, b: ViewPort) -> bool {
    &&& a.height == b.height
    &&& a.width == b.width
    &&& a.horizontal_index == b.horizontal_index
    &&& a.line_number == b.line_number
    &&& a.line_number_width == b.line_number_width
    &&& a.sign_column_width == b.sign_column_width
    &&& a.hidden_sign_ids == b.hidden_sign_ids
}

/// The first visible line after scrolling just enough to show line `v`.
pub open spec fn scrolled_index(vi: int, v: int, height: int) -> int {
    if v < vi {
        v
    } else if height == 0 {
        vi
    } else if v - vi >= height {
        v - height + 1
    } else {
        vi
    }
}

/// Line index after a vertical motion in a buffer of `len` lines.
pub open spec fn moved_vertical(v: int, len: int, count: int, d: CursorDirection) -> int {
    match d {
        CursorDirection::Up => if v - count < 0 {
            0
        } else {
            v - count
        },
        CursorDirection::Down => if v + count > len - 1 {
            len - 1
        } else {
            v + count
        },
        CursorDirection::Top => 0,
        CursorDirection::Bottom => len - 1,
        _ => v,
    }
}

/// The last character index the cursor may take on a line of `len` characters.
pub open spec fn max_column(mode: Mode, len: int) -> int {
    if mode == Mode::Insert {
        len
    } else if len == 0 {
        0
    } else {
        len - 1
    }
}

/// Horizontal position after a motion on a line of `len` characters.
pub open spec fn moved_horizontal(
    p: CursorPosition,
    mode: Mode,
    len: int,
    count: int,
    d: CursorDirection,
) -> CursorPosition {
    let last = max_column(mode, len);
    match p {
        CursorPosition::Hidden => CursorPosition::Hidden,
        _ => match d {
            CursorDirection::Left => {
                let from = match p {
                    CursorPosition::Absolute(i) => if i > last {
                        last
                    } else {
                        i as int
                    },
                    _ => last,
                };
                CursorPosition::Absolute(
                    (if from - count < 0 {
                        0
                    } else {
                        from - count
                    }) as usize,
                )
            },
            CursorDirection::Right => match p {
                CursorPosition::Absolute(i) => CursorPosition::Absolute(
                    (if i + count > last {
                        last
                    } else {
                        i + count
                    }) as usize,
                ),
                _ => p,
            },
            CursorDirection::LineStart => CursorPosition::Absolute(0),
            CursorDirection::LineEnd => CursorPosition::End,
            _ => p,
        },
    }
}

pub open spec fn is_vertical(d: CursorDirection) -> bool {
    d == CursorDirection::Up || d == CursorDirection::Down || d == CursorDirection::Top || d
        == CursorDirection::Bottom
}

impl TextBuffer {
    /// A cursor points at an existing line, and an empty buffer has none.
    pub open spec fn wf(&self) -> bool {
        &&& (self.lines@.len() == 0 ==> self.cursor is None)
        &&& (self.cursor matches Some(c) ==> c.vertical_index < self.lines@.len())
    }

    /// The cursor's line lies inside the viewport.
    pub open spec fn cursor_in_view(&self) -> bool {
        self.cursor matches Some(c) ==> self.view_port.vertical_index <= c.vertical_index
            < self.view_port.vertical_index + self.view_port.height
    }

    /// The buffer after its cursor moved to `c` and the viewport followed it.
    pub open spec fn focused_on(&self, old: TextBuffer, c: Cursor) -> bool {
        &&& self.lines == old.lines
        &&& self.cursor == Some(c)
        &&& same_frame(self.view_port, old.view_port)
        &&& self.view_port.vertical_index == scrolled_index(
            old.view_port.vertical_index as int,
            c.vertical_index as int,
            old.view_port.height as int,
        )
    }
}

/// An empty buffer with the given viewport.
pub fn empty_buffer(view_port: ViewPort) -> (r: TextBuffer)
    ensures
        r.wf(),
        r.lines@.len() == 0,
        r.cursor is None,
        r.view_port == view_port,
{
    TextBuffer { lines: Vec::new(), cursor: None, view_port }
}

/// Scrolls the viewport just far enough to show the cursor's line.
pub fn scroll_to_cursor(buffer: &mut TextBuffer)
    ensures
        final(buffer).lines == old(buffer).lines,
        final(buffer).cursor == old(buffer).cursor,
        same_frame(final(buffer).view_port, old(buffer).view_port),
        match old(buffer).cursor {
            Some(c) => final(buffer).view_port.vertical_index == scrolled_index(
                old(buffer).view_port.vertical_index as int,
                c.vertical_index as int,
                old(buffer).view_port.height as int,
            ),
            None => final(buffer).view_port.vertical_index
                == old(buffer).view_port.vertical_index,
        },
        final(buffer).view_port.height > 0 ==> final(buffer).cursor_in_view(),
{
    if let Some(c) = buffer.cursor {
        let v = c.vertical_index;
        let h = buffer.view_port.height;
        if v < buffer.view_port.vertical_index {
            buffer.view_port.vertical_index = v;
        } else if h == 0 {
        } else if v - buffer.view_port.vertical_index >= h {
            buffer.view_port.vertical_index = v - h + 1;
        }
    }
}

/// Puts the cursor at `c` and scrolls to it.
fn focus(buffer: &mut TextBuffer, c: Cursor)
    ensures
        final(buffer).focused_on(*old(buffer), c),
        final(buffer).view_port.height > 0 ==> final(buffer).cursor_in_view(),
{
    buffer.cursor = Some(c);
    scroll_to_cursor(buffer);
}

/// Moves the cursor `count` steps in `direction`; the viewport follows it.
pub fn move_cursor(mode: Mode, buffer: &mut TextBuffer, count: usize, direction: CursorDirection)
    requires
        old(buffer).wf(),
    ensures
        final(buffer).wf(),
        final(buffer).view_port.height > 0 ==> final(buffer).cursor_in_view(),
        match old(buffer).cursor {
            None => final(buffer).lines == old(buffer).lines && final(buffer).cursor is None
                && final(buffer).view_port == old(buffer).view_port,
            Some(c) => {
                let v = c.vertical_index as int;
                let len = old(buffer).lines@.len() as int;
                let line_len = old(buffer).lines@[v].content@.len() as int;
                let moved = if is_vertical(direction) {
                    Cursor {
                        horizontal_index: c.horizontal_index,
                        vertical_index: moved_vertical(v, len, count as int, direction) as usize,
                    }
                } else {
                    Cursor {
                        horizontal_index: moved_horizontal(
                            c.horizontal_index,
                            mode,
                            line_len,
                            count as int,
                            direction,
                        ),
                        vertical_index: c.vertical_index,
                    }
                };
                final(buffer).focused_on(*old(buffer), moved)
            },
        },
{
    let c = match buffer.cursor {
        Some(c) => c,
        None => return ,
    };
    let len = buffer.lines.len();
    let v = c.vertical_index;
    let moved = match direction {
        CursorDirection::Up => Cursor {
            horizontal_index: c.horizontal_index,
            vertical_index: v.saturating_sub(count),
        },
        CursorDirection::Down => {
            let target = v.saturating_add(count);
            Cursor {
                horizontal_index: c.horizontal_index,
                vertical_index: if target > len - 1 {
                    len - 1
                } else {
                    target
                },
            }
        },
        CursorDirection::Top => Cursor { horizontal_index: c.horizontal_index, vertical_index: 0 },
        CursorDirection::Bottom => Cursor {
            horizontal_index: c.horizontal_index,
            vertical_index: len - 1,
        },
        _ => {
            let line_len = buffer.lines[v].content.as_str().unicode_len();
            let last: usize = if mode == Mode::Insert {
                line_len
            } else if line_len == 0 {
                0
            } else {
                line_len - 1
            };
            let h = match c.horizontal_index {
                CursorPosition::Hidden => CursorPosition::Hidden,
                CursorPosition::Absolute(i) => match direction {
                    CursorDirection::Left => {
                        let from = if i > last {
                            last
                        } else {
                            i
                        };
                        CursorPosition::Absolute(from.saturating_sub(count))
                    },
                    CursorDirection::Right => {
                        let target = i.saturating_add(count);
                        CursorPosition::Absolute(
                            if target > last {
                                last
                            } else {
                                target
                            },
                        )
                    },
                    CursorDirection::LineStart => CursorPosition::Absolute(0),
                    _ => CursorPosition::End,
                },
                CursorPosition::End => match direction {
                    CursorDirection::Left => CursorPosition::Absolute(last.saturating_sub(count)),
                    CursorDirection::Right => CursorPosition::End,
                    CursorDirection::LineStart => CursorPosition::Absolute(0),
                    _ => CursorPosition::End,
                },
            };
            Cursor { horizontal_index: h, vertical_index: v }
        },
    };
    focus(buffer, moved);
}

/// First visible line and cursor line after scrolling in `direction`.
pub open spec fn scrolled_view(
    vi: int,
    v: int,
    len: int,
    height: int,
    direction: ViewPortDirection,
) -> (int, int) {
    let half = height / 2;
    match direction {
        ViewPortDirection::TopOnCursor => (v, v),
        ViewPortDirection::BottomOnCursor => (if v + 1 >= height {
            v + 1 - height
        } else {
            0
        }, v),
        ViewPortDirection::CenterOnCursor => (if v >= half {
            v - half
        } else {
            0
        }, v),
        ViewPortDirection::HalfPageDown => {
            let nv = if v + half > len - 1 {
                len - 1
            } else {
                v + half
            };
            (scrolled_index(capped_add(vi, half), nv, height), nv)
        },
        ViewPortDirection::HalfPageUp => {
            let nv = if v >= half {
                v - half
            } else {
                0
            };
            (scrolled_index(if vi >= half {
                vi - half
            } else {
                0
            }, nv, height), nv)
        },
    }
}

pub open spec fn capped_add(a: int, b: int) -> int {
    if a + b > usize::MAX {
        usize::MAX as int
    } else {
        a + b
    }
}

/// Scrolls the viewport relative to the cursor; half-page moves carry the
/// cursor along.
pub fn move_viewport(buffer: &mut TextBuffer, direction: ViewPortDirection)
    requires
        old(buffer).wf(),
    ensures
        final(buffer).wf(),
        final(buffer).lines == old(buffer).lines,
        same_frame(final(buffer).view_port, old(buffer).view_port),
        final(buffer).view_port.height > 0 ==> final(buffer).cursor_in_view(),
        match old(buffer).cursor {
            None => final(buffer).cursor is None && final(buffer).view_port
                == old(buffer).view_port,
            Some(c) => {
                let r = scrolled_view(
                    old(buffer).view_port.vertical_index as int,
                    c.vertical_index as int,
                    old(buffer).lines@.len() as int,
                    old(buffer).view_port.height as int,
                    direction,
                );
                &&& final(buffer).view_port.vertical_index == r.0
                &&& final(buffer).cursor == Some(
                    Cursor { horizontal_index: c.horizontal_index, vertical_index: r.1 as usize },
                )
            },
        },
{
    let c = match buffer.cursor {
        Some(c) => c,
        None => return ,
    };
    let v = c.vertical_index;
    let h = buffer.view_port.height;
    let half = h / 2;
    match direction {
        ViewPortDirection::TopOnCursor => {
            buffer.view_port.vertical_index = v;
        },
        ViewPortDirection::BottomOnCursor => {
            let len = buffer.lines.len();
            buffer.view_port.vertical_index = if v + 1 >= h {
                v + 1 - h
            } else {
                0
            };
        },
        ViewPortDirection::CenterOnCursor => {
            buffer.view_port.vertical_index = v.saturating_sub(half);
        },
        ViewPortDirection::HalfPageDown => {
            let len = buffer.lines.len();
            let nv = if v.saturating_add(half) > len - 1 {
                len - 1
            } else {
                v + half
            };
            buffer.view_port.vertical_index = buffer.view_port.vertical_index.saturating_add(half);
            focus(buffer, Cursor { horizontal_index: c.horizontal_index, vertical_index: nv });
        },
        ViewPortDirection::HalfPageUp => {
            let nv = v.saturating_sub(half);
            buffer.view_port.vertical_index = buffer.view_port.vertical_index.saturating_sub(half);
            focus(buffer, Cursor { horizontal_index: c.horizontal_index, vertical_index: nv });
        },
    }
}

/// Puts the cursor back on the first line, at the start of the line where it
/// has a column.
pub fn reset_cursor(cursor: &mut Option<Cursor>)
    ensures
        match *old(cursor) {
            None => *final(cursor) is None,
            Some(c) => *final(cursor) == Some(
                Cursor {
                    vertical_index: 0,
                    horizontal_index: match c.horizontal_index {
                        CursorPosition::Absolute(_) => CursorPosition::Absolute(0),
                        other => other,
                    },
                },
            ),
        },
{
    if let Some(c) = cursor {
        c.vertical_index = 0;
        c.horizontal_index = match c.horizontal_index {
            CursorPosition::Absolute(_) => CursorPosition::Absolute(0),
            CursorPosition::End => CursorPosition::End,
            CursorPosition::Hidden => CursorPosition::Hidden,
        };
    }
}

/// The cursor clamped into a buffer of `len` lines.
pub open spec fn clamped_cursor(cursor: Option<Cursor>, len: int) -> Option<Cursor> {
    if len == 0 {
        None
    } else {
        match cursor {
            None => None,
            Some(c) => Some(
                Cursor {
                    horizontal_index: c.horizontal_index,
                    vertical_index: if c.vertical_index >= len {
                        (len - 1) as usize
                    } else {
                        c.vertical_index
                    },
                },
            ),
        }
    }
}

/// The buffer holds `lines`, its cursor re-clamped to them and scrolled into view.
pub open spec fn revalidated(b: TextBuffer, old: TextBuffer, lines: Seq<BufferLine>) -> bool {
    &&& b.lines@ == lines
    &&& b.cursor == clamped_cursor(old.cursor, lines.len() as int)
    &&& same_frame(b.view_port, old.view_port)
    &&& match b.cursor {
        Some(c) => b.view_port.vertical_index == scrolled_index(
            old.view_port.vertical_index as int,
            c.vertical_index as int,
            old.view_port.height as int,
        ),
        None => b.view_port.vertical_index == old.view_port.vertical_index,
    }
    &&& b.wf()
    &&& (b.view_port.height > 0 ==> b.cursor_in_view())
}

/// Clamps the cursor to the lines present (none on an empty buffer) and
/// scrolls it into view.
pub fn validate_cursor(buffer: &mut TextBuffer)
    ensures
        revalidated(*final(buffer), *old(buffer), old(buffer).lines@),
{
    let len = buffer.lines.len();
    if len == 0 {
        buffer.cursor = None;
    } else if let Some(c) = buffer.cursor {
        if c.vertical_index >= len {
            buffer.cursor = Some(
                Cursor { horizontal_index: c.horizontal_index, vertical_index: len - 1 },
            );
        }
    }
    scroll_to_cursor(buffer);
}

/// Replaces the buffer's lines wholesale and re-clamps the cursor.
pub fn set_content(buffer: &mut TextBuffer, lines: Vec<BufferLine>)
    ensures
        revalidated(*final(buffer), *old(buffer), lines@),
{
    buffer.lines = lines;
    validate_cursor(buffer);
}

/// Index of the first line whose content is `content`, if any.
pub fn find_line(lines: &Vec<BufferLine>, content: &String) -> (r: Option<usize>)
    ensures
        match r {
            Some(i) => i < lines@.len() && lines@[i as int].content@ == content@ && forall|j: int|
                0 <= j < i ==> lines@[j].content@ != content@,
            None => forall|j: int| 0 <= j < lines@.len() ==> lines@[j].content@ != content@,
        },
{
    let mut i: usize = 0;
    while i < lines.len()
        invariant
            i <= lines@.len(),
            forall|j: int| 0 <= j < i ==> lines@[j].content@ != content@,
        decreases lines@.len() - i,
    {
        if lines[i].content == *content {
            return Some(i);
        }
        i = i + 1;
    }
    None
}

/// Moves the cursor onto the first line whose content is `content`. Returns
/// whether such a line exists; the buffer is unchanged when it does not.
pub fn set_cursor_to_line_content(buffer: &mut TextBuffer, content: &String) -> (r: bool)
    requires
        old(buffer).wf(),
    ensures
        final(buffer).wf(),
        final(buffer).view_port.height > 0 && r ==> final(buffer).cursor_in_view(),
        r == exists|j: int|
            0 <= j < old(buffer).lines@.len() && old(buffer).lines@[j].content@ == content@,
        !r ==> *final(buffer) == *old(buffer),
        r ==> (final(buffer).cursor matches Some(c) && c.vertical_index < final(buffer).lines@.len()
            && final(buffer).lines@[c.vertical_index as int].content@ == content@),
        r ==> exists|i: int|
            0 <= i < old(buffer).lines@.len() && old(buffer).lines@[i].content@ == content@
                && (forall|j: int| 0 <= j < i ==> old(buffer).lines@[j].content@ != content@)
                && final(buffer).focused_on(
                *old(buffer),
                Cursor {
                    horizontal_index: match old(buffer).cursor {
                        Some(c) => c.horizontal_index,
                        None => CursorPosition::Hidden,
                    },
                    vertical_index: i as usize,
                },
            ),
{
    match find_line(&buffer.lines, content) {
        Some(i) => {
            let horizontal_index = match buffer.cursor {
                Some(c) => c.horizontal_index,
                None => CursorPosition::Hidden,
            };
            focus(buffer, Cursor { horizontal_index, vertical_index: i });
            true
        },
        None => false,
    }
}

/// What a buffer message did to the buffer.
#[derive(Clone, Copy, Debug, PartialEq, Eq, Structural)]
pub enum BufferResult {
    Changed,
    CursorMoved,
    Unchanged,
}

/// Applies a buffer message. Cursor and viewport moves keep the cursor's line
/// inside a viewport of non-zero height.
pub fn update_buffer(mode: Mode, buffer: &mut TextBuffer, message: &Buffer) -> (r: BufferResult)
    requires
        old(buffer).wf(),
    ensures
        final(buffer).wf(),
        (message is MoveCursor || message is MoveViewPort) ==> same_frame(
            final(buffer).view_port,
            old(buffer).view_port,
        ) && final(buffer).lines == old(buffer).lines && (old(buffer).cursor is Some
            ==> final(buffer).cursor is Some) && (old(buffer).view_port.height > 0
            ==> final(buffer).cursor_in_view()),
        old(buffer).cursor is None ==> final(buffer).lines == old(buffer).lines && final(buffer).cursor is None,
        match message {
            Buffer::MoveCursor(count, direction) => {
                &&& r == BufferResult::CursorMoved
                &&& final(buffer).lines == old(buffer).lines
                &&& match old(buffer).cursor {
                    None => final(buffer).cursor is None,
                    Some(c) => final(buffer).cursor matches Some(n) && (is_vertical(*direction)
                        ==> n.vertical_index == moved_vertical(
                        c.vertical_index as int,
                        old(buffer).lines@.len() as int,
                        *count as int,
                        *direction,
                    ) as usize),
                }
            },
            Buffer::MoveViewPort(_) => r == BufferResult::CursorMoved && final(buffer).lines
                == old(buffer).lines,
            Buffer::Modification(_) => r == BufferResult::Changed,
            _ => r == BufferResult::Unchanged && *final(buffer) == *old(buffer),
        },
{
    match message {
        Buffer::MoveCursor(count, direction) => {
            move_cursor(mode, buffer, *count, *direction);
            BufferResult::CursorMoved
        },
        Buffer::MoveViewPort(direction) => {
            move_viewport(buffer, *direction);
            BufferResult::CursorMoved
        },
        Buffer::Modification(modification) => {
            modify(mode, buffer, modification);
            BufferResult::Changed
        },
        Buffer::ChangeMode(_, _) => BufferResult::Unchanged,
        Buffer::SaveBuffer(_) => BufferResult::Unchanged,
    }
}

/// Column at which an edit applies on a line of `len` characters.
pub open spec fn edit_column(p: CursorPosition, len: int) -> int {
    match p {
        CursorPosition::Absolute(i) => if i > len {
            len
        } else {
            i as int
        },
        _ => len,
    }
}

/// The text of `c` after an edit at column `col`.
pub open spec fn edited(c: Seq<char>, col: int, m: TextModification) -> Seq<char> {
    match m {
        TextModification::Insert(s) => c.take(col) + s@ + c.skip(col),
        TextModification::DeleteCharBeforeCursor => if col > 0 {
            c.take(col - 1) + c.skip(col)
        } else {
            c
        },
        TextModification::DeleteCharOnCursor => if col < c.len() {
            c.take(col) + c.skip(col + 1)
        } else {
            c
        },
        _ => c,
    }
}

/// Column of the cursor after an edit at column `col`.
pub open spec fn edited_column(col: int, m: TextModification) -> int {
    match m {
        TextModification::Insert(s) => col + s@.len(),
        TextModification::DeleteCharBeforeCursor => if col > 0 {
            col - 1
        } else {
            col
        },
        _ => col,
    }
}

fn edit_line(content: &String, col: usize, modification: &TextModification) -> (r: (String, usize))
    requires
        col <= content@.len(),
        modification is Insert || modification is DeleteCharBeforeCursor
            || modification is DeleteCharOnCursor,
        modification matches TextModification::Insert(s) ==> content@.len() + s@.len() <= usize::MAX,
    ensures
        r.0@ == edited(content@, col as int, *modification),
        r.1 == edited_column(col as int, *modification),
{
    let s = content.as_str();
    let n = s.unicode_len();
    match modification {
        TextModification::Insert(text) => {
            let mut out = String::from_str(s.substring_char(0, col));
            out.append(text.as_str());
            out.append(s.substring_char(col, n));
            (out, col + text.as_str().unicode_len())
        },
        TextModification::DeleteCharBeforeCursor => {
            if col > 0 {
                let mut out = String::from_str(s.substring_char(0, col - 1));
                out.append(s.substring_char(col, n));
                (out, col - 1)
            } else {
                (content.clone(), col)
            }
        },
        _ => {
            if col < n {
                let mut out = String::from_str(s.substring_char(0, col));
                out.append(s.substring_char(col + 1, n));
                (out, col)
            } else {
                (content.clone(), col)
            }
        },
    }
}

/// What one edit at the cursor does to a buffer; see `modify`.
pub open spec fn modify_post(
    mode: Mode,
    old: TextBuffer,
    new: TextBuffer,
    modification: TextModification,
) -> bool {
    &&& new.wf()
    &&& (old.cursor is None ==> new == old)
    &&& match (old.cursor, modification) {
            (Some(c), TextModification::DeleteLineOnCursor) => new.lines@ == old.lines@.remove(c.vertical_index as int),
            (Some(c), TextModification::InsertNewLine(NewLineDirection::Above)) => {
                &&& new.lines@.len() == old.lines@.len() + 1
                &&& new.lines@[c.vertical_index as int].content@.len() == 0
                &&& new.lines@.remove(c.vertical_index as int) == old.lines@
                &&& new.cursor matches Some(n) && n.vertical_index == c.vertical_index
            },
            (Some(c), TextModification::InsertNewLine(NewLineDirection::Under)) => {
                &&& new.lines@.len() == old.lines@.len() + 1
                &&& new.lines@[c.vertical_index + 1].content@.len() == 0
                &&& new.lines@.remove(c.vertical_index + 1) == old.lines@
                &&& new.cursor matches Some(n) && n.vertical_index == c.vertical_index
                    + 1
            },
            (Some(c), m) => {
                let v = c.vertical_index as int;
                let line = old.lines@[v].content@;
                let col = edit_column(c.horizontal_index, line.len() as int);
                &&& new.lines@.len() == old.lines@.len()
                &&& forall|j: int|
                    0 <= j < old.lines@.len() && j != v ==> new.lines@[j]
                        == old.lines@[j]
                &&& (line.len() + match m {
                    TextModification::Insert(s) => s@.len() as int,
                    _ => 0,
                } <= usize::MAX ==> {
                    &&& new.lines@[v].content@ == edited(line, col, m)
                    &&& new.cursor matches Some(n) && n.vertical_index == c.vertical_index
                        && n.horizontal_index == CursorPosition::Absolute(
                        edited_column(col, m) as usize,
                    )
                })
            },
            _ => new.lines == old.lines,
        }
}

/// Edits at the cursor: removing the cursor's line, opening an empty line
/// above or below it, inserting text at the cursor's column, or deleting the
/// character before or under it.
pub fn modify(mode: Mode, buffer: &mut TextBuffer, modification: &TextModification)
    requires
        old(buffer).wf(),
    ensures
        modify_post(mode, *old(buffer), *final(buffer), *modification),
{
    let c = match buffer.cursor {
        Some(c) => c,
        None => return ,
    };
    let v = c.vertical_index;
    let len = buffer.lines.len();
    match modification {
        TextModification::DeleteLineOnCursor => {
            buffer.lines.remove(v);
            validate_cursor(buffer);
        },
        TextModification::InsertNewLine(direction) => {
            let at = match direction {
                NewLineDirection::Above => v,
                NewLineDirection::Under => v + 1,
            };
            let column = if mode == Mode::Insert || mode == Mode::Normal {
                CursorPosition::Absolute(0)
            } else {
                c.horizontal_index
            };
            buffer.lines.insert(at, BufferLine::from_content(String::new()));
            proof {
                assert(buffer.lines@.remove(at as int) =~= old(buffer).lines@);
            }
            focus(buffer, Cursor { horizontal_index: column, vertical_index: at });
        },
        _ => {
            let line_len = buffer.lines[v].content.as_str().unicode_len();
            let col: usize = match c.horizontal_index {
                CursorPosition::Absolute(i) => if i > line_len {
                    line_len
                } else {
                    i
                },
                _ => line_len,
            };
            if let TextModification::Insert(text) = modification {
                if text.as_str().unicode_len() > usize::MAX - line_len {
                    return ;
                }
            }
            let (content, column) = edit_line(&buffer.lines[v].content, col, modification);
            buffer.lines[v].content = content;
            focus(buffer, Cursor { horizontal_index: CursorPosition::Absolute(column), vertical_index: v });
        },
    }
}

/// Puts a cursor on the first line of a buffer that has lines but no cursor.
pub fn focus_first(buffer: &mut TextBuffer)
    requires
        old(buffer).wf(),
    ensures
        final(buffer).wf(),
        final(buffer).lines == old(buffer).lines,
        old(buffer).cursor is Some ==> final(buffer).cursor == old(buffer).cursor,
        old(buffer).lines@.len() > 0 ==> final(buffer).cursor is Some,
{
    if buffer.cursor.is_none() && buffer.lines.len() > 0 {
        buffer.cursor = Some(Cursor { horizontal_index: CursorPosition::Hidden, vertical_index: 0 });
        scroll_to_cursor(buffer);
    }
}


} // verus!
