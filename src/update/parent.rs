use vstd::prelude::*;

use crate::buffer::{
    find_line, move_viewport, set_content, update_buffer, Cursor, CursorPosition,
};
use crate::message::{Buffer, ViewPortDirection};
use crate::model::Model;
use crate::paths::{file_name, file_name_of};
use crate::update::path::{first_line_with, has_line};

verus! {

/// Refreshes the parent slot: applies `message` to it, then puts its cursor
/// on the current directory's name and centres it. Without a parent
/// directory the slot is emptied.
pub fn update(model: &mut Model, message: Option<&Buffer>)
    requires
        old(model).wf(),
    ensures
        final(model).wf(),
        final(model).files.parent.path == old(model).files.parent.path,
        final(model).files.parent.state == old(model).files.parent.state,
        final(model).files.current == old(model).files.current,
        final(model).files.preview == old(model).files.preview,
        final(model).history == old(model).history,
        final(model).mode == old(model).mode,
        old(model).files.parent.path is None ==> final(model).files.parent.buffer.lines@.len() == 0
            && final(model).files.parent.buffer.cursor is None,
        old(model).files.parent.path is Some && message is None ==> {
            let lines = old(model).files.parent.buffer.lines@;
            &&& final(model).files.parent.buffer.lines == old(model).files.parent.buffer.lines
            &&& match old(model).files.current.path {
                Some(cp) => match file_name_of(cp@) {
                    Some(n) => has_line(lines, n) ==> (final(model).files.parent.buffer.cursor matches Some(c) && c.vertical_index
                        == first_line_with(lines, n) && final(model).files.parent.buffer.view_port.vertical_index
                        == (if c.vertical_index >= old(model).files.parent.buffer.view_port.height / 2 {
                        c.vertical_index - old(model).files.parent.buffer.view_port.height / 2
                    } else {
                        0
                    }) && final(model).files.parent.buffer.view_port.height
                        == old(model).files.parent.buffer.view_port.height),
                    None => true,
                },
                None => true,
            }
        },
{
    match &model.files.parent.path {
        Some(_) => {
            if let Some(message) = message {
                update_buffer(model.mode, &mut model.files.parent.buffer, message);
            }
            let current_name = match &model.files.current.path {
                Some(p) => file_name(p),
                None => None,
            };
            let index = match &current_name {
                Some(name) => find_line(&model.files.parent.buffer.lines, name),
                None => None,
            };
            if let Some(index) = index {
                proof {
                    let lines = model.files.parent.buffer.lines@;
                    let n = current_name->0@;
                    assert(0 <= index < lines.len() && lines[index as int].content@ == n && forall|
                        j: int,
                    | 0 <= j < index ==> lines[j].content@ != n);
                    let c = first_line_with(lines, n);
                    if c < index {
                        assert(lines[c].content@ != n);
                    }
                    if c > index {
                        assert(lines[index as int].content@ != n);
                    }
                }
                let horizontal_index = match model.files.parent.buffer.cursor {
                    Some(c) => c.horizontal_index,
                    None => CursorPosition::Hidden,
                };
                model.files.parent.buffer.cursor = Some(
                    Cursor { horizontal_index, vertical_index: index },
                );
                move_viewport(&mut model.files.parent.buffer, ViewPortDirection::CenterOnCursor);
            }
        },
        None => {
            model.files.parent.buffer.cursor = None;
            set_content(&mut model.files.parent.buffer, Vec::new());
            if let Some(message) = message {
                update_buffer(model.mode, &mut model.files.parent.buffer, message);
            }
        },
    }
}

} // verus!
