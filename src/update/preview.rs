use vstd::prelude::*;

use crate::buffer::update_buffer;
use crate::message::Buffer;
use crate::model::{history_lookup, Model};
use crate::update::cursor::set_cursor_index_with_history;

verus! {

/// Refreshes the preview slot: applies `message`, or scrolls back to the top
/// without one; then puts the cursor on the name the history recorded for the
/// previewed directory, or removes it.
pub fn update(model: &mut Model, message: Option<&Buffer>)
    requires
        old(model).wf(),
    ensures
        final(model).wf(),
        final(model).files.preview.path == old(model).files.preview.path,
        final(model).files.current == old(model).files.current,
        final(model).files.parent == old(model).files.parent,
        final(model).history == old(model).history,
        final(model).mode == old(model).mode,
        message is None ==> final(model).files.preview.buffer.lines == old(model).files.preview.buffer.lines,
        ({
            let lines = final(model).files.preview.buffer.lines@;
            let recorded = match final(model).files.preview.path {
                Some(p) => history_lookup(final(model).history.entries@, p@),
                None => None,
            };
            match recorded {
                Some(s) => if exists|j: int| 0 <= j < lines.len() && lines[j].content@ == s {
                    final(model).files.preview.buffer.cursor matches Some(c) && lines[c.vertical_index as int].content@
                        == s
                } else {
                    final(model).files.preview.buffer.cursor is None
                },
                None => final(model).files.preview.buffer.cursor is None,
            }
        }),
{
    match message {
        Some(message) => {
            update_buffer(model.mode, &mut model.files.preview.buffer, message);
        },
        None => {
            model.files.preview.buffer.view_port.vertical_index = 0;
        },
    }
    let found = match &model.files.preview.path {
        Some(p) => set_cursor_index_with_history(
            &model.mode,
            &model.history,
            &mut model.files.preview.buffer,
            p,
        ),
        None => false,
    };
    if !found {
        model.files.preview.buffer.cursor = None;
    }
}

} // verus!
