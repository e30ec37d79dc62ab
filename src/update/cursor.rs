use vstd::prelude::*;

use crate::action::Action;
use crate::buffer::{set_cursor_to_line_content, update_buffer, TextBuffer};
use crate::message::{Buffer, CursorDirection, Mode};
use crate::model::{history_lookup, History, Model, WindowType};
use crate::paths::{join, joined_path};

verus! {

/// Moves the cursor onto the line holding `selection`; returns whether there
/// is such a line.
pub fn set_cursor_index_to_selection(mode: &Mode, model: &mut TextBuffer, selection: &String) -> (r:
    bool)
    requires
        old(model).wf(),
    ensures
        final(model).wf(),
        r == exists|j: int|
            0 <= j < old(model).lines@.len() && old(model).lines@[j].content@ == selection@,
        r ==> (final(model).cursor matches Some(c) && final(model).lines@[c.vertical_index as int].content@
            == selection@),
        !r ==> *final(model) == *old(model),
        final(model).lines == old(model).lines,
{
    set_cursor_to_line_content(model, selection)
}

/// Moves the cursor onto the name last selected in directory `path`, if the
/// history holds one and the buffer shows it.
pub fn set_cursor_index_with_history(
    mode: &Mode,
    history: &History,
    buffer: &mut TextBuffer,
    path: &String,
) -> (r: bool)
    requires
        old(buffer).wf(),
        history.wf(),
    ensures
        final(buffer).wf(),
        final(buffer).lines == old(buffer).lines,
        match history_lookup(history.entries@, path@) {
            Some(s) => r == (exists|j: int|
                0 <= j < old(buffer).lines@.len() && old(buffer).lines@[j].content@ == s) && (r ==> (
            final(buffer).cursor matches Some(c) && final(buffer).lines@[c.vertical_index as int].content@
                == s)),
            None => !r,
        },
        !r ==> *final(buffer) == *old(buffer),
{
    match history.get_selection(path) {
        Some(selection) => set_cursor_index_to_selection(mode, buffer, &selection),
        None => false,
    }
}

/// The path under the cursor of the current slot.
pub open spec fn selected_path_of(model: Model) -> Option<Seq<char>> {
    let b = model.files.current.buffer;
    match (model.files.current.path, b.cursor) {
        (Some(dir), Some(c)) => if c.vertical_index < b.lines@.len() {
            Some(joined_path(dir@, b.lines@[c.vertical_index as int].content@))
        } else {
            None
        },
        _ => None,
    }
}

/// The path under the cursor of the current slot.
pub fn get_current_selected_path(model: &Model) -> (r: Option<String>)
    ensures
        match selected_path_of(*model) {
            Some(p) => r matches Some(s) && s@ == p,
            None => r is None,
        },
{
    let b = &model.files.current.buffer;
    match (&model.files.current.path, b.cursor) {
        (Some(dir), Some(c)) => {
            if c.vertical_index < b.lines.len() {
                Some(join(dir, &b.lines[c.vertical_index].content))
            } else {
                None
            }
        },
        _ => None,
    }
}

/// The action loading the preview of the selected path, if there is one.
pub fn preview_selected(model: &Model) -> (r: Vec<Action>)
    requires
        model.history.wf(),
    ensures
        match selected_path_of(*model) {
            Some(p) => r@.len() == 1 && (r@[0] matches Action::Load(w, q, s) && w
                == WindowType::Preview && q@ == p),
            None => r@.len() == 0,
        },
{
    let mut actions: Vec<Action> = Vec::new();
    if let Some(path) = get_current_selected_path(model) {
        let selection = model.history.get_selection(&path);
        actions.push(Action::Load(WindowType::Preview, path, selection));
    }
    actions
}

/// After the current lines changed: the action that loads the selection
/// into the preview slot when the preview shows something else.
pub fn follow_selection(model: &Model) -> (r: Vec<Action>)
    requires
        model.history.wf(),
    ensures
        match selected_path_of(*model) {
            Some(p) => if model.files.preview.path matches Some(q) && q@ == p {
                r@.len() == 0
            } else {
                r@.len() == 1 && (r@[0] matches Action::Load(w, q, _) && w == WindowType::Preview && q@ == p)
            },
            None => r@.len() == 0,
        },
{
    let mut actions: Vec<Action> = Vec::new();
    if let Some(path) = get_current_selected_path(model) {
        let shown = match &model.files.preview.path {
            Some(q) => *q == path,
            None => false,
        };
        if !shown {
            let selection = model.history.get_selection(&path);
            actions.push(Action::Load(WindowType::Preview, path, selection));
        }
    }
    actions
}

/// Moves the cursor of the current slot; the preview follows the new
/// selection.
pub fn move_cursor(model: &mut Model, rpt: &usize, mtn: &CursorDirection) -> (r: Vec<Action>)
    requires
        old(model).wf(),
    ensures
        final(model).wf(),
        final(model).files.current.buffer.lines == old(model).files.current.buffer.lines,
        crate::buffer::same_frame(
            final(model).files.current.buffer.view_port,
            old(model).files.current.buffer.view_port,
        ),
        old(model).files.current.buffer.cursor is Some ==> final(model).files.current.buffer.cursor is Some,
        old(model).files.current.buffer.view_port.height > 0
            ==> final(model).files.current.buffer.cursor_in_view(),
        match selected_path_of(*final(model)) {
            Some(p) => r@.len() == 1 && (r@[0] matches Action::Load(w, q, _) && w
                == WindowType::Preview && q@ == p),
            None => r@.len() == 0,
        },
{
    let msg = Buffer::MoveCursor(*rpt, *mtn);
    update_buffer(model.mode, &mut model.files.current.buffer, &msg);
    preview_selected(model)
}

} // verus!
