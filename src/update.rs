//! The update step: messages applied to the model, producing actions.

pub mod path;
pub mod cursor;
pub mod search;
pub mod navigation;
pub mod parent;
pub mod preview;
pub mod open;
pub mod qfix;
pub mod save;

use vstd::prelude::*;

use crate::action::Action;
use crate::buffer::{modify_post, set_content, update_buffer, BufferLine, TextBuffer};
use crate::event::{Message, Preview};
use crate::message::{Buffer, KeymapMessage, Mode, TextModification};
use crate::model::{DirectoryBufferState, Model, WindowType};
use crate::update::cursor::selected_path_of;
use crate::junkyard::ids_of;
use crate::update::path::added_to;
use crate::update::save::{described, line_steps, persist_path_changes, trash_run};
use crate::enumerate::strings;
use crate::operation::PathKind;
use crate::task::{reg_end, reg_start, RunningTask};
use crate::update::cursor::{
    follow_selection, get_current_selected_path, move_cursor, preview_selected,
    set_cursor_index_to_selection,
};
use crate::update::navigation::{
    navigate_to_mark, navigate_to_parent, navigate_to_path, navigate_to_preview_path,
    navigate_to_selected,
};
use crate::paths::{file_name_of, parent_of};
use crate::buffer::revalidated;
use crate::update::path::{first_line_with, has_line, shows, slot_is};

verus! {

/// The path whose kind on disk the update of `message` needs: the target of
/// a move to a path, or the selection when entering it.
pub fn probe_path(model: &Model, message: &Message) -> (r: Option<String>)
    ensures
        match message {
            Message::Keymap(KeymapMessage::NavigateToPath(p)) => r == Some(*p),
            Message::Keymap(KeymapMessage::NavigateToSelected) => match crate::update::cursor::selected_path_of(*model) {
                Some(s) => r matches Some(x) && x@ == s,
                None => r is None,
            },
            _ => r is None,
        },
{
    match message {
        Message::Keymap(KeymapMessage::NavigateToPath(p)) => Some(p.clone()),
        Message::Keymap(KeymapMessage::NavigateToSelected) => get_current_selected_path(model),
        _ => None,
    }
}

fn into_lines(texts: Vec<String>) -> (r: Vec<BufferLine>)
    ensures
        r@.len() == texts@.len(),
        forall|i: int| 0 <= i < texts@.len() ==> (#[trigger] r@[i]).content == texts@[i],
{
    let mut texts = texts;
    let n = texts.len();
    let mut out: Vec<BufferLine> = Vec::new();
    let mut i: usize = 0;
    let ghost all = texts@;
    while i < n
        invariant
            n == all.len(),
            texts@.len() == n,
            forall|j: int| i <= j < n ==> texts@[j] == all[j],
            i <= n,
            out@.len() == i,
            forall|j: int| 0 <= j < i ==> (#[trigger] out@[j]).content == all[j],
        decreases n - i,
    {
        let mut t = String::new();
        std::mem::swap(&mut t, &mut texts[i]);
        out.push(BufferLine::from_content(t));
        i = i + 1;
    }
    out
}

/// A listing of `path` is complete: its slot is ready; in the current slot the
/// cursor goes to the first line, or onto `selection`, and the preview follows.
pub fn enumeration_finished(model: &mut Model, path: &String, selection: &Option<String>) -> (r: Vec<Action>)
    requires
        old(model).wf(),
    ensures
        final(model).wf(),
        final(model).files.current.buffer.lines == old(model).files.current.buffer.lines,
        shows(old(model).files.current.path, Some(path@)) ==> final(model).files.current.state
            == DirectoryBufferState::Ready && (old(model).files.current.buffer.lines@.len() > 0
            <==> final(model).files.current.buffer.cursor is Some),
        shows(old(model).files.current.path, Some(path@)) ==> match *selection {
            Some(s) => (exists|j: int|
                0 <= j < old(model).files.current.buffer.lines@.len()
                    && old(model).files.current.buffer.lines@[j].content@ == s@) ==> (
            final(model).files.current.buffer.cursor matches Some(c)
                && final(model).files.current.buffer.lines@[c.vertical_index as int].content@ == s@),
            None => true,
        },
        shows(old(model).files.current.path, Some(path@)) ==> match selected_path_of(*final(model)) {
            Some(p) => r@.len() == 1 && (r@[0] matches Action::Load(w, q, _) && w == WindowType::Preview
                && q@ == p),
            None => r@.len() == 0,
        },
        !shows(old(model).files.current.path, Some(path@)) ==> r@.len() == 0,
{
    let mut actions: Vec<Action> = Vec::new();
    if slot_is(&model.files.current.path, path) {
        model.files.current.state = DirectoryBufferState::Ready;
        if model.files.current.buffer.cursor.is_none() && model.files.current.buffer.lines.len() > 0 {
            model.files.current.buffer.cursor = Some(
                crate::buffer::Cursor {
                    horizontal_index: crate::buffer::CursorPosition::Hidden,
                    vertical_index: 0,
                },
            );
            crate::buffer::scroll_to_cursor(&mut model.files.current.buffer);
        }
        if let Some(s) = selection {
            set_cursor_index_to_selection(&model.mode, &mut model.files.current.buffer, s);
        }
        actions = preview_selected(model);
    }
    if slot_is(&model.files.parent.path, path) {
        model.files.parent.state = DirectoryBufferState::Ready;
        crate::update::parent::update(model, None);
    }
    if slot_is(&model.files.preview.path, path) {
        model.files.preview.state = DirectoryBufferState::Ready;
        crate::update::preview::update(model, None);
    }
    actions
}

/// Shows loaded preview content, if it is still the previewed path.
pub fn preview_loaded(model: &mut Model, preview: Preview)
    requires
        old(model).wf(),
    ensures
        final(model).wf(),
        final(model).files.current == old(model).files.current,
        match preview {
            Preview::Content(p, ls) => if shows(old(model).files.preview.path, Some(p@)) {
                &&& final(model).files.preview.buffer.lines@.len() == ls@.len()
                &&& forall|i: int| 0 <= i < ls@.len() ==> (#[trigger] final(model).files.preview.buffer.lines@[i]).content == ls@[i]
                &&& final(model).files.preview.buffer.cursor is None
                &&& final(model).files.preview.state == DirectoryBufferState::Ready
            } else {
                final(model).files.preview == old(model).files.preview
            },
            Preview::Empty(p) => shows(old(model).files.preview.path, Some(p@))
                ==> final(model).files.preview.buffer.lines@.len() == 0,
        },
{
    match preview {
        Preview::Content(path, lines) => {
            if slot_is(&model.files.preview.path, &path) {
                model.files.preview.buffer.cursor = None;
                set_content(&mut model.files.preview.buffer, into_lines(lines));
                model.files.preview.state = DirectoryBufferState::Ready;
            }
        },
        Preview::Empty(path) => {
            if slot_is(&model.files.preview.path, &path) {
                model.files.preview.buffer.cursor = None;
                set_content(&mut model.files.preview.buffer, Vec::new());
                model.files.preview.state = DirectoryBufferState::Ready;
            }
        },
    }
}

/// Marks archives that appeared among `paths` as ready in the register.
fn archives_ready(model: &mut Model, paths: &Vec<String>)
    requires
        old(model).wf(),
    ensures
        final(model).wf(),
        final(model).files == old(model).files,
        final(model).mode == old(model).mode,
{
    let n = paths.len();
    let mut i: usize = 0;
    while i < n
        invariant
            n == paths@.len(),
            i <= n,
            model.wf(),
            model.files == old(model).files,
            model.mode == old(model).mode,
        decreases n - i,
    {
        model.junk.set_ready(&paths[i]);
        i = i + 1;
    }
}

/// The actions re-point the preview at the selection, if it shows
/// something else.
pub open spec fn follows(m: Model, r: Seq<Action>) -> bool {
    match selected_path_of(m) {
        Some(p) => if m.files.preview.path matches Some(q) && q@ == p {
            r.len() == 0
        } else {
            r.len() == 1 && (r[0] matches Action::Load(w, q, _) && w == WindowType::Preview && q@ == p)
        },
        None => r.len() == 0,
    }
}

/// What the update step needs from outside the model: what lies on disk at
/// the path that `probe_path` names, the names in the current directory when
/// `needs_listing` asks for them, the time in milliseconds, and the
/// directory that holds the trash register's archives.
pub struct Outside {
    pub probed: PathKind,
    pub on_disk: Vec<String>,
    pub millis: u64,
    pub junk_dir: String,
}

impl Outside {
    /// Only the kind of the probed path; no listing.
    pub fn probed(kind: PathKind) -> (r: Outside)
        ensures
            r.probed == kind,
            r.on_disk@.len() == 0,
    {
        Outside { probed: kind, on_disk: Vec::new(), millis: 0, junk_dir: String::new() }
    }
}

/// Whether the update of `message` reads the names in the current directory:
/// saving does.
pub fn needs_listing(message: &Message) -> (r: bool)
    ensures
        r == (message matches Message::Keymap(KeymapMessage::Buffer(Buffer::SaveBuffer(_)))),
{
    match message {
        Message::Keymap(KeymapMessage::Buffer(Buffer::SaveBuffer(_))) => true,
        _ => false,
    }
}

/// The save step's result: the tasks for the edited lines and the trashed
/// entries, and the register after them.
pub open spec fn saved_as(f: Model, o: Model, outside: Outside, r: Seq<Action>) -> bool {
    match o.files.current.path {
        Some(dir) => {
            let lines = o.files.current.buffer.lines@;
            let run = trash_run(ids_of(o.junk.entries@), dir@, lines, strings(outside.on_disk@), outside.millis as nat);
            described(r, line_steps(dir@, lines) + run.1) && ids_of(f.junk.entries@) == run.0
        },
        None => r.len() == 0 && f == o,
    }
}

/// Applies one message to the model and returns the actions it calls for,
/// reading from `outside` what lies beyond the model.
pub fn update(model: &mut Model, message: Message, outside: &Outside) -> (r: Vec<Action>)
    requires
        old(model).wf(),
    ensures
        final(model).wf(),
        match message {
            Message::TaskStarted(k, id, _) => final(model).current_tasks.view() == reg_start(
                old(model).current_tasks.view(),
                k@,
                id,
            ).0,
            Message::TaskEnded(k, id) => final(model).current_tasks.view() == reg_end(
                old(model).current_tasks.view(),
                k@,
                id,
            ),
            Message::Resize(x, y) => r@.len() == 1 && (r@[0] matches Action::Resize(a, b) && a == x && b == y),
            Message::Rerender => r@.len() == 0 && *final(model) == *old(model),
            Message::PathRemoved(p) => {
                let cur = old(model).files.current.buffer;
                &&& follows(*final(model), r@)
                &&& match (parent_of(p@), file_name_of(p@)) {
                    (Some(d), Some(n)) => shows(old(model).files.current.path, Some(d)) && has_line(
                        cur.lines@,
                        n,
                    ) ==> revalidated(
                        final(model).files.current.buffer,
                        cur,
                        cur.lines@.remove(first_line_with(cur.lines@, n)),
                    ),
                    _ => final(model).files.current.buffer == cur,
                }
            },
            Message::EnumerationFinished(p, sel) => {
                &&& shows(old(model).files.current.path, Some(p@)) ==> final(model).files.current.state
                    == DirectoryBufferState::Ready && (old(model).files.current.buffer.lines@.len() > 0
                    <==> final(model).files.current.buffer.cursor is Some)
                &&& shows(old(model).files.current.path, Some(p@)) ==> match sel {
                    Some(s) => (exists|j: int|
                        0 <= j < old(model).files.current.buffer.lines@.len()
                            && old(model).files.current.buffer.lines@[j].content@ == s@) ==> (
                    final(model).files.current.buffer.cursor matches Some(c)
                        && final(model).files.current.buffer.lines@[c.vertical_index as int].content@ == s@),
                    None => true,
                }
                &&& shows(old(model).files.current.path, Some(p@)) ==> match selected_path_of(*final(model)) {
                    Some(q) => r@.len() == 1 && (r@[0] matches Action::Load(w, x, _) && w == WindowType::Preview
                        && x@ == q),
                    None => r@.len() == 0,
                }
                &&& !shows(old(model).files.current.path, Some(p@)) ==> r@.len() == 0
            },
            Message::Keymap(KeymapMessage::Buffer(Buffer::MoveCursor(_, _))) => final(model).files.current.buffer.view_port.height > 0 ==> final(model).files.current.buffer.cursor_in_view(),
            Message::Keymap(KeymapMessage::Buffer(Buffer::SaveBuffer(_))) => saved_as(*final(model), *old(model), *outside, r@),
            Message::PathsAdded(ps) => {
                &&& added_to(final(model).files.current.buffer, old(model).files.current.buffer, old(model).files.current.path, ps@, old(model).mode == crate::message::Mode::Navigation)
                &&& added_to(final(model).files.parent.buffer, old(model).files.parent.buffer, old(model).files.parent.path, ps@, true)
                &&& added_to(final(model).files.preview.buffer, old(model).files.preview.buffer, old(model).files.preview.path, ps@, true)
                &&& follows(*final(model), r@)
            },
            Message::PreviewLoaded(Preview::Content(p, ls)) => shows(old(model).files.preview.path, Some(p@)) ==> {
                &&& final(model).files.preview.buffer.lines@.len() == ls@.len()
                &&& forall|i: int| 0 <= i < ls@.len() ==> (#[trigger] final(model).files.preview.buffer.lines@[i]).content == ls@[i]
                &&& final(model).files.preview.state == DirectoryBufferState::Ready
            },
            _ => true,
        },
{
    match message {
        Message::Keymap(keymap) => update_keymap(model, keymap, outside),
        Message::EnumerationFinished(path, selection) => enumeration_finished(model, &path, &selection),
        Message::Error(_) => Vec::new(),
        Message::PathRemoved(path) => {
            crate::update::path::remove(model, &path);
            follow_selection(model)
        },
        Message::PathsAdded(paths) => {
            archives_ready(model, &paths);
            crate::update::path::add(model, &paths);
            follow_selection(model)
        },
        Message::PreviewLoaded(preview) => {
            preview_loaded(model, preview);
            Vec::new()
        },
        Message::Rerender => Vec::new(),
        Message::Resize(x, y) => {
            let mut actions: Vec<Action> = Vec::new();
            actions.push(Action::Resize(x, y));
            actions
        },
        Message::TaskStarted(key, id, token) => {
            model.current_tasks.started(RunningTask { key, id, token });
            Vec::new()
        },
        Message::TaskEnded(key, id) => {
            model.current_tasks.ended(&key, id);
            Vec::new()
        },
    }
}

/// Applies a message of the keymap resolver.
pub fn update_keymap(model: &mut Model, message: KeymapMessage, outside: &Outside) -> (r: Vec<Action>)
    requires
        old(model).wf(),
    ensures
        final(model).wf(),
        match message {
            KeymapMessage::KeySequenceChanged(s) => final(model).key_sequence == s && r@.len() == 0,
            KeymapMessage::Buffer(Buffer::ChangeMode(_, to)) => final(model).mode == to && r@.len() == 1
                && r@[0] is ModeChanged,
            KeymapMessage::Quit(m) => r@.len() == 1 && (r@[0] matches Action::Quit(q, o) && q == m && o is None),
            KeymapMessage::Buffer(Buffer::MoveCursor(_, _)) => final(model).files.current.buffer.view_port.height > 0
                ==> final(model).files.current.buffer.cursor_in_view(),
            KeymapMessage::Buffer(Buffer::SaveBuffer(_)) => saved_as(*final(model), *old(model), *outside, r@),
            KeymapMessage::Buffer(Buffer::Modification(m)) => modify_post(old(model).mode, old(model).files.current.buffer, final(model).files.current.buffer, m),
            KeymapMessage::Buffer(Buffer::MoveViewPort(_)) => crate::buffer::same_frame(final(model).files.current.buffer.view_port, old(model).files.current.buffer.view_port)
                && (old(model).files.current.buffer.view_port.height > 0 ==> final(model).files.current.buffer.cursor_in_view()),
            KeymapMessage::NavigateToPath(p) => outside.probed == PathKind::Directory ==> final(model).files.current.path == Some(p),
            KeymapMessage::OpenSelected | KeymapMessage::Print(_) | KeymapMessage::ExecuteCommandString(_) => final(model).files == old(model).files,
            _ => true,
        },
{
    match message {
        KeymapMessage::Buffer(msg) => match msg {
            Buffer::MoveCursor(count, direction) => move_cursor(model, &count, &direction),
            Buffer::ChangeMode(_, to) => {
                model.mode = to;
                let mut actions: Vec<Action> = Vec::new();
                actions.push(Action::ModeChanged);
                actions
            },
            Buffer::SaveBuffer(_) => persist_path_changes(model, &outside.on_disk, outside.millis, &outside.junk_dir),
            Buffer::Modification(m) => {
                crate::buffer::modify(model.mode, &mut model.files.current.buffer, &m);
                Vec::new()
            },
            _ => {
                update_buffer(model.mode, &mut model.files.current.buffer, &msg);
                Vec::new()
            },
        },
        KeymapMessage::ExecuteCommandString(_) => Vec::new(),
        KeymapMessage::KeySequenceChanged(s) => {
            model.key_sequence = s;
            Vec::new()
        },
        KeymapMessage::NavigateToMark(c) => navigate_to_mark(&c, model),
        KeymapMessage::NavigateToParent => navigate_to_parent(model),
        KeymapMessage::NavigateToPath(p) => navigate_to_path(model, &p, outside.probed),
        KeymapMessage::NavigateToPathAsPreview(p) => navigate_to_preview_path(model, &p),
        KeymapMessage::NavigateToSelected => navigate_to_selected(model, outside.probed),
        KeymapMessage::OpenSelected => crate::update::open::open_selected(model),
        KeymapMessage::Print(_) => Vec::new(),
        KeymapMessage::Quit(mode) => {
            let mut actions: Vec<Action> = Vec::new();
            actions.push(Action::Quit(mode, None));
            actions
        },
    }
}

/// `bs` runs from one buffer to the next by the edit `m`, step by step.
pub open spec fn edit_chain(mode: Mode, bs: Seq<TextBuffer>, m: TextModification) -> bool {
    forall|k: int| 0 <= k < bs.len() - 1 ==> #[trigger] modify_post(mode, bs[k], bs[k + 1], m)
}

/// Applies a text edit `repeat` times to the current slot, each time as
/// `buffer::modify` does; the preview no longer matches the edited lines
/// and is cleared.
pub fn modify_buffer(model: &mut Model, repeat: &usize, modification: &TextModification) -> (r: Vec<Action>)
    requires
        old(model).wf(),
    ensures
        final(model).wf(),
        r@.len() == 0,
        final(model).files.preview.path is None,
        final(model).files.preview.buffer.lines@.len() == 0,
        final(model).files.current.path == old(model).files.current.path,
        exists|bs: Seq<TextBuffer>|
            bs.len() == *repeat + 1 && bs[0] == old(model).files.current.buffer && bs.last()
                == final(model).files.current.buffer && #[trigger] edit_chain(old(model).mode, bs, *modification),
{
    let ghost mut bs: Seq<TextBuffer> = seq![model.files.current.buffer];
    let mut i: usize = 0;
    while i < *repeat
        invariant
            model.wf(),
            model.mode == old(model).mode,
            model.files.current.path == old(model).files.current.path,
            i <= *repeat,
            bs.len() == i + 1,
            bs[0] == old(model).files.current.buffer,
            bs.last() == model.files.current.buffer,
            edit_chain(model.mode, bs, *modification),
        decreases *repeat - i,
    {
        let ghost before = bs;
        crate::buffer::modify(model.mode, &mut model.files.current.buffer, modification);
        proof {
            bs = before.push(model.files.current.buffer);
            assert forall|k: int| 0 <= k < bs.len() - 1 implies #[trigger] modify_post(
                model.mode,
                bs[k],
                bs[k + 1],
                *modification,
            ) by {
                if k < before.len() - 1 {
                    assert(bs[k] == before[k] && bs[k + 1] == before[k + 1]);
                }
            }
        }
        i = i + 1;
    }
    model.files.preview.path = None;
    set_content(&mut model.files.preview.buffer, Vec::new());
    Vec::new()
}

} // verus!
