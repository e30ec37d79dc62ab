use vstd::prelude::*;

use crate::buffer::set_content;
use crate::event::Message;
use crate::message::{KeymapMessage, QuitMode};
use crate::model::{DirectoryBufferState, Model, WindowType};
use crate::task::{find_key, task_key, Task};

verus! {

/// Side effects that the update step asks for.
pub enum Action {
    EmitMessages(Vec<Message>),
    Load(WindowType, String, Option<String>),
    ModeChanged,
    Open(String),
    Quit(QuitMode, Option<String>),
    Resize(u16, u16),
    Task(Task),
    UnwatchPath(String),
    WatchPath(String),
}

/// An action that hands one keymap message back to the router.
pub fn emit_keymap(message: KeymapMessage) -> (r: Action)
    ensures
        r matches Action::EmitMessages(v) && v@.len() == 1 && v@[0] == Message::Keymap(message),
{
    let mut v: Vec<Message> = Vec::new();
    v.push(Message::Keymap(message));
    Action::EmitMessages(v)
}

/// How a frame goes on after one pass of actions.
#[derive(Clone, Copy, Debug, PartialEq, Eq, Structural)]
pub enum ActionResult {
    Normal,
    SkipRender,
    Quit(QuitMode),
}

/// One pass over the queued actions: how the frame goes on, the actions to
/// perform now, and those left for the other pass.
pub struct ExecResult {
    pub result: ActionResult,
    pub run: Vec<Action>,
    pub remaining_actions: Vec<Action>,
}

/// Actions of the pass before rendering: they only shape this frame.
pub open spec fn preview_action(a: Action) -> bool {
    a is Load || a is Open || a is Resize || a is Task
}

/// Watching or unwatching the empty path does nothing.
pub open spec fn void_action(a: Action) -> bool {
    match a {
        Action::WatchPath(p) => p@.len() == 0,
        Action::UnwatchPath(p) => p@.len() == 0,
        _ => false,
    }
}

pub fn is_preview_action(action: &Action) -> (r: bool)
    ensures
        r == preview_action(*action),
{
    match action {
        Action::Load(_, _, _) | Action::Open(_) | Action::Resize(_, _) | Action::Task(_) => true,
        Action::EmitMessages(_)
        | Action::ModeChanged
        | Action::Quit(_, _)
        | Action::UnwatchPath(_)
        | Action::WatchPath(_) => false,
    }
}

fn is_void_action(action: &Action) -> (r: bool)
    ensures
        r == void_action(*action),
{
    match action {
        Action::WatchPath(p) => p.as_str().unicode_len() == 0,
        Action::UnwatchPath(p) => p.as_str().unicode_len() == 0,
        _ => false,
    }
}

/// Whether any action emits messages.
pub fn contains_emit(actions: &Vec<Action>) -> (r: bool)
    ensures
        r == exists|i: int| 0 <= i < actions@.len() && actions@[i] is EmitMessages,
{
    let n = actions.len();
    let mut i: usize = 0;
    while i < n
        invariant
            n == actions@.len(),
            i <= n,
            forall|j: int| 0 <= j < i ==> !(actions@[j] is EmitMessages),
        decreases n - i,
    {
        if let Action::EmitMessages(_) = &actions[i] {
            return true;
        }
        i = i + 1;
    }
    false
}

/// The mode of the first quit action, if any.
pub open spec fn first_quit(s: Seq<Action>) -> Option<QuitMode>
    decreases s.len(),
{
    if s.len() == 0 {
        None
    } else {
        match s[0] {
            Action::Quit(m, _) => Some(m),
            _ => first_quit(s.skip(1)),
        }
    }
}

/// The mode of the first quit action, if any.
pub fn contains_quit(actions: &Vec<Action>) -> (r: Option<QuitMode>)
    ensures
        r == first_quit(actions@),
{
    let n = actions.len();
    let mut i: usize = 0;
    assert(actions@.skip(0) =~= actions@);
    while i < n
        invariant
            n == actions@.len(),
            i <= n,
            first_quit(actions@) == first_quit(actions@.skip(i as int)),
        decreases n - i,
    {
        assert(actions@.skip(i as int)[0] == actions@[i as int]);
        if let Action::Quit(mode, _) = &actions[i] {
            return Some(*mode);
        }
        assert(actions@.skip(i as int).skip(1) =~= actions@.skip(i + 1));
        i = i + 1;
    }
    None
}

/// The outcome of a pass: before rendering, an emitting action skips the
/// render; after rendering, a quit action ends the session with its mode.
pub open spec fn pass_result(is_preview: bool, actions: Seq<Action>) -> ActionResult {
    if is_preview && exists|i: int| 0 <= i < actions.len() && actions[i] is EmitMessages {
        ActionResult::SkipRender
    } else if !is_preview && first_quit(actions) is Some {
        ActionResult::Quit(first_quit(actions)->0)
    } else {
        ActionResult::Normal
    }
}

/// Number of actions up to and including the first quit action; all of
/// them when there is none.
pub open spec fn quit_end(s: Seq<Action>) -> int
    decreases s.len(),
{
    if s.len() == 0 {
        0
    } else if s[0] is Quit {
        1
    } else {
        1 + quit_end(s.skip(1))
    }
}

/// How many of the queued actions a pass looks at: after rendering, a quit
/// action ends the pass; before rendering, all of them.
pub open spec fn pass_end(is_preview: bool, s: Seq<Action>) -> int {
    if is_preview {
        s.len() as int
    } else {
        quit_end(s)
    }
}

proof fn lemma_quit_end(s: Seq<Action>, j: int)
    requires
        0 <= j <= s.len(),
        forall|i: int| 0 <= i < j ==> !(#[trigger] s[i] is Quit),
        j < s.len() ==> s[j] is Quit,
    ensures
        quit_end(s) == if j < s.len() {
            j + 1
        } else {
            j
        },
    decreases s.len(),
{
    if s.len() > 0 && j > 0 {
        assert(!(s[0] is Quit));
        assert forall|i: int| 0 <= i < j - 1 implies !(#[trigger] s.skip(1)[i] is Quit) by {
            assert(s.skip(1)[i] == s[i + 1]);
        }
        if j < s.len() {
            assert(s.skip(1)[j - 1] == s[j]);
        }
        lemma_quit_end(s.skip(1), j - 1);
    }
}

/// Splits the queued actions for one pass: those of this pass, in order, are
/// to be performed (watching the empty path is dropped), the others remain,
/// in order, for the other pass. After rendering, the first quit action ends
/// the pass: it is performed, nothing after it is.
pub fn execute(is_preview: bool, actions: Vec<Action>) -> (r: ExecResult)
    ensures
        r.result == pass_result(is_preview, actions@),
        r.run@ == actions@.take(pass_end(is_preview, actions@)).filter(
            |a: Action| preview_action(a) == is_preview && !void_action(a),
        ),
        r.remaining_actions@ == actions@.filter(|a: Action| preview_action(a) != is_preview),
{
    let quit_mode = if is_preview {
        None
    } else {
        contains_quit(&actions)
    };
    let result = if is_preview && contains_emit(&actions) {
        ActionResult::SkipRender
    } else if let Some(mode) = quit_mode {
        ActionResult::Quit(mode)
    } else {
        ActionResult::Normal
    };
    let ghost all = actions@;
    let mut run: Vec<Action> = Vec::new();
    let mut remaining: Vec<Action> = Vec::new();
    let mut rest = actions;
    let mut taken: Vec<Action> = Vec::new();
    // Reverse once, so that popping yields the actions in their order.
    while rest.len() > 0
        invariant
            all == rest@ + taken@.reverse(),
        decreases rest@.len(),
    {
        let ghost r0 = rest@;
        let a = rest.pop().unwrap();
        let ghost t = taken@;
        taken.push(a);
        proof {
            assert(taken@.reverse() =~= seq![a] + t.reverse());
            assert(r0 =~= rest@.push(a));
            assert(all =~= rest@ + taken@.reverse());
        }
    }
    proof {
        assert(rest@ =~= Seq::<Action>::empty());
        assert(all =~= taken@.reverse());
        assert(all.skip(0) =~= all);
        assert(all.take(0).filter(|a: Action| preview_action(a) == is_preview && !void_action(a))
            =~= Seq::<Action>::empty());
        assert(all.take(0).filter(|a: Action| preview_action(a) != is_preview) =~= Seq::<
            Action,
        >::empty());
    }
    let n = taken.len();
    let mut k: usize = 0;
    let mut stopped = false;
    while taken.len() > 0
        invariant
            n == all.len(),
            k + taken@.len() == n,
            taken@.reverse() == all.skip(k as int),
            stopped ==> !is_preview,
            stopped == exists|j: int| 0 <= j < k && !is_preview && #[trigger] all[j] is Quit,
            stopped ==> 0 <= quit_end(all) <= k,
            run@ == all.take(
                if stopped {
                    quit_end(all)
                } else {
                    k as int
                },
            ).filter(|a: Action| preview_action(a) == is_preview && !void_action(a)),
            remaining@ == all.take(k as int).filter(|a: Action| preview_action(a) != is_preview),
        decreases taken@.len(),
    {
        let ghost t0 = taken@;
        let a = taken.pop().unwrap();
        let ghost g = a;
        proof {
            assert(t0.reverse()[0] == t0.last());
            assert(all.skip(k as int)[0] == all[k as int]);
            assert(g == all[k as int]);
            assert(taken@.reverse() =~= t0.reverse().skip(1));
            assert(all.skip(k as int).skip(1) =~= all.skip(k + 1));
            assert(all.take(k + 1) =~= all.take(k as int).push(g));
            reveal(Seq::filter);
            assert(all.take(k + 1).drop_last() =~= all.take(k as int));
        }
        let this_pass = is_preview_action(&a) == is_preview;
        let is_quit = match &a {
            Action::Quit(_, _) => true,
            _ => false,
        };
        proof {
            if !stopped && !is_preview && is_quit {
                assert forall|i: int| 0 <= i < k implies !(#[trigger] all[i] is Quit) by {}
                lemma_quit_end(all, k as int);
            }
        }
        if !this_pass {
            remaining.push(a);
        } else if !stopped && !is_void_action(&a) {
            run.push(a);
        }
        if !is_preview && is_quit {
            proof {
                assert(all[k as int] is Quit);
            }
            stopped = true;
        }
        k = k + 1;
    }
    proof {
        assert(all.take(n as int) =~= all);
        if !is_preview && !stopped {
            assert forall|i: int| 0 <= i < n implies !(#[trigger] all[i] is Quit) by {}
            lemma_quit_end(all, n as int);
        }
    }
    ExecResult { result, run, remaining_actions: remaining }
}

/// Prepares slot `window` for loading `path` and returns the task that loads
/// it: a listing for the current slot and for directories, a preview for
/// anything else. `is_dir` tells whether `path` is a directory.
pub fn prepare_load(
    model: &mut Model,
    window: WindowType,
    path: String,
    selection: Option<String>,
    is_dir: bool,
) -> (r: Task)
    requires
        old(model).wf(),
    ensures
        final(model).wf(),
        window == WindowType::Current || is_dir ==> (r matches Task::EnumerateDirectory(p, s) && p
            == path && s == selection),
        window != WindowType::Current && !is_dir ==> (r matches Task::LoadPreview(p) && p == path),
        window == WindowType::Current ==> final(model).files.current.path == Some(path)
            && final(model).files.current.state == DirectoryBufferState::Loading
            && final(model).files.current.buffer.lines@.len() == 0
            && final(model).files.current.buffer.cursor is None
            && final(model).files.parent == old(model).files.parent
            && final(model).files.preview == old(model).files.preview,
        window == WindowType::Parent ==> final(model).files.parent.path == Some(path)
            && final(model).files.parent.state == DirectoryBufferState::Loading
            && final(model).files.parent.buffer.lines@.len() == 0
            && final(model).files.parent.buffer.cursor is None
            && final(model).files.current == old(model).files.current
            && final(model).files.preview == old(model).files.preview,
        window == WindowType::Preview ==> final(model).files.preview.path == Some(path)
            && final(model).files.preview.state == DirectoryBufferState::Loading
            && final(model).files.preview.buffer.lines@.len() == 0
            && final(model).files.preview.buffer.cursor is None
            && final(model).files.current == old(model).files.current
            && final(model).files.parent == old(model).files.parent,
{
    let slot = match window {
        WindowType::Current => &mut model.files.current,
        WindowType::Parent => &mut model.files.parent,
        WindowType::Preview => &mut model.files.preview,
    };
    slot.state = DirectoryBufferState::Loading;
    slot.path = Some(path.clone());
    slot.buffer.cursor = None;
    set_content(&mut slot.buffer, Vec::new());
    if window == WindowType::Current || is_dir {
        Task::EnumerateDirectory(path, selection)
    } else {
        Task::LoadPreview(path)
    }
}

/// Stops watching `path`: the listing of it that may still run is cancelled.
pub fn unwatch_enumeration(model: &mut Model, path: &String) -> (r: bool)
    requires
        old(model).wf(),
    ensures
        final(model).wf(),
        r == (find_key(
            old(model).current_tasks.view(),
            task_key(Task::EnumerateDirectory(*path, None)),
        ) >= 0),
{
    let key = Task::EnumerateDirectory(path.clone(), None).key();
    model.current_tasks.cancel(&key)
}

/// The pass before rendering.
pub fn preview(actions: Vec<Action>) -> (r: ExecResult)
    ensures
        r.result == pass_result(true, actions@),
        r.run@ == actions@.take(pass_end(true, actions@)).filter(
            |a: Action| preview_action(a) == true && !void_action(a),
        ),
        r.remaining_actions@ == actions@.filter(|a: Action| preview_action(a) != true),
{
    execute(true, actions)
}

/// The pass after rendering.
pub fn postview(actions: Vec<Action>) -> (r: ExecResult)
    ensures
        r.result == pass_result(false, actions@),
        r.run@ == actions@.take(pass_end(false, actions@)).filter(
            |a: Action| preview_action(a) == false && !void_action(a),
        ),
        r.remaining_actions@ == actions@.filter(|a: Action| preview_action(a) != false),
{
    execute(false, actions)
}

} // verus!
