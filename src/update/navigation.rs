use vstd::prelude::*;

use crate::action::Action;
use crate::buffer::{focus_first, set_content, BufferLine, TextBuffer};
use crate::model::{history_lookup, DirectoryBufferState, Model, WindowType};
use crate::operation::PathKind;
use crate::paths::{file_name, file_name_of, lemma_parent_shorter, parent, parent_of};
use crate::register::text_of;
use crate::update::cursor::{
    get_current_selected_path, set_cursor_index_to_selection, set_cursor_index_with_history,
};
use crate::update::path::shows;
use crate::update::{parent as parent_slot, preview as preview_slot};

verus! {

/// Lines of the slot showing `key`, of current, preview and parent in turn.
pub open spec fn resident_lines(m: Model, key: Seq<char>) -> Option<Seq<BufferLine>> {
    if shows(m.files.current.path, Some(key)) {
        Some(m.files.current.buffer.lines@)
    } else if shows(m.files.preview.path, Some(key)) {
        Some(m.files.preview.buffer.lines@)
    } else if shows(m.files.parent.path, Some(key)) {
        Some(m.files.parent.buffer.lines@)
    } else {
        None
    }
}

/// Lines taken out of the slots, with the path each showed.
pub open spec fn res_view(res: Seq<(String, Vec<BufferLine>)>) -> Seq<(Seq<char>, Seq<BufferLine>)> {
    res.map_values(|e: (String, Vec<BufferLine>)| (e.0@, e.1@))
}

/// The first lines kept under `key`.
pub open spec fn res_lookup(res: Seq<(Seq<char>, Seq<BufferLine>)>, key: Seq<char>) -> Option<
    Seq<BufferLine>,
>
    decreases res.len(),
{
    if res.len() == 0 {
        None
    } else if res[0].0 == key {
        Some(res[0].1)
    } else {
        res_lookup(res.skip(1), key)
    }
}

proof fn lemma_lookup_push(
    s: Seq<(Seq<char>, Seq<BufferLine>)>,
    x: (Seq<char>, Seq<BufferLine>),
    key: Seq<char>,
)
    ensures
        res_lookup(s.push(x), key) == match res_lookup(s, key) {
            Some(l) => Some(l),
            None => if x.0 == key {
                Some(x.1)
            } else {
                None
            },
        },
    decreases s.len(),
{
    let t = s.push(x);
    if s.len() > 0 {
        assert(t[0] == s[0]);
        assert(t.skip(1) =~= s.skip(1).push(x));
        lemma_lookup_push(s.skip(1), x, key);
        if s[0].0 == key {
            assert(res_lookup(t, key) == Some(s[0].1));
        } else {
            assert(res_lookup(t, key) == res_lookup(t.skip(1), key));
        }
    } else {
        assert(t[0] == x);
        assert(t.skip(1) =~= Seq::<(Seq<char>, Seq<BufferLine>)>::empty());
        assert(res_lookup(t.skip(1), key) is None);
    }
}

proof fn lemma_lookup_remove(s: Seq<(Seq<char>, Seq<BufferLine>)>, i: int, key: Seq<char>)
    requires
        0 <= i < s.len(),
        s[i].0 != key,
    ensures
        res_lookup(s.remove(i), key) == res_lookup(s, key),
    decreases i,
{
    if i == 0 {
        assert(s.remove(0) =~= s.skip(1));
    } else {
        assert(s.remove(i)[0] == s[0]);
        assert(s.remove(i).skip(1) =~= s.skip(1).remove(i - 1));
        lemma_lookup_remove(s.skip(1), i - 1, key);
    }
}

fn take_resident(res: &mut Vec<(String, Vec<BufferLine>)>, key: &String) -> (r: Option<
    Vec<BufferLine>,
>)
    ensures
        match res_lookup(res_view(old(res)@), key@) {
            Some(l) => r matches Some(v) && v@ == l,
            None => r is None,
        },
        forall|k: Seq<char>|
            k != key@ ==> #[trigger] res_lookup(res_view(final(res)@), k) == res_lookup(
                res_view(old(res)@),
                k,
            ),
{
    let n = res.len();
    let mut i: usize = 0;
    proof {
        assert(res_view(res@).skip(0) =~= res_view(res@));
    }
    while i < n
        invariant
            n == res@.len(),
            res@ == old(res)@,
            i <= n,
            res_lookup(res_view(res@), key@) == res_lookup(res_view(res@).skip(i as int), key@),
        decreases n - i,
    {
        let ghost v = res_view(res@);
        assert(v.skip(i as int)[0] == v[i as int]);
        if res[i].0 == *key {
            let (_, lines) = res.remove(i);
            proof {
                assert(res_view(res@) =~= v.remove(i as int));
                assert forall|k: Seq<char>| k != key@ implies #[trigger] res_lookup(res_view(res@), k)
                    == res_lookup(v, k) by {
                    lemma_lookup_remove(v, i as int, k);
                }
            }
            return Some(lines);
        }
        assert(v.skip(i as int).skip(1) =~= v.skip(i + 1));
        i = i + 1;
    }
    None
}

/// Takes all lines out of a buffer; it is left empty, without cursor.
fn drain(buffer: &mut TextBuffer) -> (r: Vec<BufferLine>)
    ensures
        r@ == old(buffer).lines@,
        final(buffer).lines@.len() == 0,
        final(buffer).cursor is None,
        final(buffer).view_port == old(buffer).view_port,
        final(buffer).wf(),
{
    let mut lines: Vec<BufferLine> = Vec::new();
    std::mem::swap(&mut lines, &mut buffer.lines);
    buffer.cursor = None;
    lines
}

fn copy_path(p: &Option<String>) -> (r: Option<String>)
    ensures
        r == *p,
{
    match p {
        Some(s) => Some(s.clone()),
        None => None,
    }
}

/// Action `a` loads `path` into slot `w`.
pub open spec fn load_of(a: Action, w: WindowType, path: Seq<char>) -> bool {
    a matches Action::Load(x, p, _) && x == w && p@ == path
}

/// Some action loads `path` into slot `w`.
pub open spec fn loads(actions: Seq<Action>, w: WindowType, path: Seq<char>) -> bool {
    exists|i: int| 0 <= i < actions.len() && #[trigger] load_of(actions[i], w, path)
}

/// Takes the lines out of every slot that shows a path, keyed by that path.
fn collect_resident(model: &mut Model) -> (r: Vec<(String, Vec<BufferLine>)>)
    requires
        old(model).wf(),
    ensures
        final(model).wf(),
        forall|key: Seq<char>| #[trigger] res_lookup(res_view(r@), key) == resident_lines(*old(model), key),
        final(model).files.current.path == old(model).files.current.path,
        final(model).files.parent.path == old(model).files.parent.path,
        final(model).files.preview.path == old(model).files.preview.path,
        final(model).history == old(model).history,
        final(model).mode == old(model).mode,
{
    let ghost start = *model;
    let mut res: Vec<(String, Vec<BufferLine>)> = Vec::new();
    let ghost r0 = res_view(res@);
    if let Some(p) = &model.files.current.path {
        let lines = drain(&mut model.files.current.buffer);
        res.push((p.clone(), lines));
        proof {
            assert(res_view(res@) =~= r0.push((p@, start.files.current.buffer.lines@)));
        }
    }
    let ghost r1 = res_view(res@);
    if let Some(p) = &model.files.preview.path {
        let lines = drain(&mut model.files.preview.buffer);
        res.push((p.clone(), lines));
        proof {
            assert(res_view(res@) =~= r1.push((p@, start.files.preview.buffer.lines@)));
        }
    }
    let ghost r2 = res_view(res@);
    if let Some(p) = &model.files.parent.path {
        let lines = drain(&mut model.files.parent.buffer);
        res.push((p.clone(), lines));
        proof {
            assert(res_view(res@) =~= r2.push((p@, start.files.parent.buffer.lines@)));
        }
    }
    proof {
        assert forall|key: Seq<char>| #[trigger] res_lookup(res_view(res@), key) == resident_lines(start, key) by {
            assert(r0 =~= Seq::<(Seq<char>, Seq<BufferLine>)>::empty());
            if start.files.current.path is Some {
                lemma_lookup_push(r0, (start.files.current.path->0@, start.files.current.buffer.lines@), key);
            }
            if start.files.preview.path is Some {
                lemma_lookup_push(r1, (start.files.preview.path->0@, start.files.preview.buffer.lines@), key);
            }
            if start.files.parent.path is Some {
                lemma_lookup_push(r2, (start.files.parent.path->0@, start.files.parent.buffer.lines@), key);
            }
        }
    }
    res
}

/// Fills the current slot for `path`: with resident lines where there are
/// some, the cursor on `selection`; else empty and loading, with the action
/// that loads it.
fn enter_current(
    model: &mut Model,
    res: &mut Vec<(String, Vec<BufferLine>)>,
    path: &String,
    selection: &Option<String>,
) -> (r: Option<Action>)
    requires
        old(model).wf(),
    ensures
        final(model).wf(),
        final(model).files.current.path == Some(*path),
        final(model).files.parent.path == old(model).files.parent.path,
        final(model).files.preview.path == old(model).files.preview.path,
        final(model).history == old(model).history,
        final(model).mode == old(model).mode,
        final(model).files.parent.buffer == old(model).files.parent.buffer,
        final(model).files.preview.buffer == old(model).files.preview.buffer,
        match res_lookup(res_view(old(res)@), path@) {
            Some(l) => final(model).files.current.buffer.lines@ == l && r is None,
            None => final(model).files.current.buffer.lines@.len() == 0
                && final(model).files.current.state == DirectoryBufferState::Loading
                && (r matches Some(a) && load_of(a, WindowType::Current, path@) && (a matches Action::Load(
                _,
                _,
                s,
            ) && s == *selection)),
        },
        forall|k: Seq<char>|
            k != path@ ==> #[trigger] res_lookup(res_view(final(res)@), k) == res_lookup(
                res_view(old(res)@),
                k,
            ),
{
    model.files.current.path = Some(path.clone());
    match take_resident(res, path) {
        Some(lines) => {
            set_content(&mut model.files.current.buffer, lines);
            focus_first(&mut model.files.current.buffer);
            if let Some(s) = selection {
                set_cursor_index_to_selection(&model.mode, &mut model.files.current.buffer, s);
            }
            None
        },
        None => {
            model.files.current.state = DirectoryBufferState::Loading;
            set_content(&mut model.files.current.buffer, Vec::new());
            Some(Action::Load(WindowType::Current, path.clone(), copy_path(selection)))
        },
    }
}

/// Fills the parent slot for directory `path`.
fn enter_parent(model: &mut Model, res: &mut Vec<(String, Vec<BufferLine>)>, path: &String) -> (r:
    Option<Action>)
    requires
        old(model).wf(),
    ensures
        final(model).wf(),
        final(model).files.current == old(model).files.current,
        final(model).files.preview.path == old(model).files.preview.path,
        final(model).history == old(model).history,
        final(model).mode == old(model).mode,
        match parent_of(path@) {
            Some(pp) => final(model).files.parent.path matches Some(q) && q@ == pp,
            None => final(model).files.parent.path is None,
        },
        match parent_of(path@) {
            Some(pp) => match res_lookup(res_view(old(res)@), pp) {
                Some(l) => final(model).files.parent.buffer.lines@ == l && r is None,
                None => final(model).files.parent.buffer.lines@.len() == 0
                    && final(model).files.parent.state == DirectoryBufferState::Loading && (r matches Some(
                    Action::Load(w, q, s),
                ) && w == WindowType::Parent && q@ == pp && text_of(s) == file_name_of(path@)),
            },
            None => final(model).files.parent.buffer.lines@.len() == 0 && r is None,
        },
{
    let parent_path = parent(path);
    model.files.parent.path = copy_path(&parent_path);
    match &parent_path {
        Some(pp) => {
            let action = match take_resident(res, pp) {
                Some(lines) => {
                    set_content(&mut model.files.parent.buffer, lines);
                    None
                },
                None => {
                    model.files.parent.state = DirectoryBufferState::Loading;
                    set_content(&mut model.files.parent.buffer, Vec::new());
                    Some(Action::Load(WindowType::Parent, pp.clone(), file_name(path)))
                },
            };
            parent_slot::update(model, None);
            action
        },
        None => {
            set_content(&mut model.files.parent.buffer, Vec::new());
            None
        },
    }
}

/// Points the preview slot at the selected path and fills it.
fn enter_preview(model: &mut Model, res: &mut Vec<(String, Vec<BufferLine>)>) -> (r: Option<Action>)
    requires
        old(model).wf(),
    ensures
        final(model).wf(),
        final(model).files.current == old(model).files.current,
        final(model).files.parent == old(model).files.parent,
        final(model).history == old(model).history,
        final(model).mode == old(model).mode,
        r is None || (r matches Some(Action::Load(w, _, _)) && w == WindowType::Preview),
{
    match get_current_selected_path(model) {
        Some(pv) => {
            model.files.preview.path = Some(pv.clone());
            match take_resident(res, &pv) {
                Some(lines) => {
                    set_content(&mut model.files.preview.buffer, lines);
                    preview_slot::update(model, None);
                    None
                },
                None => {
                    model.files.preview.state = DirectoryBufferState::Loading;
                    set_content(&mut model.files.preview.buffer, Vec::new());
                    let recorded = model.history.get_selection(&pv);
                    Some(Action::Load(WindowType::Preview, pv, recorded))
                },
            }
        },
        None => {
            model.files.preview.path = None;
            set_content(&mut model.files.preview.buffer, Vec::new());
            None
        },
    }
}

fn push_some(actions: &mut Vec<Action>, a: Option<Action>)
    ensures
        match a {
            Some(x) => final(actions)@ == old(actions)@.push(x),
            None => final(actions)@ == old(actions)@,
        },
{
    if let Some(x) = a {
        actions.push(x);
    }
}

pub open spec fn opt_seq(a: Option<Action>) -> Seq<Action> {
    match a {
        Some(x) => seq![x],
        None => Seq::empty(),
    }
}

/// The actions are the three optional loads, of current, parent and preview,
/// in that order.
pub open spec fn nav_plan(r: Seq<Action>, a1: Option<Action>, a2: Option<Action>, a3: Option<Action>) -> bool {
    r == opt_seq(a1) + opt_seq(a2) + opt_seq(a3)
}

/// The load of the current slot: none when its content is shown already,
/// else one, carrying the selection.
pub open spec fn current_load(a: Option<Action>, m: Model, path: Seq<char>, sel: Option<Seq<char>>) -> bool {
    match resident_lines(m, path) {
        Some(_) => a is None,
        None => a matches Some(Action::Load(w, p, s)) && w == WindowType::Current && p@ == path
            && text_of(s) == sel,
    }
}

/// The load of the parent slot: none when there is no parent or it is shown
/// already, else one, selecting the name of `path`.
pub open spec fn parent_load(a: Option<Action>, m: Model, path: Seq<char>) -> bool {
    match parent_of(path) {
        Some(pp) => match resident_lines(m, pp) {
            Some(_) => a is None,
            None => a matches Some(Action::Load(w, q, s)) && w == WindowType::Parent && q@ == pp
                && text_of(s) == file_name_of(path),
        },
        None => a is None,
    }
}

/// A load of the preview slot, if any.
pub open spec fn preview_load(a: Option<Action>) -> bool {
    a is None || (a matches Some(Action::Load(w, _, _)) && w == WindowType::Preview)
}

/// Moves to directory `path`, putting the cursor on `selection`, or else on
/// the name the history recorded there. Content already shown in a slot is
/// moved over; what is not is loaded, once. `target` is what lies at `path`:
/// only a directory is entered.
pub fn navigate_to_path_with_selection(
    model: &mut Model,
    path: &String,
    selection: &Option<String>,
    target: PathKind,
) -> (r: Vec<Action>)
    requires
        old(model).wf(),
    ensures
        final(model).wf(),
        target != PathKind::Directory ==> *final(model) == *old(model) && r@.len() == 0,
        target == PathKind::Directory ==> {
            let sel = match *selection {
                Some(s) => Some(s@),
                None => history_lookup(old(model).history.entries@, path@),
            };
            &&& final(model).files.current.path == Some(*path)
            &&& match resident_lines(*old(model), path@) {
                Some(l) => final(model).files.current.buffer.lines@ == l,
                None => final(model).files.current.buffer.lines@.len() == 0
                    && final(model).files.current.state == DirectoryBufferState::Loading,
            }
            &&& match parent_of(path@) {
                Some(pp) => {
                    &&& final(model).files.parent.path matches Some(q) && q@ == pp
                    &&& match resident_lines(*old(model), pp) {
                        Some(l) => final(model).files.parent.buffer.lines@ == l,
                        None => final(model).files.parent.buffer.lines@.len() == 0
                            && final(model).files.parent.state == DirectoryBufferState::Loading,
                    }
                },
                None => final(model).files.parent.path is None
                    && final(model).files.parent.buffer.lines@.len() == 0,
            }
            &&& exists|a1: Option<Action>, a2: Option<Action>, a3: Option<Action>|
                #[trigger] nav_plan(r@, a1, a2, a3) && current_load(a1, *old(model), path@, sel)
                    && parent_load(a2, *old(model), path@) && preview_load(a3)
            &&& match (parent_of(path@), file_name_of(path@)) {
                (Some(d), Some(n)) => history_lookup(final(model).history.entries@, d) == Some(n),
                _ => final(model).history.entries@ == old(model).history.entries@,
            }
        },
{
    if target != PathKind::Directory {
        return Vec::new();
    }
    let chosen = match selection {
        Some(s) => Some(s.clone()),
        None => model.history.get_selection(path),
    };
    let ghost start = *model;
    let mut res = collect_resident(model);
    let mut actions: Vec<Action> = Vec::new();
    let first = enter_current(model, &mut res, path, &chosen);
    proof {
        lemma_parent_shorter(path@);
        if parent_of(path@) is Some {
            let pp = parent_of(path@)->0;
            assert(pp != path@);
            assert(res_lookup(res_view(res@), pp) == resident_lines(start, pp));
        }
    }
    push_some(&mut actions, first);
    let second = enter_parent(model, &mut res, path);
    push_some(&mut actions, second);
    let third = enter_preview(model, &mut res);
    push_some(&mut actions, third);
    model.history.add(path);
    proof {
        assert(actions@ =~= opt_seq(first) + opt_seq(second) + opt_seq(third));
        assert(nav_plan(actions@, first, second, third));
        let sel = if selection is Some {
            Some(selection->0@)
        } else {
            history_lookup(start.history.entries@, path@)
        };
        assert(text_of(chosen) == sel);
        assert(current_load(first, start, path@, sel));
        assert(parent_load(second, start, path@));
        assert(preview_load(third));
    }
    actions
}

/// Moves up to the parent directory: the current lines become the preview,
/// the parent's lines become current, and the grandparent is loaded.
pub fn navigate_to_parent(model: &mut Model) -> (r: Vec<Action>)
    requires
        old(model).wf(),
    ensures
        final(model).wf(),
        match old(model).files.current.path {
            Some(cp) => match parent_of(cp@) {
                Some(pp) => {
                    &&& final(model).files.current.path matches Some(q) && q@ == pp
                    &&& final(model).files.current.buffer.lines@ == old(
                        model,
                    ).files.parent.buffer.lines@
                    &&& final(model).files.preview.path == Some(cp)
                    &&& final(model).files.preview.buffer.lines@ == old(
                        model,
                    ).files.current.buffer.lines@
                    &&& final(model).files.parent.buffer.lines@.len() == 0
                    &&& match parent_of(pp) {
                        Some(g) => final(model).files.parent.path matches Some(q) && q@ == g
                            && r@.len() == 1 && (r@[0] matches Action::Load(w, q, s) && w
                            == WindowType::Parent && q@ == g && text_of(s) == file_name_of(pp)),
                        None => final(model).files.parent.path is None && r@.len() == 0,
                    }
                },
                None => *final(model) == *old(model) && r@.len() == 0,
            },
            None => *final(model) == *old(model) && r@.len() == 0,
        },
{
    let cp = match &model.files.current.path {
        Some(p) => p.clone(),
        None => return Vec::new(),
    };
    let pp = match parent(&cp) {
        Some(p) => p,
        None => return Vec::new(),
    };
    let mut actions: Vec<Action> = Vec::new();
    let grandparent = parent(&pp);
    model.files.parent.path = copy_path(&grandparent);
    if let Some(g) = grandparent {
        model.files.parent.state = DirectoryBufferState::Loading;
        actions.push(Action::Load(WindowType::Parent, g, file_name(&pp)));
        proof {
            assert(load_of(actions@[0], WindowType::Parent, parent_of(pp@)->0));
        }
    }
    let current_lines = drain(&mut model.files.current.buffer);
    let parent_lines = drain(&mut model.files.parent.buffer);
    model.files.preview.path = Some(cp);
    set_content(&mut model.files.preview.buffer, current_lines);
    model.files.current.path = Some(pp);
    set_content(&mut model.files.current.buffer, parent_lines);
    focus_first(&mut model.files.current.buffer);
    if let Some(p) = &model.files.current.path {
        set_cursor_index_with_history(&model.mode, &model.history, &mut model.files.current.buffer, p);
    }
    parent_slot::update(model, None);
    actions
}

/// Enters the selected directory: the preview's lines become current, the
/// current lines become the parent, and the new selection is previewed.
/// `target` is what lies at the selected path: only a directory is entered.
pub fn navigate_to_selected(model: &mut Model, target: PathKind) -> (r: Vec<Action>)
    requires
        old(model).wf(),
    ensures
        final(model).wf(),
        target != PathKind::Directory ==> *final(model) == *old(model) && r@.len() == 0,
        !selected_path_is_new(*old(model)) ==> *final(model) == *old(model) && r@.len() == 0,
        target == PathKind::Directory && selected_path_is_new(*old(model)) ==> {
            let sel = crate::update::cursor::selected_path_of(*old(model))->0;
            &&& r@.len() <= 1
            &&& forall|i: int| 0 <= i < r@.len() ==> (#[trigger] r@[i] matches Action::Load(w, _, _) && w
                == WindowType::Preview)
            &&& match (parent_of(sel), file_name_of(sel)) {
                (Some(d), Some(n)) => history_lookup(final(model).history.entries@, d) == Some(n),
                _ => true,
            }
            &&& final(model).files.current.path matches Some(q) && Some(q@)
                == crate::update::cursor::selected_path_of(*old(model))
            &&& final(model).files.current.buffer.lines@ == old(model).files.preview.buffer.lines@
            &&& final(model).files.parent.path == old(model).files.current.path
            &&& final(model).files.parent.buffer.lines@ == old(model).files.current.buffer.lines@
        },
{
    if target != PathKind::Directory {
        return Vec::new();
    }
    let selected = match get_current_selected_path(model) {
        Some(s) => s,
        None => return Vec::new(),
    };
    if let Some(cp) = &model.files.current.path {
        if *cp == selected {
            return Vec::new();
        }
    }
    let current_lines = drain(&mut model.files.current.buffer);
    let preview_lines = drain(&mut model.files.preview.buffer);
    let old_path = copy_path(&model.files.current.path);
    model.files.current.path = Some(selected);
    set_content(&mut model.files.current.buffer, preview_lines);
    focus_first(&mut model.files.current.buffer);
    if let Some(p) = &model.files.current.path {
        set_cursor_index_with_history(&model.mode, &model.history, &mut model.files.current.buffer, p);
    }
    model.files.parent.path = old_path;
    set_content(&mut model.files.parent.buffer, current_lines);
    parent_slot::update(model, None);
    let mut actions: Vec<Action> = Vec::new();
    let mut res: Vec<(String, Vec<BufferLine>)> = Vec::new();
    let third = enter_preview(model, &mut res);
    push_some(&mut actions, third);
    if let Some(p) = &model.files.current.path {
        model.history.add(p);
    }
    actions
}

/// The selection lies in another directory than the current one.
pub open spec fn selected_path_is_new(m: Model) -> bool {
    match crate::update::cursor::selected_path_of(m) {
        Some(s) => !(m.files.current.path matches Some(c) && c@ == s),
        None => false,
    }
}

/// Moves to `path`; for a file, to its directory with the file selected.
pub fn navigate_to_path(model: &mut Model, path: &String, target: PathKind) -> (r: Vec<Action>)
    requires
        old(model).wf(),
    ensures
        final(model).wf(),
        target == PathKind::Directory ==> final(model).files.current.path == Some(*path),
        target == PathKind::File ==> match parent_of(path@) {
            Some(d) => final(model).files.current.path matches Some(q) && q@ == d,
            None => *final(model) == *old(model) && r@.len() == 0,
        },
        target == PathKind::Missing ==> *final(model) == *old(model) && r@.len() == 0,
{
    if target == PathKind::File {
        let selection = file_name(path);
        match parent(path) {
            Some(dir) => navigate_to_path_with_selection(model, &dir, &selection, PathKind::Directory),
            None => Vec::new(),
        }
    } else {
        navigate_to_path_with_selection(model, path, &None, target)
    }
}

/// Moves to the directory holding `path`, with `path` selected; the root is
/// entered itself.
pub fn navigate_to_preview_path(model: &mut Model, path: &String) -> (r: Vec<Action>)
    requires
        old(model).wf(),
    ensures
        final(model).wf(),
        match parent_of(path@) {
            Some(d) => final(model).files.current.path matches Some(q) && q@ == d,
            None => final(model).files.current.path == Some(*path),
        },
{
    let selection = file_name(path);
    match parent(path) {
        Some(dir) => navigate_to_path_with_selection(model, &dir, &selection, PathKind::Directory),
        None => navigate_to_path_with_selection(model, path, &selection, PathKind::Directory),
    }
}

/// The path stored under mark `c`.
pub open spec fn mark_of(m: Model, c: char) -> Option<Seq<char>> {
    let e = m.marks.entries@;
    if exists|i: int| 0 <= i < e.len() && e[i].0 == c {
        Some(e[choose|i: int| 0 <= i < e.len() && e[i].0 == c && forall|j: int| 0 <= j < i ==> e[j].0 != c].1@)
    } else {
        None
    }
}

fn find_mark(model: &Model, c: char) -> (r: Option<String>)
    ensures
        match mark_of(*model, c) {
            Some(p) => r matches Some(s) && s@ == p,
            None => r is None,
        },
{
    let e = &model.marks.entries;
    let n = e.len();
    let mut i: usize = 0;
    while i < n
        invariant
            n == e@.len(),
            e == &model.marks.entries,
            i <= n,
            forall|j: int| 0 <= j < i ==> e@[j].0 != c,
        decreases n - i,
    {
        if e[i].0 == c {
            proof {
                assert(0 <= i < e@.len() && e@[i as int].0 == c && forall|j: int| 0 <= j < i ==> e@[j].0 != c);
                let k = choose|k: int| 0 <= k < e@.len() && e@[k].0 == c && forall|j: int| 0 <= j < k ==> e@[j].0 != c;
                if k < i {
                    assert(e@[k].0 != c);
                }
                if k > i {
                    assert(e@[i as int].0 != c);
                }
            }
            return Some(e[i].1.clone());
        }
        i = i + 1;
    }
    None
}

/// Moves to the path stored under mark `c`, selected in its directory; an
/// unset mark does nothing.
pub fn navigate_to_mark(c: &char, model: &mut Model) -> (r: Vec<Action>)
    requires
        old(model).wf(),
    ensures
        final(model).wf(),
        mark_of(*old(model), *c) is None ==> *final(model) == *old(model) && r@.len() == 0,
        match mark_of(*old(model), *c) {
            Some(p) => match parent_of(p) {
                Some(d) => final(model).files.current.path matches Some(q) && q@ == d,
                None => final(model).files.current.path matches Some(q) && q@ == p,
            },
            None => true,
        },
{
    match find_mark(model, *c) {
        Some(path) => navigate_to_preview_path(model, &path),
        None => Vec::new(),
    }
}

} // verus!
