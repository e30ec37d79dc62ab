use vstd::prelude::*;

use crate::action::{emit_keymap, Action};
use crate::buffer::{BufferLine, SignIdentifier, TextBuffer};
use crate::event::Message;
use crate::message::{KeymapMessage, PrintContent};
use crate::model::Model;
use crate::paths::{join, joined_path};

verus! {

/// A line carries the quickfix sign.
pub open spec fn has_qfix_sign(l: BufferLine) -> bool {
    l.signs@.contains(SignIdentifier::QuickFix)
}

proof fn lemma_push_contains(v: Seq<SignIdentifier>, x: SignIdentifier, y: SignIdentifier)
    ensures
        v.push(x).contains(y) == (v.contains(y) || x == y),
{
    let w = v.push(x);
    if v.contains(y) {
        let i = choose|i: int| 0 <= i < v.len() && v[i] == y;
        assert(w[i] == y);
    }
    if x == y {
        assert(w[v.len() as int] == y);
    }
    if w.contains(y) {
        let j = choose|j: int| 0 <= j < w.len() && w[j] == y;
        if j < v.len() {
            assert(v[j] == y);
        }
    }
}

/// Gives `line` the sign `sign`; its other signs stay.
pub fn set_sign(line: &mut BufferLine, sign: SignIdentifier)
    ensures
        final(line).signs@.contains(sign),
        forall|s: SignIdentifier| s != sign ==> #[trigger] final(line).signs@.contains(s) == old(line).signs@.contains(s),
        final(line).content == old(line).content,
{
    let n = line.signs.len();
    let mut i: usize = 0;
    while i < n
        invariant
            n == line.signs@.len(),
            i <= n,
            forall|j: int| 0 <= j < i ==> line.signs@[j] != sign,
        decreases n - i,
    {
        if line.signs[i] == sign {
            return ;
        }
        i = i + 1;
    }
    let ghost before = line.signs@;
    line.signs.push(sign);
    proof {
        assert(line.signs@[n as int] == sign);
        assert forall|s: SignIdentifier| s != sign implies #[trigger] line.signs@.contains(s) == before.contains(s) by {
            lemma_push_contains(before, sign, s);
        }
    }
}

/// Takes the sign `sign` off `line`; its other signs stay.
pub fn unset_sign(line: &mut BufferLine, sign: SignIdentifier)
    ensures
        !final(line).signs@.contains(sign),
        forall|s: SignIdentifier| s != sign ==> #[trigger] final(line).signs@.contains(s) == old(line).signs@.contains(s),
        final(line).content == old(line).content,
{
    let mut kept: Vec<SignIdentifier> = Vec::new();
    let n = line.signs.len();
    let ghost all = line.signs@;
    let mut i: usize = 0;
    proof {
        assert(all.take(0) =~= Seq::<SignIdentifier>::empty());
    }
    while i < n
        invariant
            n == line.signs@.len(),
            all == line.signs@,
            i <= n,
            forall|j: int| 0 <= j < kept@.len() ==> kept@[j] != sign,
            forall|s: SignIdentifier| s != sign ==> #[trigger] kept@.contains(s) == all.take(i as int).contains(s),
        decreases n - i,
    {
        let s = line.signs[i];
        let ghost before = kept@;
        proof {
            assert(all.take(i + 1) =~= all.take(i as int).push(s));
        }
        if s != sign {
            kept.push(s);
            proof {
                assert(kept@[kept@.len() - 1] == s);
                assert forall|t: SignIdentifier| t != sign implies #[trigger] kept@.contains(t) == all.take(i + 1).contains(t) by {
                    lemma_push_contains(before, s, t);
                    lemma_push_contains(all.take(i as int), s, t);
                }
            }
        } else {
            proof {
                assert forall|t: SignIdentifier| t != sign implies #[trigger] kept@.contains(t) == all.take(i + 1).contains(t) by {
                    lemma_push_contains(all.take(i as int), s, t);
                }
            }
        }
        i = i + 1;
    }
    proof {
        assert(all.take(n as int) =~= all);
    }
    line.signs = kept;
}

fn unset_sign_on_buffer(buffer: &mut TextBuffer, sign: SignIdentifier)
    ensures
        final(buffer).lines@.len() == old(buffer).lines@.len(),
        final(buffer).cursor == old(buffer).cursor,
        final(buffer).view_port == old(buffer).view_port,
        forall|i: int|
            0 <= i < final(buffer).lines@.len() ==> !(#[trigger] final(buffer).lines@[i]).signs@.contains(sign)
                && final(buffer).lines@[i].content == old(buffer).lines@[i].content,
{
    let n = buffer.lines.len();
    let mut i: usize = 0;
    while i < n
        invariant
            n == buffer.lines@.len(),
            n == old(buffer).lines@.len(),
            buffer.cursor == old(buffer).cursor,
            buffer.view_port == old(buffer).view_port,
            i <= n,
            forall|j: int|
                0 <= j < n ==> (#[trigger] buffer.lines@[j]).content == old(buffer).lines@[j].content,
            forall|j: int| 0 <= j < i ==> !(#[trigger] buffer.lines@[j]).signs@.contains(sign),
        decreases n - i,
    {
        unset_sign(&mut buffer.lines[i], sign);
        i = i + 1;
    }
}

/// Empties the quickfix list and takes its sign off every line.
pub fn reset_qfix_list(model: &mut Model, additional_action: Action) -> (r: Vec<Action>)
    requires
        old(model).wf(),
    ensures
        final(model).wf(),
        final(model).qfix.entries@.len() == 0,
        final(model).qfix.current_index == 0,
        r@ == seq![additional_action],
        forall|i: int|
            0 <= i < final(model).files.current.buffer.lines@.len() ==> !has_qfix_sign(
                #[trigger] final(model).files.current.buffer.lines@[i],
            ),
{
    model.qfix.entries.clear();
    model.qfix.current_index = 0;
    unset_sign_on_buffer(&mut model.files.current.buffer, SignIdentifier::QuickFix);
    unset_sign_on_buffer(&mut model.files.parent.buffer, SignIdentifier::QuickFix);
    unset_sign_on_buffer(&mut model.files.preview.buffer, SignIdentifier::QuickFix);
    let mut v: Vec<Action> = Vec::new();
    v.push(additional_action);
    proof {
        assert(v@ =~= seq![additional_action]);
    }
    v
}

pub fn contains_path(entries: &Vec<String>, path: &String) -> (r: bool)
    ensures
        r == exists|i: int| 0 <= i < entries@.len() && entries@[i]@ == path@,
{
    let n = entries.len();
    let mut i: usize = 0;
    while i < n
        invariant
            n == entries@.len(),
            i <= n,
            forall|j: int| 0 <= j < i ==> entries@[j]@ != path@,
        decreases n - i,
    {
        if entries[i] == *path {
            return true;
        }
        i = i + 1;
    }
    false
}

/// The paths a list of entries holds.
pub open spec fn paths_set(v: Seq<String>) -> Set<Seq<char>> {
    v.map_values(|s: String| s@).to_set()
}

/// The directory of the current slot, empty where it shows none.
pub open spec fn dir_of(m: Model) -> Seq<char> {
    match m.files.current.path {
        Some(p) => p@,
        None => Seq::empty(),
    }
}

/// The paths of the lines with text, in `dir`, in order.
pub open spec fn line_paths(dir: Seq<char>, lines: Seq<BufferLine>) -> Seq<Seq<char>>
    decreases lines.len(),
{
    if lines.len() == 0 {
        Seq::empty()
    } else {
        line_paths(dir, lines.drop_last()) + if lines.last().content@.len() > 0 {
            seq![joined_path(dir, lines.last().content@)]
        } else {
            Seq::empty()
        }
    }
}

/// `s` with each of `ps` in turn taken out when present, put in when not.
pub open spec fn toggled(s: Set<Seq<char>>, ps: Seq<Seq<char>>) -> Set<Seq<char>>
    decreases ps.len(),
{
    if ps.len() == 0 {
        s
    } else {
        let t = toggled(s, ps.drop_last());
        if t.contains(ps.last()) {
            t.remove(ps.last())
        } else {
            t.insert(ps.last())
        }
    }
}

proof fn lemma_paths_push(v: Seq<String>, e: String)
    ensures
        paths_set(v.push(e)) == paths_set(v).insert(e@),
{
    assert(v.push(e).map_values(|s: String| s@) =~= v.map_values(|s: String| s@).insert(
        v.len() as int,
        e@,
    ));
    crate::update::path::lemma_set_insert(v.map_values(|s: String| s@), v.len() as int, e@);
}

proof fn lemma_paths_contains(v: Seq<String>, p: Seq<char>)
    ensures
        paths_set(v).contains(p) == exists|i: int| 0 <= i < v.len() && v[i]@ == p,
{
    let m = v.map_values(|s: String| s@);
    if paths_set(v).contains(p) {
        let i = choose|i: int| 0 <= i < m.len() && m[i] == p;
        assert(v[i]@ == p);
    }
    if exists|i: int| 0 <= i < v.len() && v[i]@ == p {
        let i = choose|i: int| 0 <= i < v.len() && v[i]@ == p;
        assert(m[i] == p);
    }
}

fn without_path(entries: Vec<String>, path: &String) -> (r: Vec<String>)
    ensures
        paths_set(r@) == paths_set(entries@).remove(path@),
{
    let mut entries = entries;
    let ghost all = entries@;
    let mut kept: Vec<String> = Vec::new();
    let n = entries.len();
    let mut i: usize = 0;
    proof {
        assert(all.take(0) =~= Seq::<String>::empty());
        assert(paths_set(kept@) =~= paths_set(all.take(0)).remove(path@));
    }
    while i < n
        invariant
            n == all.len(),
            entries@.len() == n,
            forall|j: int| i <= j < n ==> entries@[j] == all[j],
            i <= n,
            paths_set(kept@) == paths_set(all.take(i as int)).remove(path@),
        decreases n - i,
    {
        let mut e = String::new();
        std::mem::swap(&mut e, &mut entries[i]);
        let ghost g = e;
        proof {
            assert(all.take(i + 1) =~= all.take(i as int).push(g));
            lemma_paths_push(all.take(i as int), g);
        }
        if e != *path {
            let ghost before = kept@;
            kept.push(e);
            proof {
                lemma_paths_push(before, g);
                assert(paths_set(kept@) =~= paths_set(all.take(i + 1)).remove(path@));
            }
        } else {
            proof {
                assert(paths_set(kept@) =~= paths_set(all.take(i + 1)).remove(path@));
            }
        }
        i = i + 1;
    }
    proof {
        assert(all.take(n as int) =~= all);
    }
    kept
}

/// Removes every current-directory entry from the quickfix list, with its
/// sign.
pub fn clear_qfix_list_in_current(model: &mut Model, additional_action: Action) -> (r: Vec<Action>)
    requires
        old(model).wf(),
    ensures
        final(model).wf(),
        r@ == seq![additional_action],
        paths_set(final(model).qfix.entries@) == paths_set(old(model).qfix.entries@).difference(
            line_paths(dir_of(*old(model)), old(model).files.current.buffer.lines@).to_set(),
        ),
        final(model).files.current.buffer.lines@.len() == old(model).files.current.buffer.lines@.len(),
{
    qfix_pass(model, false);
    let mut v: Vec<Action> = Vec::new();
    v.push(additional_action);
    proof {
        assert(v@ =~= seq![additional_action]);
    }
    v
}

/// One pass over the current lines: each line's path leaves the quickfix
/// list if it is in it; with `toggle`, it joins the list otherwise. The
/// line's sign follows.
fn qfix_pass(model: &mut Model, toggle: bool)
    requires
        old(model).wf(),
    ensures
        final(model).wf(),
        final(model).files.current.buffer.lines@.len() == old(model).files.current.buffer.lines@.len(),
        toggle ==> paths_set(final(model).qfix.entries@) == toggled(
            paths_set(old(model).qfix.entries@),
            line_paths(dir_of(*old(model)), old(model).files.current.buffer.lines@),
        ),
        !toggle ==> paths_set(final(model).qfix.entries@) == paths_set(old(model).qfix.entries@).difference(
            line_paths(dir_of(*old(model)), old(model).files.current.buffer.lines@).to_set(),
        ),
{
    let current_path = match &model.files.current.path {
        Some(p) => p.clone(),
        None => String::new(),
    };
    let ghost dir = dir_of(*old(model));
    let ghost lines = old(model).files.current.buffer.lines@;
    let ghost s0 = paths_set(old(model).qfix.entries@);
    let n = model.files.current.buffer.lines.len();
    let mut i: usize = 0;
    proof {
        assert(lines.take(0) =~= Seq::<BufferLine>::empty());
        assert(line_paths(dir, lines.take(0)) =~= Seq::<Seq<char>>::empty());
        assert(s0.difference(Seq::<Seq<char>>::empty().to_set()) =~= s0);
    }
    while i < n
        invariant
            n == lines.len(),
            n == model.files.current.buffer.lines@.len(),
            current_path@ == dir,
            model.wf(),
            i <= n,
            forall|j: int| 0 <= j < n ==> (#[trigger] model.files.current.buffer.lines@[j]).content == lines[j].content,
            toggle ==> paths_set(model.qfix.entries@) == toggled(s0, line_paths(dir, lines.take(i as int))),
            !toggle ==> paths_set(model.qfix.entries@) == s0.difference(line_paths(dir, lines.take(i as int)).to_set()),
        decreases n - i,
    {
        let ghost lp = line_paths(dir, lines.take(i as int));
        proof {
            assert(lines.take(i + 1).drop_last() =~= lines.take(i as int));
            assert(lines.take(i + 1).last() == lines[i as int]);
        }
        if model.files.current.buffer.lines[i].content.as_str().unicode_len() > 0 {
            let path = join(&current_path, &model.files.current.buffer.lines[i].content);
            let ghost before = model.qfix.entries@;
            proof {
                assert(line_paths(dir, lines.take(i + 1)) == lp.push(path@));
                assert(lp.push(path@).drop_last() =~= lp);
                assert(lp.push(path@).last() == path@);
                lemma_paths_contains(before, path@);
            }
            if contains_path(&model.qfix.entries, &path) {
                let mut entries: Vec<String> = Vec::new();
                std::mem::swap(&mut entries, &mut model.qfix.entries);
                model.qfix.entries = without_path(entries, &path);
                unset_sign(&mut model.files.current.buffer.lines[i], SignIdentifier::QuickFix);
                proof {
                    crate::update::path::lemma_set_insert(lp, lp.len() as int, path@);
                    assert(lp.insert(lp.len() as int, path@) =~= lp.push(path@));
                    assert(lp.push(path@).to_set() == lp.to_set().insert(path@));
                    assert(s0.difference(lp.push(path@).to_set()) =~= s0.difference(lp.to_set()).remove(path@));
                }
            } else if toggle {
                let ghost b2 = model.qfix.entries@;
                model.qfix.entries.push(path);
                set_sign(&mut model.files.current.buffer.lines[i], SignIdentifier::QuickFix);
                proof {
                    lemma_paths_push(b2, model.qfix.entries@.last());
                    assert(model.qfix.entries@ == b2.push(model.qfix.entries@.last()));
                }
            } else {
                proof {
                    crate::update::path::lemma_set_insert(lp, lp.len() as int, path@);
                    assert(lp.insert(lp.len() as int, path@) =~= lp.push(path@));
                    assert(lp.push(path@).to_set() == lp.to_set().insert(path@));
                    assert(s0.difference(lp.push(path@).to_set()) =~= s0.difference(lp.to_set()));
                }
            }
        } else {
            proof {
                assert(line_paths(dir, lines.take(i + 1)) =~= lp);
            }
        }
        i = i + 1;
    }
    proof {
        assert(lines.take(n as int) =~= lines);
    }
}

/// Stores the command run on each quickfix entry, then starts at the first.
pub fn cdo(model: &mut Model, command: &String, additional_action: Action) -> (r: Vec<Action>)
    ensures
        final(model).qfix.cdo == Some(*command),
        r@.len() == 2 && r@[0] == additional_action,
        r@[1] matches Action::EmitMessages(v) && v@.len() == 1 && (v@[0] matches Message::Keymap(
            KeymapMessage::ExecuteCommandString(c),
        ) && c@ == "cfirst"@),
{
    model.qfix.cdo = Some(command.clone());
    let mut v: Vec<Action> = Vec::new();
    v.push(additional_action);
    v.push(emit_keymap(KeymapMessage::ExecuteCommandString(String::from_str("cfirst"))));
    v
}

/// The action that previews quickfix entry `path`.
pub open spec fn previews(a: Action, path: String) -> bool {
    a matches Action::EmitMessages(v) && v@.len() == 1 && (v@[0] matches Message::Keymap(
        KeymapMessage::NavigateToPathAsPreview(p),
    ) && p == path)
}

/// Goes to the first quickfix entry.
pub fn navigate_first_qfix_entry(model: &mut Model, additional_action: Action) -> (r: Vec<Action>)
    ensures
        final(model).qfix.current_index == 0,
        final(model).qfix.entries == old(model).qfix.entries,
        old(model).qfix.entries@.len() == 0 ==> r@ == seq![additional_action],
        old(model).qfix.entries@.len() > 0 ==> r@.len() == 2 && r@[0] == additional_action
            && previews(r@[1], old(model).qfix.entries@[0]),
{
    model.qfix.current_index = 0;
    let mut v: Vec<Action> = Vec::new();
    v.push(additional_action);
    if model.qfix.entries.len() > 0 {
        v.push(emit_keymap(KeymapMessage::NavigateToPathAsPreview(model.qfix.entries[0].clone())));
    }
    proof {
        if old(model).qfix.entries@.len() == 0 {
            assert(v@ =~= seq![additional_action]);
        }
    }
    v
}

/// Goes to the next quickfix entry; past the last one, reports that there
/// are no more.
pub fn navigate_next_qfix_entry(model: &mut Model, additional_action: Action) -> (r: Vec<Action>)
    ensures
        final(model).qfix.entries == old(model).qfix.entries,
        old(model).qfix.current_index + 1 < old(model).qfix.entries@.len() ==> {
            &&& final(model).qfix.current_index == old(model).qfix.current_index + 1
            &&& r@.len() == 2 && r@[0] == additional_action
            &&& previews(r@[1], old(model).qfix.entries@[old(model).qfix.current_index + 1])
        },
        old(model).qfix.current_index + 1 >= old(model).qfix.entries@.len() ==> {
            &&& final(model).qfix.current_index == old(model).qfix.current_index
            &&& r@.len() == 1 && (r@[0] matches Action::EmitMessages(v) && v@.len() == 1
                && (v@[0] matches Message::Keymap(KeymapMessage::Print(p)) && p@.len() == 1
                && (p@[0] matches PrintContent::Error(e) && e@ == "no more items"@)))
        },
{
    let n = model.qfix.entries.len();
    if model.qfix.current_index < n && model.qfix.current_index + 1 < n {
        let next = model.qfix.current_index + 1;
        model.qfix.current_index = next;
        let mut v: Vec<Action> = Vec::new();
        v.push(additional_action);
        v.push(emit_keymap(KeymapMessage::NavigateToPathAsPreview(model.qfix.entries[next].clone())));
        v
    } else {
        let mut p: Vec<PrintContent> = Vec::new();
        p.push(PrintContent::Error(String::from_str("no more items")));
        let mut v: Vec<Action> = Vec::new();
        v.push(emit_keymap(KeymapMessage::Print(p)));
        v
    }
}

/// Goes to the previous quickfix entry, from the first one to the last.
pub fn navigate_previous_qfix_entry(model: &mut Model, additional_action: Action) -> (r: Vec<Action>)
    ensures
        final(model).qfix.entries == old(model).qfix.entries,
        old(model).qfix.entries@.len() == 0 ==> r@ == seq![additional_action]
            && final(model).qfix.current_index == old(model).qfix.current_index,
        old(model).qfix.entries@.len() > 0 ==> {
            let n = old(model).qfix.entries@.len();
            let i = old(model).qfix.current_index;
            let next = if i > 0 {
                i - 1
            } else {
                n - 1
            };
            &&& final(model).qfix.current_index == next
            &&& next < n ==> r@.len() == 2 && r@[0] == additional_action && previews(
                r@[1],
                old(model).qfix.entries@[next],
            )
        },
{
    let n = model.qfix.entries.len();
    if n == 0 {
        let mut v: Vec<Action> = Vec::new();
        v.push(additional_action);
        proof {
            assert(v@ =~= seq![additional_action]);
        }
        return v;
    }
    let next = if model.qfix.current_index > 0 {
        model.qfix.current_index - 1
    } else {
        n - 1
    };
    model.qfix.current_index = next;
    let mut v: Vec<Action> = Vec::new();
    if next < n {
        v.push(additional_action);
        v.push(emit_keymap(KeymapMessage::NavigateToPathAsPreview(model.qfix.entries[next].clone())));
    } else {
        v.push(emit_keymap(KeymapMessage::ExecuteCommandString(String::from_str("cN"))));
    }
    v
}

/// Toggles each current-directory entry in the quickfix list, with its sign.
pub fn invert_qfix_selection_in_current(model: &mut Model, additional_action: Action) -> (r: Vec<
    Action,
>)
    requires
        old(model).wf(),
    ensures
        final(model).wf(),
        r@ == seq![additional_action],
        paths_set(final(model).qfix.entries@) == toggled(
            paths_set(old(model).qfix.entries@),
            line_paths(dir_of(*old(model)), old(model).files.current.buffer.lines@),
        ),
        final(model).files.current.buffer.lines@.len() == old(model).files.current.buffer.lines@.len(),
{
    qfix_pass(model, true);
    let mut v: Vec<Action> = Vec::new();
    v.push(additional_action);
    proof {
        assert(v@ =~= seq![additional_action]);
    }
    v
}

} // verus!
