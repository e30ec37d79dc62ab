use vstd::prelude::*;

use crate::action::Action;
use crate::buffer::{focus_first, set_content, set_cursor_to_line_content, BufferLine};
use crate::enumerate::strings;
use crate::junkyard::{composed, ids_of, junk_step};
use crate::model::Model;
use crate::paths::{join, joined_path};
use crate::task::Task;
use crate::update::path::contents;

verus! {

/// A filesystem task that saving asks for, over paths and ids.
pub enum SaveStep {
    Add(Seq<char>),
    Delete(Seq<char>),
    Evict(Seq<char>),
    Rename(Seq<char>, Seq<char>),
    Trash(Seq<char>, Seq<char>),
}

/// Action `a` is the task `st` stands for.
pub open spec fn describes(a: Action, st: SaveStep) -> bool {
    match st {
        SaveStep::Add(p) => a matches Action::Task(Task::AddPath(x)) && x@ == p,
        SaveStep::Delete(p) => a matches Action::Task(Task::DeletePath(x)) && x@ == p,
        SaveStep::Evict(id) => a matches Action::Task(Task::DeleteJunkEntry(j)) && j.id@ == id,
        SaveStep::Rename(p, q) => a matches Action::Task(Task::RenamePath(x, y)) && x@ == p && y@ == q,
        SaveStep::Trash(id, target) => a matches Action::Task(Task::TrashPath(j)) && j.id@ == id
            && j.target_path@ == target,
    }
}

/// The actions are the steps, one for one, in order.
pub open spec fn described(acts: Seq<Action>, steps: Seq<SaveStep>) -> bool {
    acts.len() == steps.len() && forall|i: int| 0 <= i < acts.len() ==> #[trigger] describes(acts[i], steps[i])
}

/// What saving one line asks for: nothing when it reads as listed; its
/// deletion when emptied; a rename when changed; the creation of a new entry
/// for a line with text that was not listed.
pub open spec fn line_step(dir: Seq<char>, l: BufferLine) -> Option<SaveStep> {
    match l.origin {
        Some(o) => if l.content@ == o@ {
            None
        } else if l.content@.len() == 0 {
            Some(SaveStep::Delete(joined_path(dir, o@)))
        } else {
            Some(SaveStep::Rename(joined_path(dir, o@), joined_path(dir, l.content@)))
        },
        None => if l.content@.len() == 0 {
            None
        } else {
            Some(SaveStep::Add(joined_path(dir, l.content@)))
        },
    }
}

pub open spec fn opt_steps(o: Option<SaveStep>) -> Seq<SaveStep> {
    match o {
        Some(st) => seq![st],
        None => Seq::empty(),
    }
}

/// The steps of all lines, in order.
pub open spec fn line_steps(dir: Seq<char>, lines: Seq<BufferLine>) -> Seq<SaveStep>
    decreases lines.len(),
{
    if lines.len() == 0 {
        Seq::empty()
    } else {
        line_steps(dir, lines.drop_last()) + opt_steps(line_step(dir, lines.last()))
    }
}

/// Line `l` was listed as `name`.
pub open spec fn listed_as(l: BufferLine, name: Seq<char>) -> bool {
    l.origin matches Some(o) && o@ == name
}

/// Some line still carries `name` as the name it was listed with.
pub open spec fn listed(lines: Seq<BufferLine>, name: Seq<char>) -> bool {
    exists|i: int| 0 <= i < lines.len() && #[trigger] listed_as(lines[i], name)
}

/// The register's ids and the steps after trashing, one by one, each of
/// `names` in `dir` that no line carries any more, at `millis`: the trash
/// step with the entry's id, then the eviction the bound causes, if any.
pub open spec fn trash_run(
    ids: Seq<Seq<char>>,
    dir: Seq<char>,
    lines: Seq<BufferLine>,
    names: Seq<Seq<char>>,
    millis: nat,
) -> (Seq<Seq<char>>, Seq<SaveStep>)
    decreases names.len(),
{
    if names.len() == 0 {
        (ids, Seq::empty())
    } else {
        let prev = trash_run(ids, dir, lines, names.drop_last(), millis);
        let n = names.last();
        if listed(lines, n) {
            prev
        } else {
            let target = joined_path(dir, n);
            let id = composed(millis, target);
            let st = junk_step(prev.0, id);
            (
                st.0,
                prev.1 + seq![SaveStep::Trash(id, target)] + match st.1 {
                    Some(y) => seq![SaveStep::Evict(y)],
                    None => Seq::empty(),
                },
            )
        }
    }
}

/// The texts of the lines that have text, in order.
pub open spec fn texts_kept(lines: Seq<BufferLine>) -> Seq<Seq<char>>
    decreases lines.len(),
{
    if lines.len() == 0 {
        Seq::empty()
    } else {
        texts_kept(lines.drop_last()) + if lines.last().content@.len() > 0 {
            seq![lines.last().content@]
        } else {
            Seq::empty()
        }
    }
}

proof fn lemma_kept_contains(lines: Seq<BufferLine>, v: int)
    requires
        0 <= v < lines.len(),
        lines[v].content@.len() > 0,
    ensures
        texts_kept(lines).contains(lines[v].content@),
    decreases lines.len(),
{
    let k = texts_kept(lines.drop_last());
    if v == lines.len() - 1 {
        assert(texts_kept(lines)[k.len() as int] == lines[v].content@);
    } else {
        assert(lines.drop_last()[v] == lines[v]);
        lemma_kept_contains(lines.drop_last(), v);
        let j = choose|j: int| 0 <= j < k.len() && k[j] == lines[v].content@;
        assert(texts_kept(lines)[j] == k[j]);
    }
}

fn save_line(dir: &String, line: &BufferLine) -> (r: Option<Action>)
    ensures
        match line_step(dir@, *line) {
            Some(st) => r matches Some(a) && describes(a, st),
            None => r is None,
        },
{
    let empty = line.content.as_str().unicode_len() == 0;
    match &line.origin {
        Some(o) => {
            if line.content == *o {
                None
            } else if empty {
                Some(Action::Task(Task::DeletePath(join(dir, o))))
            } else {
                Some(Action::Task(Task::RenamePath(join(dir, o), join(dir, &line.content))))
            }
        },
        None => {
            if empty {
                None
            } else {
                Some(Action::Task(Task::AddPath(join(dir, &line.content))))
            }
        },
    }
}

fn is_listed(lines: &Vec<BufferLine>, name: &String) -> (r: bool)
    ensures
        r == listed(lines@, name@),
{
    let n = lines.len();
    let mut i: usize = 0;
    while i < n
        invariant
            n == lines@.len(),
            i <= n,
            forall|j: int| 0 <= j < i ==> !listed_as(#[trigger] lines@[j], name@),
        decreases n - i,
    {
        if let Some(o) = &lines[i].origin {
            if *o == *name {
                assert(listed_as(lines@[i as int], name@));
                return true;
            }
        }
        i = i + 1;
    }
    false
}

/// The lines with text, each now standing for the entry of that name.
fn settle(lines: Vec<BufferLine>) -> (r: Vec<BufferLine>)
    ensures
        contents(r@) == texts_kept(lines@),
        forall|i: int| 0 <= i < r@.len() ==> (#[trigger] r@[i]).origin == Some(r@[i].content),
{
    let ghost all = lines@;
    let mut lines = lines;
    let mut out: Vec<BufferLine> = Vec::new();
    let n = lines.len();
    let mut i: usize = 0;
    proof {
        assert(all.take(0) =~= Seq::<BufferLine>::empty());
        assert(contents(out@) =~= Seq::<Seq<char>>::empty());
    }
    while i < n
        invariant
            n == all.len(),
            lines@.len() == n,
            forall|j: int| i <= j < n ==> lines@[j] == all[j],
            i <= n,
            contents(out@) == texts_kept(all.take(i as int)),
            forall|j: int| 0 <= j < out@.len() ==> (#[trigger] out@[j]).origin == Some(out@[j].content),
        decreases n - i,
    {
        let mut line = BufferLine::from_content(String::new());
        std::mem::swap(&mut line, &mut lines[i]);
        proof {
            assert(all.take(i + 1).drop_last() =~= all.take(i as int));
            assert(all.take(i + 1).last() == all[i as int]);
        }
        if line.content.as_str().unicode_len() > 0 {
            line.origin = Some(line.content.clone());
            let ghost before = out@;
            out.push(line);
            proof {
                assert(contents(out@) =~= contents(before).push(all[i as int].content@));
            }
        } else {
            proof {
                assert(texts_kept(all.take(i + 1)) =~= texts_kept(all.take(i as int)));
            }
        }
        i = i + 1;
    }
    proof {
        assert(all.take(n as int) =~= all);
    }
    out
}

/// Writes the edits of the current directory to disk, as tasks, in order:
/// first, line by line, the rename, deletion or creation each edited line
/// asks for; then, for each entry of `on_disk` that no line carries any more,
/// its move to the trash register, with the id of its path at `millis` and
/// its archive in `junk_dir`, followed by the deletion of the entry the bound
/// evicts, if any. Afterwards the buffer holds the lines with text, in order,
/// each standing for its entry, and the cursor stays on the text it was on.
pub fn persist_path_changes(
    model: &mut Model,
    on_disk: &Vec<String>,
    millis: u64,
    junk_dir: &String,
) -> (r: Vec<Action>)
    requires
        old(model).wf(),
    ensures
        final(model).wf(),
        old(model).files.current.path is None ==> r@.len() == 0 && *final(model) == *old(model),
        old(model).files.current.path matches Some(dir) ==> {
            let lines = old(model).files.current.buffer.lines@;
            let run = trash_run(ids_of(old(model).junk.entries@), dir@, lines, strings(on_disk@), millis as nat);
            let now = final(model).files.current.buffer;
            &&& described(r@, line_steps(dir@, lines) + run.1)
            &&& ids_of(final(model).junk.entries@) == run.0
            &&& contents(now.lines@) == texts_kept(lines)
            &&& forall|i: int| 0 <= i < now.lines@.len() ==> (#[trigger] now.lines@[i]).origin == Some(now.lines@[i].content)
            &&& (now.lines@.len() > 0 ==> now.cursor is Some)
            &&& match old(model).files.current.buffer.cursor {
                Some(c) => lines[c.vertical_index as int].content@.len() > 0 ==> (now.cursor matches Some(n)
                    && now.lines@[n.vertical_index as int].content@ == lines[c.vertical_index as int].content@),
                None => true,
            }
        },
{
    let dir = match &model.files.current.path {
        Some(d) => d.clone(),
        None => return Vec::new(),
    };
    let mut actions: Vec<Action> = Vec::new();
    let ghost lines = model.files.current.buffer.lines@;
    let ghost ids0 = ids_of(model.junk.entries@);
    let ghost names = strings(on_disk@);
    let n = model.files.current.buffer.lines.len();
    let mut i: usize = 0;
    proof {
        assert(lines.take(0) =~= Seq::<BufferLine>::empty());
        assert(line_steps(dir@, lines.take(0)) =~= Seq::<SaveStep>::empty());
    }
    while i < n
        invariant
            n == lines.len(),
            lines == model.files.current.buffer.lines@,
            model.files.current == old(model).files.current,
            model.files.current.path == Some(dir),
            i <= n,
            described(actions@, line_steps(dir@, lines.take(i as int))),
        decreases n - i,
    {
        let a = save_line(&dir, &model.files.current.buffer.lines[i]);
        let ghost before = actions@;
        proof {
            assert(lines.take(i + 1).drop_last() =~= lines.take(i as int));
            assert(lines.take(i + 1).last() == lines[i as int]);
        }
        match a {
            Some(x) => {
                actions.push(x);
                proof {
                    let st = line_step(dir@, lines[i as int])->0;
                    assert(line_steps(dir@, lines.take(i + 1)) =~= line_steps(dir@, lines.take(i as int)).push(st));
                    assert forall|j: int| 0 <= j < actions@.len() implies #[trigger] describes(
                        actions@[j],
                        line_steps(dir@, lines.take(i + 1))[j],
                    ) by {
                        if j < before.len() {
                            assert(describes(before[j], line_steps(dir@, lines.take(i as int))[j]));
                        }
                    }
                }
            },
            None => {
                proof {
                    assert(line_steps(dir@, lines.take(i + 1)) =~= line_steps(dir@, lines.take(i as int)));
                }
            },
        }
        i = i + 1;
    }
    proof {
        assert(lines.take(n as int) =~= lines);
        assert(names.take(0) =~= Seq::<Seq<char>>::empty());
        assert(line_steps(dir@, lines) + trash_run(ids0, dir@, lines, names.take(0), millis as nat).1 =~= line_steps(dir@, lines));
    }
    let m = on_disk.len();
    let mut k: usize = 0;
    while k < m
        invariant
            m == on_disk@.len(),
            names == strings(on_disk@),
            k <= m,
            lines == model.files.current.buffer.lines@,
            model.files.current == old(model).files.current,
            model.files.current.path == Some(dir),
            model.wf(),
            ids_of(model.junk.entries@) == trash_run(ids0, dir@, lines, names.take(k as int), millis as nat).0,
            described(actions@, line_steps(dir@, lines) + trash_run(ids0, dir@, lines, names.take(k as int), millis as nat).1),
        decreases m - k,
    {
        let ghost prev = trash_run(ids0, dir@, lines, names.take(k as int), millis as nat);
        let ghost pre_steps = line_steps(dir@, lines) + prev.1;
        proof {
            assert(names.take(k + 1).drop_last() =~= names.take(k as int));
            assert(names.take(k + 1).last() == on_disk@[k as int]@);
        }
        if !is_listed(&model.files.current.buffer.lines, &on_disk[k]) {
            let target = join(&dir, &on_disk[k]);
            let (job, evicted) = model.junk.trash(millis, &target, junk_dir);
            let ghost before = actions@;
            actions.push(Action::Task(Task::TrashPath(job)));
            let ghost mid = actions@;
            let ghost id = composed(millis as nat, target@);
            if let Some(old_job) = evicted {
                actions.push(Action::Task(Task::DeleteJunkEntry(old_job)));
            }
            proof {
                let st = junk_step(prev.0, id);
                let added = seq![SaveStep::Trash(id, target@)] + match st.1 {
                    Some(y) => seq![SaveStep::Evict(y)],
                    None => Seq::<SaveStep>::empty(),
                };
                let now_steps = line_steps(dir@, lines) + trash_run(ids0, dir@, lines, names.take(k + 1), millis as nat).1;
                assert(now_steps =~= pre_steps + added);
                assert forall|j: int| 0 <= j < actions@.len() implies #[trigger] describes(actions@[j], now_steps[j]) by {
                    if j < before.len() {
                        assert(describes(before[j], pre_steps[j]));
                        assert(actions@[j] == before[j]);
                    } else if j == before.len() {
                        assert(actions@[j] == mid[j]);
                    }
                }
            }
        } else {
            proof {
                assert(trash_run(ids0, dir@, lines, names.take(k + 1), millis as nat) == prev);
            }
        }
        k = k + 1;
    }
    proof {
        assert(names.take(m as int) =~= names);
    }
    let selection = match model.files.current.buffer.cursor {
        Some(c) => if model.files.current.buffer.lines[c.vertical_index].content.as_str().unicode_len() > 0 {
            Some(model.files.current.buffer.lines[c.vertical_index].content.clone())
        } else {
            None
        },
        None => None,
    };
    proof {
        if selection is Some {
            let c = old(model).files.current.buffer.cursor->0;
            assert(selection->0@ == lines[c.vertical_index as int].content@);
            lemma_kept_contains(lines, c.vertical_index as int);
        }
    }
    let mut taken: Vec<BufferLine> = Vec::new();
    std::mem::swap(&mut taken, &mut model.files.current.buffer.lines);
    model.files.current.buffer.cursor = None;
    set_content(&mut model.files.current.buffer, settle(taken));
    if let Some(s) = &selection {
        proof {
            let kept = texts_kept(lines);
            let j = choose|j: int| 0 <= j < kept.len() && kept[j] == s@;
            assert(contents(model.files.current.buffer.lines@)[j] == model.files.current.buffer.lines@[j].content@);
        }
        set_cursor_to_line_content(&mut model.files.current.buffer, s);
    }
    focus_first(&mut model.files.current.buffer);
    actions
}

} // verus!
