use vstd::prelude::*;

use crate::buffer::{find_line, revalidated, validate_cursor, BufferLine, SignIdentifier, TextBuffer};
use crate::update::qfix::{contains_path, set_sign, unset_sign};
use crate::enumerate::strings;
use crate::message::Mode;
use crate::model::Model;
use crate::order::{lemma_lex_asymmetric, lemma_lex_total, lemma_lex_transitive, lex_lt, str_lt};
use crate::paths::{file_name, file_name_of, join, joined_path, parent, parent_of};

verus! {

/// The texts of a run of lines.
pub open spec fn contents(lines: Seq<BufferLine>) -> Seq<Seq<char>> {
    lines.map_values(|l: BufferLine| l.content@)
}

/// Lines in ascending order of their text.
pub open spec fn sorted_asc(s: Seq<Seq<char>>) -> bool {
    forall|i: int, j: int| 0 <= i < j < s.len() ==> !lex_lt(#[trigger] s[j], #[trigger] s[i])
}

proof fn lemma_insert_asc(s: Seq<Seq<char>>, x: Seq<char>, p: int)
    requires
        sorted_asc(s),
        0 <= p <= s.len(),
        forall|i: int| 0 <= i < p ==> !lex_lt(x, #[trigger] s[i]),
        p < s.len() ==> lex_lt(x, s[p]),
    ensures
        sorted_asc(s.insert(p, x)),
{
    let t = s.insert(p, x);
    assert forall|i: int, j: int| 0 <= i < j < t.len() implies !lex_lt(#[trigger] t[j], #[trigger] t[i]) by {
        if j < p {
            assert(t[i] == s[i] && t[j] == s[j]);
        } else if j == p {
            assert(t[i] == s[i]);
        } else if i > p {
            assert(t[i] == s[i - 1] && t[j] == s[j - 1]);
        } else if i == p {
            assert(t[j] == s[j - 1]);
            if lex_lt(s[j - 1], x) {
                if j - 1 == p {
                    lemma_lex_asymmetric(x, s[p]);
                } else {
                    assert(!lex_lt(s[j - 1], s[p]));
                    if s[p] != s[j - 1] {
                        lemma_lex_total(s[p], s[j - 1]);
                        lemma_lex_transitive(x, s[p], s[j - 1]);
                        lemma_lex_asymmetric(x, s[j - 1]);
                    } else {
                        lemma_lex_asymmetric(x, s[p]);
                    }
                }
            }
        } else {
            assert(t[i] == s[i] && t[j] == s[j - 1]);
        }
    }
}

/// Adds a line for each of `names` to `buffer`: a line that already holds the
/// name is replaced, others are inserted in order when `sorted` is set, else
/// appended. The cursor is re-clamped afterwards.
pub fn add_names(buffer: &mut TextBuffer, names: Vec<String>, sorted: bool)
    requires
        old(buffer).wf(),
    ensures
        final(buffer).wf(),
        contents(final(buffer).lines@).to_set() == contents(old(buffer).lines@).to_set().union(
            names@.map_values(|n: String| n@).to_set(),
        ),
        sorted && sorted_asc(contents(old(buffer).lines@)) ==> sorted_asc(
            contents(final(buffer).lines@),
        ),
        final(buffer).view_port.height > 0 ==> final(buffer).cursor_in_view(),
{
    let n = names.len();
    let ghost start = contents(buffer.lines@).to_set();
    let ghost added = names@.map_values(|n: String| n@);
    let mut names = names;
    let mut k: usize = 0;
    let ghost all_names = names@;
    proof {
        assert(added.take(0).to_set() =~= Set::<Seq<char>>::empty());
        assert(start.union(added.take(0).to_set()) =~= start);
    }
    while k < n
        invariant
            n == all_names.len(),
            names@.len() == n,
            forall|j: int| k <= j < n ==> names@[j] == all_names[j],
            added == all_names.map_values(|n: String| n@),
            k <= n,
            buffer.wf(),
            contents(buffer.lines@).to_set() == start.union(added.take(k as int).to_set()),
            sorted && sorted_asc(contents(old(buffer).lines@)) ==> sorted_asc(
                contents(buffer.lines@),
            ),
        decreases n - k,
    {
        let mut name = String::new();
        std::mem::swap(&mut name, &mut names[k]);
        let ghost x = name@;
        assert(x == added[k as int]);
        let ghost before = contents(buffer.lines@);
        match find_line(&buffer.lines, &name) {
            Some(i) => {
                buffer.lines.set(i, BufferLine::from_name(name));
                proof {
                    assert(contents(buffer.lines@) =~= before.update(i as int, x));
                    assert(before[i as int] == x);
                    assert(contents(buffer.lines@) =~= before);
                }
            },
            None => {
                if sorted {
                    let len = buffer.lines.len();
                    let mut p: usize = 0;
                    while p < len && !str_lt(&name, &buffer.lines[p].content)
                        invariant
                            len == buffer.lines@.len(),
                            before == contents(buffer.lines@),
                            x == name@,
                            p <= len,
                            forall|i: int| 0 <= i < p ==> !lex_lt(x, #[trigger] before[i]),
                        decreases len - p,
                    {
                        assert(before[p as int] == buffer.lines@[p as int].content@);
                        p = p + 1;
                    }
                    assert(p < len ==> before[p as int] == buffer.lines@[p as int].content@);
                    buffer.lines.insert(p, BufferLine::from_name(name));
                    proof {
                        assert(contents(buffer.lines@) =~= before.insert(p as int, x));
                        if sorted_asc(contents(old(buffer).lines@)) {
                            lemma_insert_asc(before, x, p as int);
                        }
                        lemma_set_insert(before, p as int, x);
                    }
                } else {
                    let len = buffer.lines.len();
                    buffer.lines.push(BufferLine::from_name(name));
                    proof {
                        assert(contents(buffer.lines@) =~= before.insert(len as int, x));
                        lemma_set_insert(before, len as int, x);
                    }
                }
                proof {
                    if buffer.cursor is Some {
                        assert(buffer.lines@.len() > before.len());
                    }
                }
            },
        }
        proof {
            assert(added.take(k + 1) =~= added.take(k as int).push(x));
            lemma_set_insert(added.take(k as int), k as int, x);
            assert(added.take(k as int).insert(k as int, x) =~= added.take(k + 1));
            if before.contains(x) {
                assert(before.to_set().contains(x));
            }
            assert(contents(buffer.lines@).to_set() =~= start.union(added.take(k + 1).to_set()));
        }
        k = k + 1;
    }
    proof {
        assert(added.take(n as int) =~= added);
    }
    validate_cursor(buffer);
}

pub proof fn lemma_set_insert(s: Seq<Seq<char>>, p: int, x: Seq<char>)
    requires
        0 <= p <= s.len(),
    ensures
        s.insert(p, x).to_set() == s.to_set().insert(x),
{
    let t = s.insert(p, x);
    assert forall|y: Seq<char>| t.to_set().contains(y) <==> s.to_set().insert(x).contains(y) by {
        if t.contains(y) {
            let i = choose|i: int| 0 <= i < t.len() && t[i] == y;
            if i < p {
                assert(s[i] == y);
            } else if i > p {
                assert(s[i - 1] == y);
            }
        }
        if s.contains(y) {
            let i = choose|i: int| 0 <= i < s.len() && s[i] == y;
            if i < p {
                assert(t[i] == y);
            } else {
                assert(t[i + 1] == y);
            }
        }
        if y == x {
            assert(t[p] == x);
        }
    }
    assert(t.to_set() =~= s.to_set().insert(x));
}

/// Names of those `paths` that lie directly in directory `dir`, in order.
pub open spec fn names_in(paths: Seq<String>, dir: Seq<char>) -> Seq<Seq<char>>
    decreases paths.len(),
{
    if paths.len() == 0 {
        Seq::empty()
    } else {
        let rest = names_in(paths.drop_last(), dir);
        let p = paths.last()@;
        if parent_of(p) == Some(dir) && file_name_of(p) is Some {
            rest.push(file_name_of(p)->0)
        } else {
            rest
        }
    }
}

/// Names of those `paths` that lie directly in directory `dir`.
pub fn names_for(paths: &Vec<String>, dir: &String) -> (r: Vec<String>)
    ensures
        strings(r@) == names_in(paths@, dir@),
{
    let n = paths.len();
    let mut out: Vec<String> = Vec::new();
    let mut i: usize = 0;
    proof {
        assert(paths@.take(0) =~= Seq::<String>::empty());
        assert(strings(out@) =~= Seq::<Seq<char>>::empty());
    }
    while i < n
        invariant
            n == paths@.len(),
            i <= n,
            strings(out@) == names_in(paths@.take(i as int), dir@),
        decreases n - i,
    {
        let ghost before = out@;
        proof {
            assert(paths@.take(i + 1).drop_last() =~= paths@.take(i as int));
            assert(paths@.take(i + 1).last() == paths@[i as int]);
        }
        match parent(&paths[i]) {
            Some(d) => {
                if d == *dir {
                    match file_name(&paths[i]) {
                        Some(name) => {
                            out.push(name);
                            proof {
                                assert(strings(out@) =~= strings(before).push(out@.last()@));
                            }
                        },
                        None => {},
                    }
                }
            },
            None => {},
        }
        i = i + 1;
    }
    proof {
        assert(paths@.take(n as int) =~= paths@);
    }
    out
}

/// Index of the first line holding `text`.
pub open spec fn first_line_with(lines: Seq<BufferLine>, text: Seq<char>) -> int {
    choose|i: int|
        0 <= i < lines.len() && lines[i].content@ == text && forall|j: int|
            0 <= j < i ==> lines[j].content@ != text
}

/// Some line holds `text`.
pub open spec fn has_line(lines: Seq<BufferLine>, text: Seq<char>) -> bool {
    exists|i: int| 0 <= i < lines.len() && lines[i].content@ == text
}

/// Removes the first line holding `name` and re-clamps the cursor; returns
/// whether there was one. The buffer is unchanged otherwise.
pub fn remove_name(buffer: &mut TextBuffer, name: &String) -> (r: bool)
    requires
        old(buffer).wf(),
    ensures
        r == has_line(old(buffer).lines@, name@),
        r ==> revalidated(
            *final(buffer),
            *old(buffer),
            old(buffer).lines@.remove(first_line_with(old(buffer).lines@, name@)),
        ),
        !r ==> *final(buffer) == *old(buffer),
{
    match find_line(&buffer.lines, name) {
        Some(i) => {
            proof {
                assert(0 <= i < buffer.lines@.len() && buffer.lines@[i as int].content@ == name@
                    && forall|j: int| 0 <= j < i ==> buffer.lines@[j].content@ != name@);
                let c = first_line_with(buffer.lines@, name@);
                if c < i {
                    assert(buffer.lines@[c].content@ != name@);
                }
                if c > i {
                    assert(buffer.lines@[i as int].content@ != name@);
                }
            }
            let _ = buffer.lines.remove(i);
            let ghost mid = *buffer;
            validate_cursor(buffer);
            proof {
                assert(mid.view_port == old(buffer).view_port);
                assert(mid.cursor == old(buffer).cursor);
            }
            true
        },
        None => false,
    }
}

/// Slot buffer `f` is `o` with the names of `paths` in directory `slot`
/// added, kept in order when `sorted`; untouched when the slot shows no path.
pub open spec fn added_to(f: TextBuffer, o: TextBuffer, slot: Option<String>, paths: Seq<String>, sorted: bool) -> bool {
    match slot {
        Some(d) => {
            &&& contents(f.lines@).to_set() == contents(o.lines@).to_set().union(names_in(paths, d@).to_set())
            &&& (sorted && sorted_asc(contents(o.lines@)) ==> sorted_asc(contents(f.lines@)))
            &&& (f.view_port.height > 0 ==> f.cursor_in_view())
        },
        None => f == o,
    }
}

/// Some mark names path `p`.
pub open spec fn marked(marks: Seq<(char, String)>, p: Seq<char>) -> bool {
    exists|i: int| 0 <= i < marks.len() && #[trigger] marks[i].1@ == p
}

fn is_marked(marks: &Vec<(char, String)>, p: &String) -> (r: bool)
    ensures
        r == marked(marks@, p@),
{
    let n = marks.len();
    let mut i: usize = 0;
    while i < n
        invariant
            n == marks@.len(),
            i <= n,
            forall|j: int| 0 <= j < i ==> (#[trigger] marks@[j]).1@ != p@,
        decreases n - i,
    {
        if marks[i].1 == *p {
            return true;
        }
        i = i + 1;
    }
    false
}

/// Sets each line's mark and quickfix signs from whether its path in `dir`
/// is marked or in the quickfix list; text, cursor and viewport stay.
pub fn refresh_signs(buffer: &mut TextBuffer, dir: &String, marks: &Vec<(char, String)>, qfix: &Vec<String>)
    ensures
        final(buffer).lines@.len() == old(buffer).lines@.len(),
        contents(final(buffer).lines@) == contents(old(buffer).lines@),
        final(buffer).cursor == old(buffer).cursor,
        final(buffer).view_port == old(buffer).view_port,
        forall|i: int|
            0 <= i < final(buffer).lines@.len() ==> {
                let l = #[trigger] final(buffer).lines@[i];
                let p = joined_path(dir@, l.content@);
                &&& l.signs@.contains(SignIdentifier::Mark) == marked(marks@, p)
                &&& l.signs@.contains(SignIdentifier::QuickFix) == exists|k: int|
                    0 <= k < qfix@.len() && qfix@[k]@ == p
            },
{
    let n = buffer.lines.len();
    let mut i: usize = 0;
    while i < n
        invariant
            n == buffer.lines@.len(),
            n == old(buffer).lines@.len(),
            buffer.cursor == old(buffer).cursor,
            buffer.view_port == old(buffer).view_port,
            i <= n,
            forall|j: int| 0 <= j < n ==> (#[trigger] buffer.lines@[j]).content == old(buffer).lines@[j].content,
            forall|j: int|
                0 <= j < i ==> {
                    let l = #[trigger] buffer.lines@[j];
                    let p = joined_path(dir@, l.content@);
                    &&& l.signs@.contains(SignIdentifier::Mark) == marked(marks@, p)
                    &&& l.signs@.contains(SignIdentifier::QuickFix) == exists|k: int|
                        0 <= k < qfix@.len() && qfix@[k]@ == p
                },
        decreases n - i,
    {
        let path = join(dir, &buffer.lines[i].content);
        if is_marked(marks, &path) {
            set_sign(&mut buffer.lines[i], SignIdentifier::Mark);
        } else {
            unset_sign(&mut buffer.lines[i], SignIdentifier::Mark);
        }
        if contains_path(qfix, &path) {
            set_sign(&mut buffer.lines[i], SignIdentifier::QuickFix);
        } else {
            unset_sign(&mut buffer.lines[i], SignIdentifier::QuickFix);
        }
        i = i + 1;
    }
    proof {
        assert(contents(buffer.lines@) =~= contents(old(buffer).lines@));
    }
}

/// Adds `paths` to each slot that shows their directory. The current slot is
/// kept in order only in navigation mode, the parent and preview slots always.
pub fn add_paths(model: &mut Model, paths: &Vec<String>)
    requires
        old(model).wf(),
    ensures
        final(model).wf(),
        final(model).files.current.path == old(model).files.current.path,
        final(model).files.parent.path == old(model).files.parent.path,
        final(model).files.preview.path == old(model).files.preview.path,
        added_to(final(model).files.current.buffer, old(model).files.current.buffer, old(model).files.current.path, paths@, old(model).mode == Mode::Navigation),
        added_to(final(model).files.parent.buffer, old(model).files.parent.buffer, old(model).files.parent.path, paths@, true),
        added_to(final(model).files.preview.buffer, old(model).files.preview.buffer, old(model).files.preview.path, paths@, true),
{
    let sort_current = model.mode == Mode::Navigation;
    if let Some(dir) = &model.files.current.path {
        let names = names_for(paths, dir);
        add_names(&mut model.files.current.buffer, names, sort_current);
        refresh_signs(&mut model.files.current.buffer, dir, &model.marks.entries, &model.qfix.entries);
    }
    if let Some(dir) = &model.files.preview.path {
        let names = names_for(paths, dir);
        add_names(&mut model.files.preview.buffer, names, true);
        refresh_signs(&mut model.files.preview.buffer, dir, &model.marks.entries, &model.qfix.entries);
    }
    if let Some(dir) = &model.files.parent.path {
        let names = names_for(paths, dir);
        add_names(&mut model.files.parent.buffer, names, true);
        refresh_signs(&mut model.files.parent.buffer, dir, &model.marks.entries, &model.qfix.entries);
    }
}

/// Adds newly appeared paths to the slots showing their directories.
pub fn add(model: &mut Model, paths: &Vec<String>)
    requires
        old(model).wf(),
    ensures
        final(model).wf(),
        final(model).files.current.path == old(model).files.current.path,
        final(model).files.parent.path == old(model).files.parent.path,
        final(model).files.preview.path == old(model).files.preview.path,
        added_to(final(model).files.current.buffer, old(model).files.current.buffer, old(model).files.current.path, paths@, old(model).mode == Mode::Navigation),
        added_to(final(model).files.parent.buffer, old(model).files.parent.buffer, old(model).files.parent.path, paths@, true),
        added_to(final(model).files.preview.buffer, old(model).files.preview.buffer, old(model).files.preview.path, paths@, true),
{
    add_paths(model, paths);
}

/// Whether slot path `slot` is directory `dir`.
pub open spec fn shows(slot: Option<String>, dir: Option<Seq<char>>) -> bool {
    slot matches Some(s) && dir == Some(s@)
}

pub fn slot_is(slot: &Option<String>, dir: &String) -> (r: bool)
    ensures
        r == shows(*slot, Some(dir@)),
{
    match slot {
        Some(s) => *s == *dir,
        None => false,
    }
}

/// `f` is `o` after removing its first line holding `n`, when it has one
/// (then `r`), and unchanged otherwise.
pub open spec fn removal(f: TextBuffer, o: TextBuffer, n: Seq<char>, r: bool) -> bool {
    if has_line(o.lines@, n) {
        r && revalidated(f, o, o.lines@.remove(first_line_with(o.lines@, n)))
    } else {
        !r && f == o
    }
}

/// The slots after a vanished path's line left the first slot, of current,
/// preview and parent, that shows its directory; no slot changes when none
/// does.
pub open spec fn removed_from_slots(f: Model, o: Model, path: Seq<char>, r: bool) -> bool {
    let (c, pa, pr) = (o.files.current.buffer, o.files.parent.buffer, o.files.preview.buffer);
    let (fc, fpa, fpr) = (f.files.current.buffer, f.files.parent.buffer, f.files.preview.buffer);
    &&& f.files.current.path == o.files.current.path
    &&& f.files.parent.path == o.files.parent.path
    &&& f.files.preview.path == o.files.preview.path
    &&& match (parent_of(path), file_name_of(path)) {
        (Some(d), Some(n)) => if shows(o.files.current.path, Some(d)) {
            removal(fc, c, n, r) && fpa == pa && fpr == pr
        } else if shows(o.files.preview.path, Some(d)) {
            removal(fpr, pr, n, r) && fc == c && fpa == pa
        } else if shows(o.files.parent.path, Some(d)) {
            removal(fpa, pa, n, r) && fc == c && fpr == pr
        } else {
            !r && fc == c && fpa == pa && fpr == pr
        },
        _ => !r && fc == c && fpa == pa && fpr == pr,
    }
}

/// Removes the line of a vanished path from the first slot, of current,
/// preview and parent, that shows its directory. Returns whether a line went.
pub fn remove_path(model: &mut Model, path: &String) -> (r: bool)
    requires
        old(model).wf(),
    ensures
        final(model).wf(),
        removed_from_slots(*final(model), *old(model), path@, r),
{
    let dir = match parent(path) {
        Some(d) => d,
        None => return false,
    };
    let name = match file_name(path) {
        Some(n) => n,
        None => return false,
    };
    if slot_is(&model.files.current.path, &dir) {
        remove_name(&mut model.files.current.buffer, &name)
    } else if slot_is(&model.files.preview.path, &dir) {
        remove_name(&mut model.files.preview.buffer, &name)
    } else if slot_is(&model.files.parent.path, &dir) {
        remove_name(&mut model.files.parent.buffer, &name)
    } else {
        false
    }
}

/// Removes a vanished path's line from the slot showing its directory; the
/// cursor stays on a valid line, or there is none once the slot is empty.
pub fn remove(model: &mut Model, path: &String) -> (r: bool)
    requires
        old(model).wf(),
    ensures
        final(model).wf(),
        removed_from_slots(*final(model), *old(model), path@, r),
{
    remove_path(model, path)
}

} // verus!
