use vstd::prelude::*;

use crate::buffer::{empty_buffer, TextBuffer};
use crate::junkyard::Junkyard;
use crate::message::Mode;
use crate::paths::{file_name, file_name_of, parent, parent_of};
use crate::register::Register;
use crate::task::TaskRegistry;
use crate::viewport::{LineNumber, ViewPort};

verus! {

/// Loading state of a directory buffer.
#[derive(Clone, Copy, Debug, PartialEq, Eq, Structural)]
pub enum DirectoryBufferState {
    Error,
    Loading,
    Ready,
}

/// One of the three displayed slots: the path it shows, if any, its loading
/// state and its text.
pub struct DirectoryBuffer {
    pub path: Option<String>,
    pub state: DirectoryBufferState,
    pub buffer: TextBuffer,
}

/// The three slots on screen.
#[derive(Clone, Copy, Debug, PartialEq, Eq, Structural)]
pub enum WindowType {
    Current,
    Parent,
    Preview,
}

/// Directory path and the name last selected in it, at most one entry per
/// directory.
pub struct History {
    pub entries: Vec<(String, String)>,
}

/// The selection recorded for directory `dir`.
pub open spec fn history_lookup(h: Seq<(String, String)>, dir: Seq<char>) -> Option<Seq<char>> {
    if exists|i: int| 0 <= i < h.len() && h[i].0@ == dir {
        let i = choose|i: int| 0 <= i < h.len() && h[i].0@ == dir;
        Some(h[i].1@)
    } else {
        None
    }
}

impl History {
    pub open spec fn wf(&self) -> bool {
        forall|i: int, j: int|
            0 <= i < j < self.entries@.len() ==> (#[trigger] self.entries@[i]).0@ != (
            #[trigger] self.entries@[j]).0@
    }

    pub fn new() -> (r: History)
        ensures
            r.wf(),
            r.entries@.len() == 0,
    {
        History { entries: Vec::new() }
    }

    /// The name last selected in directory `dir`.
    pub fn get_selection(&self, dir: &String) -> (r: Option<String>)
        requires
            self.wf(),
        ensures
            match history_lookup(self.entries@, dir@) {
                Some(s) => r matches Some(x) && x@ == s,
                None => r is None,
            },
    {
        let n = self.entries.len();
        let mut i: usize = 0;
        while i < n
            invariant
                n == self.entries@.len(),
                self.wf(),
                i <= n,
                forall|j: int| 0 <= j < i ==> self.entries@[j].0@ != dir@,
            decreases n - i,
        {
            if self.entries[i].0 == *dir {
                proof {
                    let c = choose|c: int| 0 <= c < self.entries@.len() && self.entries@[c].0@ == dir@;
                    if c != i {
                        assert(self.entries@[c].0@ != self.entries@[i as int].0@);
                    }
                }
                return Some(self.entries[i].1.clone());
            }
            i = i + 1;
        }
        None
    }

    /// Records that `name` is selected in directory `dir`.
    pub fn set_selection(&mut self, dir: String, name: String)
        requires
            old(self).wf(),
        ensures
            final(self).wf(),
            history_lookup(final(self).entries@, dir@) == Some(name@),
            forall|d: Seq<char>|
                d != dir@ ==> history_lookup(final(self).entries@, d) == history_lookup(
                    old(self).entries@,
                    d,
                ),
    {
        let n = self.entries.len();
        let mut i: usize = 0;
        while i < n
            invariant
                n == self.entries@.len(),
                self.entries@ == old(self).entries@,
                old(self).wf(),
                i <= n,
                forall|j: int| 0 <= j < i ==> self.entries@[j].0@ != dir@,
            decreases n - i,
        {
            if self.entries[i].0 == dir {
                let ghost before = self.entries@;
                self.entries.set(i, (dir, name));
                proof {
                    lemma_history_update(before, i as int, self.entries@);
                }
                return ;
            }
            i = i + 1;
        }
        let ghost before = self.entries@;
        self.entries.push((dir, name));
        proof {
            lemma_history_push(before, self.entries@);
        }
    }

    /// Records the selection that `path` stands for: its name, in its parent
    /// directory. The root records nothing.
    pub fn add(&mut self, path: &String)
        requires
            old(self).wf(),
        ensures
            final(self).wf(),
            match (parent_of(path@), file_name_of(path@)) {
                (Some(d), Some(n)) => history_lookup(final(self).entries@, d) == Some(n),
                _ => final(self).entries@ == old(self).entries@,
            },
    {
        match (parent(path), file_name(path)) {
            (Some(d), Some(n)) => self.set_selection(d, n),
            _ => {},
        }
    }
}

proof fn lemma_history_update(before: Seq<(String, String)>, i: int, after: Seq<(String, String)>)
    requires
        forall|a: int, b: int|
            0 <= a < b < before.len() ==> (#[trigger] before[a]).0@ != (#[trigger] before[b]).0@,
        0 <= i < before.len(),
        after.len() == before.len(),
        after[i].0@ == before[i].0@,
        forall|j: int| 0 <= j < before.len() && j != i ==> after[j] == before[j],
    ensures
        forall|a: int, b: int|
            0 <= a < b < after.len() ==> (#[trigger] after[a]).0@ != (#[trigger] after[b]).0@,
        history_lookup(after, before[i].0@) == Some(after[i].1@),
        forall|d: Seq<char>|
            d != before[i].0@ ==> history_lookup(after, d) == history_lookup(before, d),
{
    assert forall|a: int, b: int| 0 <= a < b < after.len() implies (#[trigger] after[a]).0@ != (
    #[trigger] after[b]).0@ by {
        assert(before[a].0@ != before[b].0@);
    }
    let k = before[i].0@;
    let c = choose|c: int| 0 <= c < after.len() && after[c].0@ == k;
    if c != i {
        assert(after[c].0@ != after[i].0@);
    }
    assert forall|d: Seq<char>| d != before[i].0@ implies history_lookup(after, d) == history_lookup(
        before,
        d,
    ) by {
        if exists|j: int| 0 <= j < before.len() && before[j].0@ == d {
            let j = choose|j: int| 0 <= j < before.len() && before[j].0@ == d;
            assert(after[j].0@ == d);
            let c2 = choose|c: int| 0 <= c < after.len() && after[c].0@ == d;
            if c2 != j {
                assert(after[c2].0@ != after[j].0@);
            }
            let c3 = choose|c: int| 0 <= c < before.len() && before[c].0@ == d;
            if c3 != j {
                assert(before[c3].0@ != before[j].0@);
            }
        } else {
            if exists|j: int| 0 <= j < after.len() && after[j].0@ == d {
                let j = choose|j: int| 0 <= j < after.len() && after[j].0@ == d;
                assert(before[j].0@ == d);
            }
        }
    }
}

proof fn lemma_history_push(before: Seq<(String, String)>, after: Seq<(String, String)>)
    requires
        forall|a: int, b: int|
            0 <= a < b < before.len() ==> (#[trigger] before[a]).0@ != (#[trigger] before[b]).0@,
        after.len() == before.len() + 1,
        forall|j: int| 0 <= j < before.len() ==> after[j] == before[j],
        forall|j: int| 0 <= j < before.len() ==> before[j].0@ != after.last().0@,
    ensures
        forall|a: int, b: int|
            0 <= a < b < after.len() ==> (#[trigger] after[a]).0@ != (#[trigger] after[b]).0@,
        history_lookup(after, after.last().0@) == Some(after.last().1@),
        forall|d: Seq<char>|
            d != after.last().0@ ==> history_lookup(after, d) == history_lookup(before, d),
{
    let n = before.len() as int;
    assert forall|a: int, b: int| 0 <= a < b < after.len() implies (#[trigger] after[a]).0@ != (
    #[trigger] after[b]).0@ by {
        if b < n {
            assert(before[a].0@ != before[b].0@);
        }
    }
    let k = after.last().0@;
    assert(after[n].0@ == k);
    let c = choose|c: int| 0 <= c < after.len() && after[c].0@ == k;
    if c != n {
        assert(after[c].0@ != after[n].0@);
    }
    assert forall|d: Seq<char>| d != k implies history_lookup(after, d) == history_lookup(before, d) by {
        if exists|j: int| 0 <= j < before.len() && before[j].0@ == d {
            let j = choose|j: int| 0 <= j < before.len() && before[j].0@ == d;
            assert(after[j].0@ == d);
            let c2 = choose|c: int| 0 <= c < after.len() && after[c].0@ == d;
            if c2 != j {
                assert(after[c2].0@ != after[j].0@);
            }
            let c3 = choose|c: int| 0 <= c < before.len() && before[c].0@ == d;
            if c3 != j {
                assert(before[c3].0@ != before[j].0@);
            }
        } else {
            if exists|j: int| 0 <= j < after.len() && after[j].0@ == d {
                let j = choose|j: int| 0 <= j < after.len() && after[j].0@ == d;
                if j < n {
                    assert(before[j].0@ == d);
                }
            }
        }
    }
}

/// Marks: a character naming a path.
pub struct Marks {
    pub entries: Vec<(char, String)>,
}

impl Marks {
    /// Each mark character appears once.
    pub open spec fn wf(&self) -> bool {
        forall|i: int, j: int|
            0 <= i < j < self.entries@.len() ==> (#[trigger] self.entries@[i]).0 != (
            #[trigger] self.entries@[j]).0
    }
}

/// The quickfix list: paths, the current one, and the command run on each.
pub struct QFix {
    pub entries: Vec<String>,
    pub current_index: usize,
    pub cdo: Option<String>,
}

/// What happens to the selection when a path is opened.
pub struct Settings {
    pub selection_to_file_on_open: Option<String>,
    pub selection_to_stdout_on_open: bool,
}

/// The three slots and the viewports they were given.
pub struct FileWindow {
    pub current: DirectoryBuffer,
    pub parent: DirectoryBuffer,
    pub preview: DirectoryBuffer,
}

/// All state of a session, owned by the update step.
pub struct Model {
    pub files: FileWindow,
    pub history: History,
    pub junk: Junkyard,
    pub key_sequence: String,
    pub marks: Marks,
    pub mode: Mode,
    pub qfix: QFix,
    pub register: Register,
    pub settings: Settings,
    pub current_tasks: TaskRegistry,
}

impl Model {
    /// Each slot's buffer is well formed, and so are history, register and
    /// task registry.
    pub open spec fn wf(&self) -> bool {
        &&& self.files.current.buffer.wf()
        &&& self.files.parent.buffer.wf()
        &&& self.files.preview.buffer.wf()
        &&& self.history.wf()
        &&& self.junk.wf()
        &&& self.current_tasks.wf()
        &&& self.register.wf()
        &&& self.marks.wf()
    }
}

/// A viewport of the given size, scrolled to the top.
pub fn sized_viewport(width: usize, height: usize) -> (r: ViewPort)
    ensures
        r.width == width,
        r.height == height,
        r.vertical_index == 0,
{
    ViewPort {
        height,
        hidden_sign_ids: Vec::new(),
        horizontal_index: 0,
        line_number: LineNumber::Off,
        line_number_width: 0,
        sign_column_width: 0,
        vertical_index: 0,
        width,
    }
}

fn empty_slot(path: Option<String>) -> (r: DirectoryBuffer)
    ensures
        r.buffer.wf(),
        r.buffer.lines@.len() == 0,
        r.path == path,
{
    DirectoryBuffer {
        path,
        state: DirectoryBufferState::Ready,
        buffer: empty_buffer(sized_viewport(0, 0)),
    }
}

impl Model {
    /// A session showing nothing yet, in directory `path`.
    pub fn new(path: String, settings: Settings) -> (r: Model)
        ensures
            r.wf(),
            r.files.current.path == Some(path),
            r.mode == Mode::Navigation,
    {
        Model {
            files: FileWindow {
                current: empty_slot(Some(path)),
                parent: empty_slot(None),
                preview: empty_slot(None),
            },
            history: History::new(),
            junk: Junkyard::new(),
            key_sequence: String::new(),
            marks: Marks { entries: Vec::new() },
            mode: Mode::Navigation,
            qfix: QFix { entries: Vec::new(), current_index: 0, cdo: None },
            register: Register::new(),
            settings,
            current_tasks: TaskRegistry::new(),
        }
    }
}

} // verus!
