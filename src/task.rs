use vstd::prelude::*;

use crate::event::Message;

verus! {

/// Relies on tokio_util's CancellationToken::cancel, which only signals the
/// token and its children; nothing is promised of its effect here.
pub assume_specification[ tokio_util::sync::CancellationToken::cancel ](
    token: &tokio_util::sync::CancellationToken,
);

/// A file operation archived away or brought back: the register id, the
/// archive's path and the path it was taken from.
pub struct TrashJob {
    pub id: String,
    pub cache_path: String,
    pub target_path: String,
}

/// The background operations the task manager runs.
pub enum Task {
    AddPath(String),
    DeleteJunkEntry(TrashJob),
    DeletePath(String),
    EmitMessages(Vec<Message>),
    EnumerateDirectory(String, Option<String>),
    LoadPreview(String),
    OptimizeHistory,
    RenamePath(String, String),
    RestorePath(TrashJob, String),
    SaveHistory(Vec<(String, String)>),
    TrashPath(TrashJob),
}

/// The name of a task's kind.
pub open spec fn kind_name(t: Task) -> Seq<char> {
    match t {
        Task::AddPath(_) => "AddPath"@,
        Task::DeleteJunkEntry(_) => "DeleteJunkEntry"@,
        Task::DeletePath(_) => "DeletePath"@,
        Task::EmitMessages(_) => "EmitMessages"@,
        Task::EnumerateDirectory(_, _) => "EnumerateDirectory"@,
        Task::LoadPreview(_) => "LoadPreview"@,
        Task::OptimizeHistory => "OptimizeHistory"@,
        Task::RenamePath(_, _) => "RenamePath"@,
        Task::RestorePath(_, _) => "RestorePath"@,
        Task::SaveHistory(_) => "SaveHistory"@,
        Task::TrashPath(_) => "TrashPath"@,
    }
}

/// The argument that tells two tasks of one kind apart.
pub open spec fn primary_arg(t: Task) -> Option<Seq<char>> {
    match t {
        Task::AddPath(p) => Some(p@),
        Task::DeleteJunkEntry(j) => Some(j.id@),
        Task::DeletePath(p) => Some(p@),
        Task::EnumerateDirectory(p, _) => Some(p@),
        Task::LoadPreview(p) => Some(p@),
        Task::RenamePath(p, _) => Some(p@),
        Task::RestorePath(j, _) => Some(j.id@),
        Task::TrashPath(j) => Some(j.id@),
        _ => None,
    }
}

/// The identity of a task: its kind, then its primary argument.
pub open spec fn task_key(t: Task) -> Seq<char> {
    match primary_arg(t) {
        Some(a) => kind_name(t) + " "@ + a,
        None => kind_name(t),
    }
}

fn keyed(name: &str, arg: &String) -> (r: String)
    ensures
        r@ == name@ + " "@ + arg@,
{
    let mut out = String::from_str(name);
    out.append(" ");
    out.append(arg.as_str());
    out
}

impl Task {
    /// The key under which the task is registered; a new task with the key of
    /// a running one supersedes it.
    pub fn key(&self) -> (r: String)
        ensures
            r@ == task_key(*self),
    {
        match self {
            Task::AddPath(p) => keyed("AddPath", p),
            Task::DeleteJunkEntry(j) => keyed("DeleteJunkEntry", &j.id),
            Task::DeletePath(p) => keyed("DeletePath", p),
            Task::EmitMessages(_) => String::from_str("EmitMessages"),
            Task::EnumerateDirectory(p, _) => keyed("EnumerateDirectory", p),
            Task::LoadPreview(p) => keyed("LoadPreview", p),
            Task::OptimizeHistory => String::from_str("OptimizeHistory"),
            Task::RenamePath(p, _) => keyed("RenamePath", p),
            Task::RestorePath(j, _) => keyed("RestorePath", &j.id),
            Task::SaveHistory(_) => String::from_str("SaveHistory"),
            Task::TrashPath(j) => keyed("TrashPath", &j.id),
        }
    }
}

/// A running task: its key, the number of its issuance and its cancellation
/// token.
pub struct RunningTask {
    pub key: String,
    pub id: u64,
    pub token: tokio_util::sync::CancellationToken,
}

/// Key and issuance number of each running task.
pub open spec fn reg_view(tasks: Seq<RunningTask>) -> Seq<(Seq<char>, u64)> {
    tasks.map_values(|t: RunningTask| (t.key@, t.id))
}

/// No two entries share a key.
pub open spec fn unique_keys(s: Seq<(Seq<char>, u64)>) -> bool {
    forall|i: int, j: int| 0 <= i < j < s.len() ==> (#[trigger] s[i]).0 != (#[trigger] s[j]).0
}

/// Index of the entry with key `k`, or -1.
pub open spec fn find_key(s: Seq<(Seq<char>, u64)>, k: Seq<char>) -> int
    decreases s.len(),
{
    if s.len() == 0 {
        -1
    } else if s[0].0 == k {
        0
    } else {
        let r = find_key(s.skip(1), k);
        if r < 0 {
            -1
        } else {
            r + 1
        }
    }
}

/// Registering issuance `id` under key `k`: the entry of a task running
/// under `k` is replaced, and that task's issuance is returned for cancelling.
pub open spec fn reg_start(s: Seq<(Seq<char>, u64)>, k: Seq<char>, id: u64) -> (
    Seq<(Seq<char>, u64)>,
    Option<u64>,
) {
    let i = find_key(s, k);
    if i >= 0 {
        (s.update(i, (k, id)), Some(s[i].1))
    } else {
        (s.push((k, id)), None)
    }
}

/// Issuance `id` under key `k` has ended: its entry goes, unless a newer
/// issuance took the key over.
pub open spec fn reg_end(s: Seq<(Seq<char>, u64)>, k: Seq<char>, id: u64) -> Seq<(Seq<char>, u64)> {
    let i = find_key(s, k);
    if i >= 0 && s[i].1 == id {
        s.remove(i)
    } else {
        s
    }
}

proof fn lemma_find_key(s: Seq<(Seq<char>, u64)>, k: Seq<char>)
    ensures
        -1 <= find_key(s, k) < s.len(),
        find_key(s, k) >= 0 ==> s[find_key(s, k)].0 == k,
        find_key(s, k) >= 0 ==> forall|j: int| 0 <= j < find_key(s, k) ==> (#[trigger] s[j]).0 != k,
        find_key(s, k) < 0 ==> forall|j: int| 0 <= j < s.len() ==> (#[trigger] s[j]).0 != k,
    decreases s.len(),
{
    if s.len() > 0 && s[0].0 != k {
        lemma_find_key(s.skip(1), k);
        assert forall|j: int| 0 < j < s.len() implies s[j] == s.skip(1)[j - 1] by {}
    }
}

proof fn lemma_find_key_at(s: Seq<(Seq<char>, u64)>, k: Seq<char>, i: int)
    requires
        0 <= i < s.len(),
        s[i].0 == k,
        forall|j: int| 0 <= j < i ==> (#[trigger] s[j]).0 != k,
    ensures
        find_key(s, k) == i,
    decreases s.len(),
{
    if i > 0 {
        assert forall|j: int| 0 <= j < i - 1 implies (#[trigger] s.skip(1)[j]).0 != k by {
            assert(s.skip(1)[j] == s[j + 1]);
        }
        lemma_find_key_at(s.skip(1), k, i - 1);
    }
}

proof fn lemma_find_key_absent(s: Seq<(Seq<char>, u64)>, k: Seq<char>)
    requires
        forall|j: int| 0 <= j < s.len() ==> (#[trigger] s[j]).0 != k,
    ensures
        find_key(s, k) == -1,
{
    lemma_find_key(s, k);
}

proof fn lemma_unique_find(s: Seq<(Seq<char>, u64)>, k: Seq<char>, i: int)
    requires
        unique_keys(s),
        0 <= i < s.len(),
        s[i].0 == k,
    ensures
        find_key(s, k) == i,
{
    assert forall|j: int| 0 <= j < i implies (#[trigger] s[j]).0 != k by {
        assert(s[j].0 != s[i].0);
    }
    lemma_find_key_at(s, k, i);
}

/// Starting a task while one with the same key runs cancels the earlier one:
/// the start hands back the earlier issuance, one entry stays for the key,
/// the new one. The earlier issuance ending afterwards leaves that entry;
/// the new one ending removes it.
pub proof fn lemma_supersession(s: Seq<(Seq<char>, u64)>, k: Seq<char>, first: u64, second: u64)
    requires
        unique_keys(s),
        first != second,
    ensures
        ({
            let s1 = reg_start(s, k, first).0;
            let (s2, superseded) = reg_start(s1, k, second);
            &&& superseded == Some(first)
            &&& unique_keys(s2)
            &&& find_key(s2, k) >= 0
            &&& s2[find_key(s2, k)] == (k, second)
            &&& reg_end(s2, k, first) == s2
            &&& find_key(reg_end(s2, k, second), k) == -1
        }),
{
    lemma_start_unique(s, k, first);
    let s1 = reg_start(s, k, first).0;
    lemma_start_unique(s1, k, second);
    let s2 = reg_start(s1, k, second).0;
    lemma_find_key(s, k);
    lemma_find_key(s1, k);
    let i = find_key(s1, k);
    if find_key(s, k) >= 0 {
        assert(s1[find_key(s, k)].0 == k);
        lemma_unique_find(s1, k, find_key(s, k));
    } else {
        assert(s1[s.len() as int].0 == k);
        lemma_unique_find(s1, k, s.len() as int);
    }
    assert(s1[i] == (k, first));
    assert(s2 == s1.update(i, (k, second)));
    lemma_unique_find(s2, k, i);
    let s3 = s2.remove(i);
    assert forall|j: int| 0 <= j < s3.len() implies (#[trigger] s3[j]).0 != k by {
        if j < i {
            assert(s3[j] == s2[j]);
            assert(s2[j].0 != s2[i].0);
        } else {
            assert(s3[j] == s2[j + 1]);
            assert(s2[j + 1].0 != s2[i].0);
        }
    }
    lemma_find_key_absent(s3, k);
}

proof fn lemma_start_unique(s: Seq<(Seq<char>, u64)>, k: Seq<char>, id: u64)
    requires
        unique_keys(s),
    ensures
        unique_keys(reg_start(s, k, id).0),
{
    lemma_find_key(s, k);
    let t = reg_start(s, k, id).0;
    let i = find_key(s, k);
    assert forall|a: int, b: int| 0 <= a < b < t.len() implies (#[trigger] t[a]).0 != (
    #[trigger] t[b]).0 by {
        if i >= 0 {
            if a == i {
                assert(s[b].0 != s[i].0);
            } else if b == i {
                assert(s[a].0 != s[i].0);
            } else {
                assert(t[a] == s[a] && t[b] == s[b]);
            }
        } else {
            if b == s.len() {
                assert(t[a] == s[a]);
            } else {
                assert(t[a] == s[a] && t[b] == s[b]);
            }
        }
    }
}

proof fn lemma_remove_unique(s: Seq<(Seq<char>, u64)>, i: int)
    requires
        unique_keys(s),
        0 <= i < s.len(),
    ensures
        unique_keys(s.remove(i)),
{
    let t = s.remove(i);
    assert forall|a: int, b: int| 0 <= a < b < t.len() implies (#[trigger] t[a]).0 != (
    #[trigger] t[b]).0 by {
        let x = if a < i { a } else { a + 1 };
        let y = if b < i { b } else { b + 1 };
        assert(t[a] == s[x] && t[b] == s[y]);
    }
}

/// The running tasks, at most one per key.
pub struct TaskRegistry {
    pub tasks: Vec<RunningTask>,
}

impl TaskRegistry {
    pub open spec fn view(&self) -> Seq<(Seq<char>, u64)> {
        reg_view(self.tasks@)
    }

    pub open spec fn wf(&self) -> bool {
        unique_keys(self.view())
    }

    pub fn new() -> (r: TaskRegistry)
        ensures
            r.wf(),
            r.view().len() == 0,
    {
        TaskRegistry { tasks: Vec::new() }
    }

    fn position(&self, key: &String) -> (r: Option<usize>)
        ensures
            match r {
                Some(i) => i < self.tasks@.len() && find_key(self.view(), key@) == i,
                None => find_key(self.view(), key@) == -1,
            },
    {
        let n = self.tasks.len();
        let mut i: usize = 0;
        while i < n
            invariant
                n == self.tasks@.len(),
                i <= n,
                forall|j: int| 0 <= j < i ==> (#[trigger] self.view()[j]).0 != key@,
            decreases n - i,
        {
            assert(self.view()[i as int].0 == self.tasks@[i as int].key@);
            if self.tasks[i].key == *key {
                proof {
                    lemma_find_key_at(self.view(), key@, i as int);
                }
                return Some(i);
            }
            i = i + 1;
        }
        proof {
            lemma_find_key_absent(self.view(), key@);
        }
        None
    }

    /// Registers a started task. A task already running under the same key is
    /// superseded: its entry is replaced, and it is returned.
    pub fn start(&mut self, task: RunningTask) -> (r: Option<RunningTask>)
        requires
            old(self).wf(),
        ensures
            final(self).wf(),
            final(self).view() == reg_start(old(self).view(), task.key@, task.id).0,
            match reg_start(old(self).view(), task.key@, task.id).1 {
                Some(prev) => r matches Some(t) && t.id == prev && t.key@ == task.key@ && exists|
                    i: int,
                |
                    0 <= i < old(self).tasks@.len() && old(self).tasks@[i] == t,
                None => r is None,
            },
    {
        proof {
            lemma_start_unique(self.view(), task.key@, task.id);
        }
        let ghost k = task.key@;
        let ghost id = task.id;
        match self.position(&task.key) {
            Some(i) => {
                let mut slot = task;
                let ghost before = self.tasks@;
                std::mem::swap(&mut slot, &mut self.tasks[i]);
                proof {
                    assert(self.tasks@ == before.update(i as int, self.tasks@[i as int]));
                    assert(self.view() =~= reg_view(before).update(i as int, (k, id)));
                    assert(slot == before[i as int]);
                    lemma_find_key(reg_view(before), k);
                    assert(reg_view(before)[i as int] == (slot.key@, slot.id));
                    assert(old(self).tasks@[i as int] == slot);
                }
                Some(slot)
            },
            None => {
                self.tasks.push(task);
                proof {
                    assert(self.view() =~= reg_view(old(self).tasks@).push((k, id)));
                }
                None
            },
        }
    }

    /// Registers a started task and cancels the one it supersedes, if any.
    pub fn started(&mut self, task: RunningTask) -> (r: Option<u64>)
        requires
            old(self).wf(),
        ensures
            final(self).wf(),
            final(self).view() == reg_start(old(self).view(), task.key@, task.id).0,
            r == reg_start(old(self).view(), task.key@, task.id).1,
    {
        match self.start(task) {
            Some(previous) => {
                previous.token.cancel();
                Some(previous.id)
            },
            None => None,
        }
    }

    /// Issuance `id` of the task under `key` has ended: its entry is dropped,
    /// unless a newer issuance holds the key.
    pub fn ended(&mut self, key: &String, id: u64) -> (r: bool)
        requires
            old(self).wf(),
        ensures
            final(self).wf(),
            final(self).view() == reg_end(old(self).view(), key@, id),
            r == (final(self).view() != old(self).view()),
    {
        match self.position(key) {
            Some(i) => {
                if self.tasks[i].id == id {
                    let ghost before = self.view();
                    let _ = self.tasks.remove(i);
                    proof {
                        assert(self.view() =~= before.remove(i as int));
                        lemma_remove_unique(before, i as int);
                        assert(self.view().len() != before.len());
                    }
                    true
                } else {
                    false
                }
            },
            None => false,
        }
    }

    /// Cancels the task running under `key`, if any, and drops its entry.
    pub fn cancel(&mut self, key: &String) -> (r: bool)
        requires
            old(self).wf(),
        ensures
            final(self).wf(),
            r == (find_key(old(self).view(), key@) >= 0),
            r ==> final(self).view() == old(self).view().remove(find_key(old(self).view(), key@)),
            !r ==> final(self).view() == old(self).view(),
    {
        match self.position(key) {
            Some(i) => {
                let ghost before = self.view();
                let t = self.tasks.remove(i);
                t.token.cancel();
                proof {
                    assert(self.view() =~= before.remove(i as int));
                    lemma_remove_unique(before, i as int);
                }
                true
            },
            None => false,
        }
    }
}

} // verus!
