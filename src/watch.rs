use vstd::prelude::*;

use crate::event::{is_added, is_removed, Message};

verus! {

/// Which side of a rename an event reports.
#[derive(Clone, Copy, Debug, PartialEq, Eq, Structural)]
pub enum RenameKind {
    Any,
    Both,
    From,
    To,
    Other,
}

/// The kind of a raw filesystem-watch event.
#[derive(Clone, Copy, Debug, PartialEq, Eq, Structural)]
pub enum WatchKind {
    Access,
    Any,
    Create,
    Modify,
    Other,
    Remove,
    Rename(RenameKind),
}

/// A raw filesystem-watch event: its kind, the paths it concerns, and whether
/// the watcher lost events and asks for a full rescan.
pub struct WatchEvent {
    pub kind: WatchKind,
    pub paths: Vec<String>,
    pub need_rescan: bool,
}

/// Every message announces its path, one for each path of the event, in order.
pub open spec fn all_added(ms: Seq<Message>, ps: Seq<String>) -> bool {
    ms.len() == ps.len() && forall|i: int| 0 <= i < ps.len() ==> is_added(#[trigger] ms[i], ps[i]@)
}

pub open spec fn all_removed(ms: Seq<Message>, ps: Seq<String>) -> bool {
    ms.len() == ps.len() && forall|i: int|
        0 <= i < ps.len() ==> is_removed(#[trigger] ms[i], ps[i]@)
}

/// The messages that a watch event stands for. `exists` tells whether the
/// event's first path is present on disk; only an ambiguous rename reads it.
pub open spec fn stands_for(r: Option<Vec<Message>>, event: WatchEvent, exists: bool) -> bool {
    let ps = event.paths@;
    match event.kind {
        WatchKind::Create => r matches Some(ms) && all_added(ms@, ps),
        WatchKind::Remove => r matches Some(ms) && all_removed(ms@, ps),
        WatchKind::Rename(RenameKind::Both) => if ps.len() == 2 {
            r matches Some(ms) && ms@.len() == 2 && is_removed(ms@[0], ps[0]@) && is_added(
                ms@[1],
                ps[1]@,
            )
        } else {
            r is None
        },
        WatchKind::Rename(RenameKind::From) => if ps.len() == 1 {
            r matches Some(ms) && ms@.len() == 1 && is_removed(ms@[0], ps[0]@)
        } else {
            r is None
        },
        WatchKind::Rename(RenameKind::To) => if ps.len() == 1 {
            r matches Some(ms) && ms@.len() == 1 && is_added(ms@[0], ps[0]@)
        } else {
            r is None
        },
        WatchKind::Rename(RenameKind::Any) => if ps.len() == 1 {
            r matches Some(ms) && ms@.len() == 1 && (if exists {
                is_added(ms@[0], ps[0]@)
            } else {
                is_removed(ms@[0], ps[0]@)
            })
        } else {
            r is None
        },
        _ => r is None,
    }
}

fn added(path: &String) -> (r: Message)
    ensures
        is_added(r, path@),
{
    let mut v: Vec<String> = Vec::new();
    v.push(path.clone());
    Message::PathsAdded(v)
}

fn removed(path: &String) -> (r: Message)
    ensures
        is_removed(r, path@),
{
    Message::PathRemoved(path.clone())
}

/// Turns a raw watch event into path messages. Creation and removal give
/// one message per path; a rename pair gives the removal of the old path, then
/// the addition of the new one; an ambiguous rename is resolved by `exists`.
/// Events with the wrong number of paths, and kinds without a meaning here,
/// give nothing. A rescan request triggers no refresh: the directory is not
/// listed again.
pub fn handle_notify_event(event: &WatchEvent, exists: bool) -> (r: Option<Vec<Message>>)
    ensures
        stands_for(r, *event, exists),
{
    let n = event.paths.len();
    match event.kind {
        WatchKind::Create => {
            let mut out: Vec<Message> = Vec::new();
            let mut i: usize = 0;
            while i < n
                invariant
                    n == event.paths@.len(),
                    i <= n,
                    out@.len() == i,
                    forall|j: int| 0 <= j < i ==> is_added(#[trigger] out@[j], event.paths@[j]@),
                decreases n - i,
            {
                out.push(added(&event.paths[i]));
                i = i + 1;
            }
            Some(out)
        },
        WatchKind::Remove => {
            let mut out: Vec<Message> = Vec::new();
            let mut i: usize = 0;
            while i < n
                invariant
                    n == event.paths@.len(),
                    i <= n,
                    out@.len() == i,
                    forall|j: int|
                        0 <= j < i ==> is_removed(#[trigger] out@[j], event.paths@[j]@),
                decreases n - i,
            {
                out.push(removed(&event.paths[i]));
                i = i + 1;
            }
            Some(out)
        },
        WatchKind::Rename(RenameKind::Both) => {
            if n == 2 {
                let mut out: Vec<Message> = Vec::new();
                out.push(removed(&event.paths[0]));
                out.push(added(&event.paths[1]));
                Some(out)
            } else {
                None
            }
        },
        WatchKind::Rename(RenameKind::From) => {
            if n == 1 {
                let mut out: Vec<Message> = Vec::new();
                out.push(removed(&event.paths[0]));
                Some(out)
            } else {
                None
            }
        },
        WatchKind::Rename(RenameKind::To) => {
            if n == 1 {
                let mut out: Vec<Message> = Vec::new();
                out.push(added(&event.paths[0]));
                Some(out)
            } else {
                None
            }
        },
        WatchKind::Rename(RenameKind::Any) => {
            if n == 1 {
                let mut out: Vec<Message> = Vec::new();
                if exists {
                    out.push(added(&event.paths[0]));
                } else {
                    out.push(removed(&event.paths[0]));
                }
                Some(out)
            } else {
                None
            }
        },
        _ => None,
    }
}

} // verus!
