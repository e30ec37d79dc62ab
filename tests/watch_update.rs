use yeet::action::{execute, Action, ActionResult};
use yeet::buffer::{BufferLine, Cursor, CursorPosition};
use yeet::enumerate::enumerate_batches;
use yeet::event::Message;
use yeet::message::{KeymapMessage, QuitMode};
use yeet::model::{DirectoryBufferState, Model, Settings, WindowType};
use yeet::operation::PathKind;
use yeet::paths::{file_name, join, parent};
use yeet::register::Register;
use yeet::task::Task;
use yeet::update::navigation::{navigate_to_parent, navigate_to_path_with_selection};
use yeet::update::path::{add, remove};
use yeet::update::search::{find_chars, set_search_char_positions};
use yeet::update::{update, Outside};
use yeet::watch::{handle_notify_event, RenameKind, WatchEvent, WatchKind};

fn event(kind: WatchKind, paths: &[&str]) -> WatchEvent {
    WatchEvent { kind, paths: paths.iter().map(|p| p.to_string()).collect(), need_rescan: false }
}

fn describe(ms: &[Message]) -> Vec<String> {
    ms.iter()
        .map(|m| match m {
            Message::PathsAdded(v) => format!("added {}", v.join(",")),
            Message::PathRemoved(p) => format!("removed {}", p),
            _ => "other".to_string(),
        })
        .collect()
}

#[test]
fn rename_pair_removes_then_adds() {
    let ms = handle_notify_event(&event(WatchKind::Rename(RenameKind::Both), &["/a", "/b"]), false).unwrap();
    assert_eq!(describe(&ms), vec!["removed /a", "added /b"]);
}

#[test]
fn ambiguous_rename_checks_existence() {
    let e = event(WatchKind::Rename(RenameKind::Any), &["/a"]);
    assert_eq!(describe(&handle_notify_event(&e, true).unwrap()), vec!["added /a"]);
    assert_eq!(describe(&handle_notify_event(&e, false).unwrap()), vec!["removed /a"]);
}

#[test]
fn create_and_remove_give_one_message_per_path() {
    let c = handle_notify_event(&event(WatchKind::Create, &["/a", "/b"]), false).unwrap();
    assert_eq!(describe(&c), vec!["added /a", "added /b"]);
    let r = handle_notify_event(&event(WatchKind::Remove, &["/a"]), false).unwrap();
    assert_eq!(describe(&r), vec!["removed /a"]);
    let f = handle_notify_event(&event(WatchKind::Rename(RenameKind::From), &["/a"]), false).unwrap();
    assert_eq!(describe(&f), vec!["removed /a"]);
    let t = handle_notify_event(&event(WatchKind::Rename(RenameKind::To), &["/b"]), false).unwrap();
    assert_eq!(describe(&t), vec!["added /b"]);
}

#[test]
fn malformed_events_are_dropped() {
    assert!(handle_notify_event(&event(WatchKind::Rename(RenameKind::Both), &["/a"]), true).is_none());
    assert!(handle_notify_event(&event(WatchKind::Rename(RenameKind::Any), &[]), true).is_none());
    assert!(handle_notify_event(&event(WatchKind::Modify, &["/a"]), true).is_none());
    assert!(handle_notify_event(&event(WatchKind::Rename(RenameKind::Other), &["/a"]), true).is_none());
}

fn settings() -> Settings {
    Settings { selection_to_file_on_open: None, selection_to_stdout_on_open: false }
}

fn model_with(dir: &str, names: &[&str], cursor: usize) -> Model {
    let mut m = Model::new(dir.to_string(), settings());
    m.files.current.buffer.lines = names.iter().map(|n| BufferLine::from_content(n.to_string())).collect();
    m.files.current.buffer.cursor = Some(Cursor { horizontal_index: CursorPosition::Hidden, vertical_index: cursor });
    m.files.current.buffer.view_port.height = 10;
    m
}

fn current_names(m: &Model) -> Vec<String> {
    m.files.current.buffer.lines.iter().map(|l| l.content.clone()).collect()
}

#[test]
fn deleting_a_shown_file_removes_its_line() {
    let mut m = model_with("/d", &["a", "b", "c"], 2);
    assert!(remove(&mut m, &"/d/c".to_string()));
    assert_eq!(current_names(&m), vec!["a", "b"]);
    assert_eq!(m.files.current.buffer.cursor.unwrap().vertical_index, 1);
    assert!(!remove(&mut m, &"/elsewhere/a".to_string()));
    remove(&mut m, &"/d/a".to_string());
    remove(&mut m, &"/d/b".to_string());
    assert!(m.files.current.buffer.lines.is_empty());
    assert!(m.files.current.buffer.cursor.is_none());
}

#[test]
fn added_paths_are_sorted_in() {
    let mut m = model_with("/d", &["b", "d"], 0);
    add(&mut m, &vec!["/d/c".to_string(), "/d/a".to_string(), "/other/x".to_string(), "/d/b".to_string()]);
    assert_eq!(current_names(&m), vec!["a", "b", "c", "d"]);
}

#[test]
fn empty_directory_listing_finishes_empty() {
    let mut m = Model::new("/empty".to_string(), settings());
    let batches = enumerate_batches(&Vec::new());
    assert!(batches.is_empty());
    let mut finished = 0;
    for msg in vec![Message::EnumerationFinished("/empty".to_string(), None)] {
        if matches!(msg, Message::EnumerationFinished(_, _)) {
            finished += 1;
        }
        update(&mut m, msg, &Outside::probed(PathKind::Missing));
    }
    assert_eq!(finished, 1);
    assert!(m.files.current.buffer.lines.is_empty());
    assert!(m.files.current.buffer.cursor.is_none());
    assert_eq!(m.files.current.state, DirectoryBufferState::Ready);
}

#[test]
fn listing_then_finish_selects_and_previews() {
    let mut m = Model::new("/d".to_string(), settings());
    update(&mut m, Message::PathsAdded(vec!["/d/x".to_string(), "/d/y".to_string()]), &Outside::probed(PathKind::Missing));
    let actions = update(&mut m, Message::EnumerationFinished("/d".to_string(), Some("y".to_string())), &Outside::probed(PathKind::Missing));
    assert_eq!(m.files.current.buffer.cursor.unwrap().vertical_index, 1);
    assert!(matches!(&actions[..], [Action::Load(WindowType::Preview, p, _)] if p == "/d/y"));
}

#[test]
fn navigating_to_an_unloaded_directory_loads_it() {
    let mut m = Model::new("/a".to_string(), settings());
    let actions = navigate_to_path_with_selection(&mut m, &"/a/b".to_string(), &None, PathKind::Directory);
    assert_eq!(m.files.current.path.as_deref(), Some("/a/b"));
    assert_eq!(m.files.parent.path.as_deref(), Some("/a"));
    assert_eq!(m.files.current.state, DirectoryBufferState::Loading);
    assert!(actions.iter().any(|a| matches!(a, Action::Load(WindowType::Current, p, _) if p == "/a/b")));
    let none = navigate_to_path_with_selection(&mut m, &"/a/file".to_string(), &None, PathKind::File);
    assert!(none.is_empty());
    assert_eq!(m.files.current.path.as_deref(), Some("/a/b"));
}

#[test]
fn navigating_up_moves_resident_content() {
    let mut m = model_with("/a/b", &["c1", "c2"], 0);
    m.files.parent.path = Some("/a".to_string());
    m.files.parent.buffer.lines = vec![BufferLine::from_content("b".to_string())];
    let actions = navigate_to_parent(&mut m);
    assert_eq!(m.files.current.path.as_deref(), Some("/a"));
    assert_eq!(current_names(&m), vec!["b"]);
    assert_eq!(m.files.preview.path.as_deref(), Some("/a/b"));
    assert_eq!(m.files.preview.buffer.lines.len(), 2);
    assert_eq!(m.files.parent.path.as_deref(), Some("/"));
    assert!(matches!(&actions[..], [Action::Load(WindowType::Parent, p, _)] if p == "/"));
}

#[test]
fn keymap_quit_and_resize() {
    let mut m = Model::new("/".to_string(), settings());
    let q = update(&mut m, Message::Keymap(KeymapMessage::Quit(QuitMode::Force)), &Outside::probed(PathKind::Missing));
    assert!(matches!(&q[..], [Action::Quit(QuitMode::Force, None)]));
    let r = update(&mut m, Message::Resize(80, 24), &Outside::probed(PathKind::Missing));
    assert!(matches!(&r[..], [Action::Resize(80, 24)]));
}

#[test]
fn passes_split_actions() {
    let actions = vec![
        Action::Task(Task::OptimizeHistory),
        Action::EmitMessages(vec![Message::Rerender]),
        Action::WatchPath(String::new()),
        Action::Quit(QuitMode::FailOnRunningTasks, None),
        Action::Open("/x".to_string()),
    ];
    let pre = execute(true, actions);
    assert_eq!(pre.result, ActionResult::SkipRender);
    assert_eq!(pre.run.len(), 2);
    assert_eq!(pre.remaining_actions.len(), 3);
    let post = execute(false, pre.remaining_actions);
    assert_eq!(post.result, ActionResult::Quit(QuitMode::FailOnRunningTasks));
    assert_eq!(post.run.len(), 2);
    assert!(post.remaining_actions.is_empty());
}

#[test]
fn quit_ends_the_pass_after_rendering() {
    let actions = vec![Action::ModeChanged, Action::Quit(QuitMode::Force, None), Action::ModeChanged];
    let post = execute(false, actions);
    assert_eq!(post.result, ActionResult::Quit(QuitMode::Force));
    assert_eq!(post.run.len(), 2);
    assert!(matches!(post.run[1], Action::Quit(QuitMode::Force, None)));
}

#[test]
fn search_highlights_first_match() {
    let mut m = model_with("/d", &["Alpha", "beta", "gamma"], 0);
    set_search_char_positions(&mut m.files.current.buffer, &"a".to_string());
    let pos: Vec<Option<(usize, usize)>> = m.files.current.buffer.lines.iter().map(|l| l.search_char_position).collect();
    assert_eq!(pos, vec![Some((0, 1)), Some((3, 1)), Some((1, 1))]);
    set_search_char_positions(&mut m.files.current.buffer, &"A".to_string());
    assert_eq!(m.files.current.buffer.lines[0].search_char_position, Some((0, 1)));
    assert_eq!(m.files.current.buffer.lines[1].search_char_position, None);
    assert_eq!(find_chars(&"hello".to_string(), &"ll".to_string()), Some(2));
    assert_eq!(find_chars(&"hello".to_string(), &"lo!".to_string()), None);
}

#[test]
fn path_helpers() {
    assert_eq!(parent(&"/a/b".to_string()).as_deref(), Some("/a"));
    assert_eq!(parent(&"/a".to_string()).as_deref(), Some("/"));
    assert_eq!(parent(&"/".to_string()), None);
    assert_eq!(file_name(&"/a/b.txt".to_string()).as_deref(), Some("b.txt"));
    assert_eq!(file_name(&"/".to_string()), None);
    assert_eq!(join(&"/".to_string(), &"x".to_string()), "/x");
    assert_eq!(join(&"/a".to_string(), &"x".to_string()), "/a/x");
}

#[test]
fn register_get_and_print() {
    let mut r = Register::new();
    r.content.push(('a', "alpha".to_string()));
    r.dot = Some("dd".to_string());
    r.searched = Some("foo".to_string());
    assert_eq!(r.get(&'a').as_deref(), Some("alpha"));
    assert_eq!(r.get(&'.').as_deref(), Some("dd"));
    assert_eq!(r.get(&'/').as_deref(), Some("foo"));
    assert_eq!(r.get(&'b'), None);
    assert_eq!(r.get(&':'), None);
    assert_eq!(r.print(), vec![":reg", "Name Content", "\"a   alpha", "\".   dd", "\"/   foo"]);
}

#[test]
fn rescan_request_triggers_no_refresh() {
    let mut e = event(WatchKind::Other, &["/d"]);
    e.need_rescan = true;
    assert!(handle_notify_event(&e, true).is_none());
    let mut c = event(WatchKind::Create, &["/d/x"]);
    c.need_rescan = true;
    assert_eq!(describe(&handle_notify_event(&c, true).unwrap()), vec!["added /d/x"]);
}
