use tokio_util::sync::CancellationToken;
use yeet::action::{prepare_load, unwatch_enumeration, Action};
use yeet::buffer::{modify, BufferLine, Cursor, CursorPosition, TextBuffer};
use yeet::event::{Envelope, Message, MessageSource, Preview};
use yeet::message::{Buffer, KeymapMessage, Mode, PrintContent, TextModification};
use yeet::model::{sized_viewport, DirectoryBufferState, History, Model, Settings, WindowType};
use yeet::operation::PathKind;
use yeet::task::Task;
use yeet::update::navigation::{navigate_to_mark, navigate_to_selected};
use yeet::update::open::open_selected;
use yeet::update::qfix::{
    cdo, invert_qfix_selection_in_current, navigate_first_qfix_entry, navigate_next_qfix_entry,
    navigate_previous_qfix_entry, reset_qfix_list,
};
use yeet::update::save::persist_path_changes;
use yeet::update::{modify_buffer, needs_listing, update, Outside};

fn settings() -> Settings {
    Settings { selection_to_file_on_open: None, selection_to_stdout_on_open: false }
}

fn listed_model(dir: &str, names: &[&str], cursor: usize) -> Model {
    let mut m = Model::new(dir.to_string(), settings());
    m.files.current.buffer.lines = names.iter().map(|n| BufferLine::from_name(n.to_string())).collect();
    m.files.current.buffer.cursor = Some(Cursor { horizontal_index: CursorPosition::Absolute(0), vertical_index: cursor });
    m.files.current.buffer.view_port.height = 10;
    m
}

fn one_line(text: &str, column: usize) -> TextBuffer {
    TextBuffer {
        lines: vec![BufferLine::from_content(text.to_string())],
        cursor: Some(Cursor { horizontal_index: CursorPosition::Absolute(column), vertical_index: 0 }),
        view_port: sized_viewport(20, 5),
    }
}

#[test]
fn insert_text_at_cursor() {
    let mut b = one_line("held", 2);
    modify(Mode::Insert, &mut b, &TextModification::Insert("xy".to_string()));
    assert_eq!(b.lines[0].content, "hexyld");
    assert_eq!(b.cursor.unwrap().horizontal_index, CursorPosition::Absolute(4));
}

#[test]
fn delete_characters_around_cursor() {
    let mut b = one_line("abcd", 2);
    modify(Mode::Insert, &mut b, &TextModification::DeleteCharBeforeCursor);
    assert_eq!(b.lines[0].content, "acd");
    assert_eq!(b.cursor.unwrap().horizontal_index, CursorPosition::Absolute(1));
    modify(Mode::Normal, &mut b, &TextModification::DeleteCharOnCursor);
    assert_eq!(b.lines[0].content, "ad");
    let mut start = one_line("ab", 0);
    modify(Mode::Insert, &mut start, &TextModification::DeleteCharBeforeCursor);
    assert_eq!(start.lines[0].content, "ab");
}

#[test]
fn modify_buffer_repeats_and_clears_preview() {
    let mut m = listed_model("/d", &["a", "b", "c"], 0);
    m.files.preview.path = Some("/d/a".to_string());
    let actions = modify_buffer(&mut m, &2, &TextModification::DeleteLineOnCursor);
    assert!(actions.is_empty());
    assert_eq!(m.files.current.buffer.lines.len(), 1);
    assert_eq!(m.files.current.buffer.lines[0].content, "c");
    assert!(m.files.preview.path.is_none());
}

#[test]
fn saving_turns_edits_into_tasks() {
    let mut m = listed_model("/d", &["keep", "old", "gone", "empty"], 0);
    m.files.current.buffer.lines[1].content = "new".to_string();
    m.files.current.buffer.lines[3].content = String::new();
    m.files.current.buffer.lines.remove(2);
    m.files.current.buffer.lines.push(BufferLine::from_content("fresh".to_string()));
    let on_disk: Vec<String> = ["keep", "old", "gone", "empty"].iter().map(|s| s.to_string()).collect();
    let actions = persist_path_changes(&mut m, &on_disk, 42, &"/junk".to_string());
    let mut seen = Vec::new();
    for a in &actions {
        match a {
            Action::Task(Task::RenamePath(a, b)) => seen.push(format!("rename {} {}", a, b)),
            Action::Task(Task::DeletePath(p)) => seen.push(format!("delete {}", p)),
            Action::Task(Task::AddPath(p)) => seen.push(format!("add {}", p)),
            Action::Task(Task::TrashPath(j)) => seen.push(format!("trash {} {}", j.target_path, j.id)),
            _ => seen.push("other".to_string()),
        }
    }
    assert_eq!(
        seen,
        vec!["rename /d/old /d/new", "delete /d/empty", "add /d/fresh", "trash /d/gone 42%%2Fd%2Fgone"]
    );
    let names: Vec<&str> = m.files.current.buffer.lines.iter().map(|l| l.content.as_str()).collect();
    assert_eq!(names, vec!["keep", "new", "fresh"]);
    assert!(m.files.current.buffer.lines.iter().all(|l| l.origin.as_deref() == Some(l.content.as_str())));
    assert_eq!(m.junk.entries.len(), 1);
}

#[test]
fn quickfix_list_navigation() {
    let mut m = listed_model("/d", &["a", "b"], 0);
    let r = invert_qfix_selection_in_current(&mut m, Action::ModeChanged);
    assert_eq!(r.len(), 1);
    assert_eq!(m.qfix.entries, vec!["/d/a", "/d/b"]);
    let first = navigate_first_qfix_entry(&mut m, Action::ModeChanged);
    assert!(matches!(&first[1], Action::EmitMessages(v) if matches!(&v[0], Message::Keymap(KeymapMessage::NavigateToPathAsPreview(p)) if p == "/d/a")));
    let next = navigate_next_qfix_entry(&mut m, Action::ModeChanged);
    assert_eq!(m.qfix.current_index, 1);
    assert_eq!(next.len(), 2);
    let past = navigate_next_qfix_entry(&mut m, Action::ModeChanged);
    assert!(matches!(&past[0], Action::EmitMessages(v) if matches!(&v[0], Message::Keymap(KeymapMessage::Print(p)) if matches!(&p[0], PrintContent::Error(e) if e == "no more items"))));
    navigate_previous_qfix_entry(&mut m, Action::ModeChanged);
    assert_eq!(m.qfix.current_index, 0);
    navigate_previous_qfix_entry(&mut m, Action::ModeChanged);
    assert_eq!(m.qfix.current_index, 1);
    let c = cdo(&mut m, &"echo".to_string(), Action::ModeChanged);
    assert_eq!(m.qfix.cdo.as_deref(), Some("echo"));
    assert_eq!(c.len(), 2);
    invert_qfix_selection_in_current(&mut m, Action::ModeChanged);
    assert!(m.qfix.entries.is_empty());
    invert_qfix_selection_in_current(&mut m, Action::ModeChanged);
    reset_qfix_list(&mut m, Action::ModeChanged);
    assert!(m.qfix.entries.is_empty());
    assert!(m.files.current.buffer.lines.iter().all(|l| l.signs.is_empty()));
}

#[test]
fn entering_the_selection_moves_preview_content() {
    let mut m = listed_model("/d", &["sub"], 0);
    m.files.preview.path = Some("/d/sub".to_string());
    m.files.preview.buffer.lines = vec![BufferLine::from_name("inner".to_string())];
    let actions = navigate_to_selected(&mut m, PathKind::Directory);
    assert_eq!(m.files.current.path.as_deref(), Some("/d/sub"));
    assert_eq!(m.files.current.buffer.lines[0].content, "inner");
    assert_eq!(m.files.parent.path.as_deref(), Some("/d"));
    assert_eq!(m.files.parent.buffer.lines[0].content, "sub");
    assert!(matches!(&actions[..], [Action::Load(WindowType::Preview, p, _)] if p == "/d/sub/inner"));
    let none = navigate_to_selected(&mut m, PathKind::File);
    assert!(none.is_empty());
}

#[test]
fn marks_lead_to_their_directory() {
    let mut m = Model::new("/".to_string(), settings());
    m.marks.entries.push(('m', "/x/y/file".to_string()));
    navigate_to_mark(&'m', &mut m);
    assert_eq!(m.files.current.path.as_deref(), Some("/x/y"));
    let nothing = navigate_to_mark(&'z', &mut m);
    assert!(nothing.is_empty());
}

#[test]
fn opening_depends_on_settings() {
    let mut m = listed_model("/d", &["f"], 0);
    assert!(matches!(&open_selected(&m)[..], [Action::Open(p)] if p == "/d/f"));
    m.settings.selection_to_stdout_on_open = true;
    assert!(matches!(&open_selected(&m)[..], [Action::Quit(_, Some(p))] if p == "/d/f"));
    m.mode = Mode::Insert;
    assert!(open_selected(&m).is_empty());
}

#[test]
fn loading_a_slot_picks_its_task() {
    let mut m = Model::new("/".to_string(), settings());
    let t = prepare_load(&mut m, WindowType::Current, "/a".to_string(), None, false);
    assert!(matches!(t, Task::EnumerateDirectory(p, None) if p == "/a"));
    assert_eq!(m.files.current.state, DirectoryBufferState::Loading);
    let p = prepare_load(&mut m, WindowType::Preview, "/a/f".to_string(), None, false);
    assert!(matches!(p, Task::LoadPreview(x) if x == "/a/f"));
    let d = prepare_load(&mut m, WindowType::Preview, "/a/dir".to_string(), Some("x".to_string()), true);
    assert!(matches!(d, Task::EnumerateDirectory(x, Some(s)) if x == "/a/dir" && s == "x"));
}

#[test]
fn unwatching_cancels_the_listing() {
    let mut m = Model::new("/".to_string(), settings());
    let token = CancellationToken::new();
    let key = Task::EnumerateDirectory("/a".to_string(), None).key();
    update(&mut m, Message::TaskStarted(key.clone(), 3, token.clone()), &Outside::probed(PathKind::Missing));
    assert!(unwatch_enumeration(&mut m, &"/a".to_string()));
    assert!(token.is_cancelled());
    assert!(!unwatch_enumeration(&mut m, &"/a".to_string()));
}

#[test]
fn task_messages_supersede_through_update() {
    let mut m = Model::new("/".to_string(), settings());
    let a = CancellationToken::new();
    let b = CancellationToken::new();
    let key = Task::LoadPreview("/f".to_string()).key();
    update(&mut m, Message::TaskStarted(key.clone(), 1, a.clone()), &Outside::probed(PathKind::Missing));
    update(&mut m, Message::TaskStarted(key.clone(), 2, b.clone()), &Outside::probed(PathKind::Missing));
    assert!(a.is_cancelled());
    update(&mut m, Message::TaskEnded(key.clone(), 1), &Outside::probed(PathKind::Missing));
    assert_eq!(m.current_tasks.tasks.len(), 1);
    update(&mut m, Message::TaskEnded(key, 2), &Outside::probed(PathKind::Missing));
    assert!(m.current_tasks.tasks.is_empty());
}

#[test]
fn preview_content_fills_the_preview_slot() {
    let mut m = Model::new("/".to_string(), settings());
    m.files.preview.path = Some("/f".to_string());
    update(
        &mut m,
        Message::PreviewLoaded(Preview::Content("/f".to_string(), vec!["l1".to_string(), "l2".to_string()])),
        &Outside::probed(PathKind::Missing),
    );
    assert_eq!(m.files.preview.buffer.lines.len(), 2);
    update(
        &mut m,
        Message::PreviewLoaded(Preview::Content("/other".to_string(), vec!["x".to_string()])),
        &Outside::probed(PathKind::Missing),
    );
    assert_eq!(m.files.preview.buffer.lines.len(), 2);
}

#[test]
fn envelope_copies_keymap_messages() {
    let e = Envelope {
        messages: vec![
            Message::Rerender,
            Message::Keymap(KeymapMessage::NavigateToParent),
            Message::Keymap(KeymapMessage::Buffer(Buffer::MoveCursor(2, yeet::message::CursorDirection::Down))),
        ],
        sequence: "2j".to_string(),
        source: MessageSource::User,
    };
    let copies = e.clone_keymap_messages();
    assert_eq!(copies.len(), 2);
    assert!(matches!(copies[0], KeymapMessage::NavigateToParent));
    assert!(matches!(copies[1], KeymapMessage::Buffer(Buffer::MoveCursor(2, _))));
}

#[test]
fn history_remembers_selection() {
    let mut h = History::new();
    h.add(&"/a/b".to_string());
    h.add(&"/a/c".to_string());
    assert_eq!(h.get_selection(&"/a".to_string()).as_deref(), Some("c"));
    assert_eq!(h.entries.len(), 1);
    h.add(&"/".to_string());
    assert_eq!(h.get_selection(&"/x".to_string()), None);
}

#[test]
fn mode_change_and_key_sequence() {
    let mut m = Model::new("/".to_string(), settings());
    let r = update(&mut m, Message::Keymap(KeymapMessage::Buffer(Buffer::ChangeMode(Mode::Navigation, Mode::Normal))), &Outside::probed(PathKind::Missing));
    assert_eq!(m.mode, Mode::Normal);
    assert!(matches!(&r[..], [Action::ModeChanged]));
    update(&mut m, Message::Keymap(KeymapMessage::KeySequenceChanged("g".to_string())), &Outside::probed(PathKind::Missing));
    assert_eq!(m.key_sequence, "g");
}

#[test]
fn saving_through_update_uses_the_listing() {
    let mut m = listed_model("/d", &["a", "b"], 0);
    m.files.current.buffer.lines.remove(1);
    let msg = Message::Keymap(KeymapMessage::Buffer(Buffer::SaveBuffer(None)));
    assert!(needs_listing(&msg));
    let outside = Outside {
        probed: PathKind::Missing,
        on_disk: vec!["a".to_string(), "b".to_string()],
        millis: 9,
        junk_dir: "/junk".to_string(),
    };
    let actions = update(&mut m, msg, &outside);
    assert!(matches!(&actions[..], [Action::Task(Task::TrashPath(j))] if j.id == "9%%2Fd%2Fb" && j.cache_path == "/junk/9%%2Fd%2Fb"));
    assert_eq!(m.junk.entries.len(), 1);
}

#[test]
fn saving_past_the_bound_evicts_the_oldest() {
    let mut m = listed_model("/d", &[], 0);
    m.files.current.buffer.cursor = None;
    let mut evicted = Vec::new();
    for i in 0..12u64 {
        let name = format!("f{}", i);
        let actions = persist_path_changes(&mut m, &vec![name], 100 + i, &"/junk".to_string());
        for a in actions {
            if let Action::Task(Task::DeleteJunkEntry(j)) = a {
                evicted.push(j.target_path);
            }
        }
    }
    assert_eq!(m.junk.entries.len(), 10);
    assert_eq!(evicted, vec!["/d/f0", "/d/f1"]);
    assert_eq!(m.junk.entries[0].target_path, "/d/f11");
}

#[test]
fn added_lines_get_mark_and_quickfix_signs() {
    let mut m = listed_model("/d", &["a"], 0);
    m.marks.entries.push(('x', "/d/b".to_string()));
    m.qfix.entries.push("/d/c".to_string());
    update(&mut m, Message::PathsAdded(vec!["/d/b".to_string(), "/d/c".to_string()]), &Outside::probed(PathKind::Missing));
    let signs: Vec<(String, usize)> = m.files.current.buffer.lines.iter().map(|l| (l.content.clone(), l.signs.len())).collect();
    assert_eq!(signs, vec![("a".to_string(), 0), ("b".to_string(), 1), ("c".to_string(), 1)]);
    assert!(m.files.current.buffer.lines[1].signs.contains(&yeet::buffer::SignIdentifier::Mark));
    assert!(m.files.current.buffer.lines[2].signs.contains(&yeet::buffer::SignIdentifier::QuickFix));
}
