use tokio_util::sync::CancellationToken;
use yeet::enumerate::{enumerate_batches, enumeration_messages, EnumerationBatcher};
use yeet::junkyard::{compose_id, decompose_id, escape_path, JunkEntry, JunkStatus, Junkyard};
use yeet::operation::{
    add_path_steps, aggregate, check_enumerable, delete_path_steps, load_preview, rename_path_steps,
    text_lines, FsStep, PathKind, TaskError,
};
use yeet::task::{RunningTask, Task, TaskRegistry};
use yeet::event::{Message, Preview};

#[test]
fn id_escapes_percent_and_slash() {
    assert_eq!(escape_path(&"/a/b%c".to_string()), "%2Fa%2Fb%0025c");
    assert_eq!(compose_id(1700, &"/a/b%c".to_string()), "1700%%2Fa%2Fb%0025c");
}

#[test]
fn id_round_trip() {
    for path in ["/", "/tmp/x", "/odd%2F/name%", "/%0025%/%"] {
        let id = compose_id(1_712_345_678_901, &path.to_string());
        let (stamp, back) = decompose_id(&id).unwrap();
        assert_eq!(stamp, "1712345678901");
        assert_eq!(back, path);
    }
}

#[test]
fn malformed_ids_are_refused() {
    assert!(decompose_id(&"nopercent".to_string()).is_none());
    assert!(decompose_id(&"12%%zz".to_string()).is_none());
}

fn entry(millis: u64, path: &str) -> JunkEntry {
    let id = compose_id(millis, &path.to_string());
    JunkEntry {
        cache_path: format!("/junk/{}", id),
        id,
        status: JunkStatus::Processing,
        target_path: path.to_string(),
    }
}

#[test]
fn register_keeps_ten_newest() {
    let mut junk = Junkyard::new();
    let mut evicted = Vec::new();
    for i in 0..13u64 {
        if let Some(e) = junk.add(entry(1_000_000 + i, &format!("/p/{}", i))) {
            evicted.push(e.target_path);
        }
    }
    assert_eq!(junk.entries.len(), 10);
    assert_eq!(evicted, vec!["/p/0", "/p/1", "/p/2"]);
    let ids: Vec<&String> = junk.entries.iter().map(|e| &e.id).collect();
    let mut sorted = ids.clone();
    sorted.sort();
    sorted.reverse();
    assert_eq!(ids, sorted);
    assert_eq!(junk.newest().unwrap().target_path, "/p/12");
}

#[test]
fn register_marks_archives_ready_and_restores() {
    let mut junk = Junkyard::new();
    let (job, old) = junk.trash(5, &"/a/b".to_string(), &"/junk".to_string());
    assert!(old.is_none());
    assert_eq!(job.id, "5%%2Fa%2Fb");
    assert_eq!(job.cache_path, "/junk/5%%2Fa%2Fb");
    assert!(junk.set_ready(&job.cache_path));
    assert_eq!(junk.entries[0].status, JunkStatus::Ready);
    assert!(!junk.set_ready(&"/elsewhere".to_string()));
    let restored = junk.remove(&job.id).unwrap();
    assert_eq!(restored.target_path, "/a/b");
    assert!(junk.entries.is_empty());
}

#[test]
fn task_keys_name_kind_and_argument() {
    assert_eq!(Task::EnumerateDirectory("/a".to_string(), Some("x".to_string())).key(), "EnumerateDirectory /a");
    assert_eq!(Task::EnumerateDirectory("/a".to_string(), None).key(), "EnumerateDirectory /a");
    assert_eq!(Task::OptimizeHistory.key(), "OptimizeHistory");
    assert_eq!(Task::RenamePath("/a".to_string(), "/b".to_string()).key(), "RenamePath /a");
}

#[test]
fn newer_task_supersedes_running_one() {
    let mut reg = TaskRegistry::new();
    let first = CancellationToken::new();
    let second = CancellationToken::new();
    let key = Task::EnumerateDirectory("/p".to_string(), None).key();
    assert_eq!(reg.started(RunningTask { key: key.clone(), id: 1, token: first.clone() }), None);
    assert!(!first.is_cancelled());
    assert_eq!(reg.started(RunningTask { key: key.clone(), id: 2, token: second.clone() }), Some(1));
    assert!(first.is_cancelled());
    assert!(!second.is_cancelled());
    assert_eq!(reg.tasks.len(), 1);
    assert!(!reg.ended(&key, 1));
    assert_eq!(reg.tasks.len(), 1);
    assert!(reg.ended(&key, 2));
    assert!(reg.tasks.is_empty());
}

#[test]
fn cancel_by_key() {
    let mut reg = TaskRegistry::new();
    let t = CancellationToken::new();
    reg.started(RunningTask { key: "k".to_string(), id: 7, token: t.clone() });
    assert!(reg.cancel(&"k".to_string()));
    assert!(t.is_cancelled());
    assert!(!reg.cancel(&"k".to_string()));
}

fn names(n: usize) -> Vec<String> {
    (0..n).map(|i| format!("/d/{}", i)).collect()
}

fn sizes(n: usize) -> Vec<usize> {
    enumerate_batches(&names(n)).iter().map(|b| b.len()).collect()
}

#[test]
fn batches_double_up_to_the_cap() {
    assert_eq!(sizes(0), Vec::<usize>::new());
    assert_eq!(sizes(1), vec![1]);
    assert_eq!(sizes(100), vec![100]);
    assert_eq!(sizes(250), vec![100, 150]);
    assert_eq!(sizes(13_000), vec![100, 200, 400, 800, 1600, 3200, 6400, 300]);
    assert_eq!(sizes(19_200), vec![100, 200, 400, 800, 1600, 3200, 6400, 6400, 100]);
}

#[test]
fn batches_hold_each_entry_once_in_order() {
    let all = names(777);
    let joined: Vec<String> = enumerate_batches(&all).into_iter().flatten().collect();
    assert_eq!(joined, all);
}

#[test]
fn streaming_batcher_flushes_at_threshold() {
    let mut b = EnumerationBatcher::new();
    let mut flushed = Vec::new();
    for i in 0..150 {
        if let Some(batch) = b.push(format!("{}", i)) {
            flushed.push(batch.len());
        }
    }
    assert_eq!(flushed, vec![100]);
    let (rest, done) = b.finish("/d".to_string(), None);
    assert_eq!(rest.map(|r| r.len()), Some(50));
    assert!(matches!(done, Message::EnumerationFinished(p, None) if p == "/d"));
}

#[test]
fn add_path_plans() {
    let dir = add_path_steps(&"/a/new/".to_string(), PathKind::Missing).ok().unwrap();
    assert!(matches!(&dir[..], [FsStep::CreateDirAll(p)] if p == "/a/new/"));
    let file = add_path_steps(&"/a/f.txt".to_string(), PathKind::Missing).ok().unwrap();
    assert!(matches!(&file[..], [FsStep::CreateDirAll(d), FsStep::WriteEmptyFile(f)] if d == "/a" && f == "/a/f.txt"));
    assert!(matches!(add_path_steps(&"/a/f.txt".to_string(), PathKind::File), Err(TaskError::InvalidTargetPath)));
}

#[test]
fn delete_and_rename_plans() {
    assert!(matches!(delete_path_steps(&"/x".to_string(), PathKind::Missing), Err(TaskError::InvalidTargetPath)));
    let d = delete_path_steps(&"/x".to_string(), PathKind::Directory).ok().unwrap();
    assert!(matches!(&d[..], [FsStep::RemoveDirAll(p)] if p == "/x"));
    let f = delete_path_steps(&"/x".to_string(), PathKind::File).ok().unwrap();
    assert!(matches!(&f[..], [FsStep::RemoveFile(p)] if p == "/x"));
    assert!(matches!(rename_path_steps(&"/x".to_string(), &"/y".to_string(), PathKind::Missing), Err(TaskError::InvalidTargetPath)));
    let r = rename_path_steps(&"/x".to_string(), &"/y".to_string(), PathKind::File).ok().unwrap();
    assert!(matches!(&r[..], [FsStep::Rename(a, b)] if a == "/x" && b == "/y"));
    assert!(matches!(check_enumerable(PathKind::Missing), Err(TaskError::InvalidTargetPath)));
    assert!(check_enumerable(PathKind::Directory).is_ok());
}

#[test]
fn aggregate_collects_all_errors() {
    assert!(aggregate(Vec::new()).is_ok());
    match aggregate(vec![TaskError::InvalidTargetPath, TaskError::LoadHistoryFailed]) {
        Err(TaskError::Aggregate(v)) => assert_eq!(v.len(), 2),
        _ => panic!("expected an aggregate"),
    }
}

#[test]
fn lines_split_like_str_lines() {
    for text in ["", "a", "a\nb", "a\r\nb\n", "a\n\n", "\n", "x\r", "x\ry\n"] {
        let expected: Vec<String> = text.lines().map(|s| s.to_string()).collect();
        assert_eq!(text_lines(&text.to_string()), expected, "{:?}", text);
    }
}

#[test]
fn text_preview_is_loaded() {
    let r = load_preview("/t.txt".to_string(), b"one\r\ntwo\n".to_vec());
    match r {
        Ok(Some(Message::PreviewLoaded(Preview::Content(p, lines)))) => {
            assert_eq!(p, "/t.txt");
            assert_eq!(lines, vec!["one", "two"]);
        }
        _ => panic!("expected text content"),
    }
}

#[test]
fn binary_preview_is_skipped() {
    let png = vec![0x89, b'P', b'N', b'G', 0x0D, 0x0A, 0x1A, 0x0A, 0, 0, 0, 0];
    assert!(matches!(load_preview("/i.png".to_string(), png), Ok(None)));
}

#[test]
fn invalid_utf8_gives_no_preview() {
    let r = load_preview("/b".to_string(), vec![b'a', 0xff, 0xfe]);
    assert!(matches!(r, Ok(None)));
}

#[test]
fn listing_messages_end_with_one_finish() {
    let empty = enumeration_messages("/e".to_string(), None, &Vec::new());
    assert_eq!(empty.len(), 1);
    assert!(matches!(&empty[0], Message::EnumerationFinished(p, None) if p == "/e"));
    let all = names(250);
    let msgs = enumeration_messages("/d".to_string(), Some("x".to_string()), &all);
    assert_eq!(msgs.len(), 3);
    assert!(matches!(&msgs[0], Message::PathsAdded(b) if b.len() == 100));
    assert!(matches!(&msgs[1], Message::PathsAdded(b) if b.len() == 150));
    assert!(matches!(&msgs[2], Message::EnumerationFinished(p, Some(s)) if p == "/d" && s == "x"));
}
