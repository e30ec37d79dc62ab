use vstd::prelude::*;
use vstd::utf8::{decode_utf8, valid_utf8};

use crate::enumerate::strings;
use crate::event::{Message, Preview};
use crate::paths::{ends_with_slash, parent, parent_of};

verus! {

/// What is at a path on disk.
#[derive(Clone, Copy, Debug, PartialEq, Eq, Structural)]
pub enum PathKind {
    Directory,
    File,
    Missing,
}

/// One filesystem call that a task makes.
pub enum FsStep {
    CreateDirAll(String),
    RemoveDirAll(String),
    RemoveFile(String),
    Rename(String, String),
    WriteEmptyFile(String),
}

/// Failures of tasks and of loading persisted state.
pub enum TaskError {
    Aggregate(Vec<TaskError>),
    FileOperationFailed(String),
    InvalidTargetPath,
    LoadHistoryFailed,
}

/// The calls that create `path`: a directory, recursively, when the path ends
/// with `/`; otherwise the parent directories, then an empty file. A path that
/// exists already is refused.
pub fn add_path_steps(path: &String, kind: PathKind) -> (r: Result<Vec<FsStep>, TaskError>)
    ensures
        kind != PathKind::Missing ==> r matches Err(TaskError::InvalidTargetPath),
        kind == PathKind::Missing && path@.len() > 0 && path@.last() == '/' ==> (r matches Ok(v)
            && v@.len() == 1 && (v@[0] matches FsStep::CreateDirAll(p) && p@ == path@)),
        kind == PathKind::Missing && !(path@.len() > 0 && path@.last() == '/') ==> match parent_of(
            path@,
        ) {
            Some(q) => r matches Ok(v) && v@.len() == 2 && (v@[0] matches FsStep::CreateDirAll(d)
                && d@ == q) && (v@[1] matches FsStep::WriteEmptyFile(f) && f@ == path@),
            None => r matches Err(TaskError::InvalidTargetPath),
        },
{
    if kind != PathKind::Missing {
        return Err(TaskError::InvalidTargetPath);
    }
    let mut steps: Vec<FsStep> = Vec::new();
    if ends_with_slash(path) {
        steps.push(FsStep::CreateDirAll(path.clone()));
        return Ok(steps);
    }
    match parent(path) {
        Some(dir) => {
            steps.push(FsStep::CreateDirAll(dir));
            steps.push(FsStep::WriteEmptyFile(path.clone()));
            Ok(steps)
        },
        None => Err(TaskError::InvalidTargetPath),
    }
}

/// The call that deletes `path`, recursively for a directory. A missing path
/// is refused.
pub fn delete_path_steps(path: &String, kind: PathKind) -> (r: Result<Vec<FsStep>, TaskError>)
    ensures
        kind == PathKind::Missing ==> r matches Err(TaskError::InvalidTargetPath),
        kind == PathKind::File ==> (r matches Ok(v) && v@.len() == 1 && (v@[0] matches FsStep::RemoveFile(
            p,
        ) && p@ == path@)),
        kind == PathKind::Directory ==> (r matches Ok(v) && v@.len() == 1
            && (v@[0] matches FsStep::RemoveDirAll(p) && p@ == path@)),
{
    let mut steps: Vec<FsStep> = Vec::new();
    match kind {
        PathKind::Missing => Err(TaskError::InvalidTargetPath),
        PathKind::File => {
            steps.push(FsStep::RemoveFile(path.clone()));
            Ok(steps)
        },
        PathKind::Directory => {
            steps.push(FsStep::RemoveDirAll(path.clone()));
            Ok(steps)
        },
    }
}

/// The call that renames `from` to `to`; a missing source is refused.
pub fn rename_path_steps(from: &String, to: &String, kind: PathKind) -> (r: Result<
    Vec<FsStep>,
    TaskError,
>)
    ensures
        kind == PathKind::Missing ==> r matches Err(TaskError::InvalidTargetPath),
        kind != PathKind::Missing ==> (r matches Ok(v) && v@.len() == 1 && (v@[0] matches FsStep::Rename(
            a,
            b,
        ) && a@ == from@ && b@ == to@)),
{
    if kind == PathKind::Missing {
        return Err(TaskError::InvalidTargetPath);
    }
    let mut steps: Vec<FsStep> = Vec::new();
    steps.push(FsStep::Rename(from.clone(), to.clone()));
    Ok(steps)
}

/// A directory can be listed only if it exists.
pub fn check_enumerable(kind: PathKind) -> (r: Result<(), TaskError>)
    ensures
        kind == PathKind::Missing ==> r matches Err(TaskError::InvalidTargetPath),
        kind != PathKind::Missing ==> r is Ok,
{
    if kind == PathKind::Missing {
        Err(TaskError::InvalidTargetPath)
    } else {
        Ok(())
    }
}

/// The outcome of draining all tasks: success when none failed, else every
/// error, in order, in one aggregate.
pub fn aggregate(errors: Vec<TaskError>) -> (r: Result<(), TaskError>)
    ensures
        errors@.len() == 0 ==> r is Ok,
        errors@.len() > 0 ==> (r matches Err(TaskError::Aggregate(v)) && v@ == errors@),
{
    if errors.len() == 0 {
        Ok(())
    } else {
        Err(TaskError::Aggregate(errors))
    }
}

/// The MIME type that the `infer` crate reads from a file's leading bytes.
pub uninterp spec fn inferred_mime(b: Seq<u8>) -> Option<Seq<char>>;

/// Relies on infer::get: the MIME type of the first matcher that recognises
/// the bytes, or nothing.
#[verifier::external_body]
fn infer_mime(bytes: &Vec<u8>) -> (r: Option<String>)
    ensures
        match inferred_mime(bytes@) {
            Some(m) => r matches Some(s) && s@ == m,
            None => r is None,
        },
{
    match infer::get(bytes.as_slice()) {
        Some(kind) => Some(kind.mime_type().to_string()),
        None => None,
    }
}

/// Relies on String::from_utf8: valid UTF-8 is decoded, anything else refused.
#[verifier::external_body]
fn from_utf8(bytes: Vec<u8>) -> (r: Option<String>)
    ensures
        r is Some == valid_utf8(bytes@),
        r matches Some(s) ==> s@ == decode_utf8(bytes@),
{
    String::from_utf8(bytes).ok()
}

/// Content of an unknown type, or of a `text` type, is shown as text.
pub open spec fn previewable(mime: Option<Seq<char>>) -> bool {
    match mime {
        Some(m) => m.len() >= 4 && m.take(4) == "text"@,
        None => true,
    }
}

/// Whether content of MIME type `mime` is shown as text.
pub fn is_previewable(mime: &Option<String>) -> (r: bool)
    ensures
        r == previewable(
            match mime {
                Some(m) => Some(m@),
                None => None,
            },
        ),
{
    match mime {
        None => true,
        Some(m) => {
            let s = m.as_str();
            proof {
                reveal_strlit("text");
            }
            if s.unicode_len() < 4 {
                return false;
            }
            let head = s.substring_char(0, 4);
            let t = String::from_str(head);
            let lit = String::from_str("text");
            t == lit
        },
    }
}

/// The pieces of `s` between line feeds; there is one more piece than line feeds.
pub open spec fn pieces(s: Seq<char>) -> Seq<Seq<char>>
    decreases s.len(),
{
    if s.len() == 0 {
        seq![Seq::empty()]
    } else {
        let p = pieces(s.drop_last());
        if s.last() == '\n' {
            p.push(Seq::empty())
        } else {
            p.update(p.len() - 1, p.last().push(s.last()))
        }
    }
}

proof fn lemma_pieces_len(s: Seq<char>)
    ensures
        pieces(s).len() >= 1,
    decreases s.len(),
{
    if s.len() > 0 {
        lemma_pieces_len(s.drop_last());
    }
}

/// A line without the carriage return that ended it.
pub open spec fn strip_cr(l: Seq<char>) -> Seq<char> {
    if l.len() > 0 && l.last() == '\r' {
        l.drop_last()
    } else {
        l
    }
}

/// The lines of a text: split at line feeds, a carriage return before a line
/// feed dropped, and no empty last line after a final line feed.
pub open spec fn lines_of(s: Seq<char>) -> Seq<Seq<char>> {
    let p = pieces(s);
    p.drop_last().map_values(|l: Seq<char>| strip_cr(l)) + if p.last().len() > 0 {
        seq![p.last()]
    } else {
        Seq::empty()
    }
}

fn strip_cr_string(line: String) -> (r: String)
    ensures
        r@ == strip_cr(line@),
{
    let s = line.as_str();
    let n = s.unicode_len();
    if n > 0 && s.get_char(n - 1) == '\r' {
        String::from_str(s.substring_char(0, n - 1))
    } else {
        line
    }
}

/// Splits a text into its lines.
pub fn text_lines(text: &String) -> (r: Vec<String>)
    ensures
        strings(r@) == lines_of(text@),
{
    let s = text.as_str();
    let n = s.unicode_len();
    let mut done: Vec<String> = Vec::new();
    let mut cur = String::new();
    let mut i: usize = 0;
    proof {
        assert(text@.take(0) =~= Seq::<char>::empty());
        assert(strings(done@) =~= pieces(text@.take(0)).drop_last().map_values(
            |l: Seq<char>| strip_cr(l),
        ));
    }
    while i < n
        invariant
            n == text@.len(),
            s@ == text@,
            i <= n,
            pieces(text@.take(i as int)).len() >= 1,
            strings(done@) == pieces(text@.take(i as int)).drop_last().map_values(
                |l: Seq<char>| strip_cr(l),
            ),
            cur@ == pieces(text@.take(i as int)).last(),
        decreases n - i,
    {
        let c = s.get_char(i);
        let ghost before = text@.take(i as int);
        let ghost next = text@.take(i + 1);
        proof {
            assert(next.drop_last() =~= before);
            assert(next.last() == c);
            lemma_pieces_len(next);
        }
        if c == '\n' {
            let mut line = String::new();
            std::mem::swap(&mut line, &mut cur);
            let stripped = strip_cr_string(line);
            let ghost d = done@;
            done.push(stripped);
            proof {
                assert(pieces(next) == pieces(before).push(Seq::empty()));
                assert(strings(done@) =~= strings(d).push(stripped@));
                assert(pieces(next).drop_last() =~= pieces(before));
                assert(pieces(before) =~= pieces(before).drop_last().push(pieces(before).last()));
                assert(pieces(next).drop_last().map_values(|l: Seq<char>| strip_cr(l)) =~= pieces(
                    before,
                ).drop_last().map_values(|l: Seq<char>| strip_cr(l)).push(strip_cr(pieces(before).last())));
            }
        } else {
            cur.append(s.substring_char(i, i + 1));
            proof {
                let p = pieces(before);
                assert(pieces(next) == p.update(p.len() - 1, p.last().push(c)));
                assert(s@.subrange(i as int, i + 1) =~= seq![c]);
                assert(pieces(next).drop_last() =~= p.drop_last());
            }
        }
        i = i + 1;
    }
    proof {
        assert(text@.take(n as int) =~= text@);
    }
    if cur.unicode_len() > 0 {
        let ghost d = done@;
        done.push(cur);
        proof {
            assert(strings(done@) =~= strings(d).push(pieces(text@).last()));
            assert(strings(done@) =~= lines_of(text@));
        }
    } else {
        proof {
            assert(strings(done@) =~= lines_of(text@));
        }
    }
    done
}

/// Loads the preview of a file from its bytes: nothing for content whose type
/// is known and not text, nor for bytes that are no valid UTF-8; otherwise
/// its lines.
pub fn load_preview(path: String, bytes: Vec<u8>) -> (r: Result<Option<Message>, TaskError>)
    ensures
        !previewable(inferred_mime(bytes@)) ==> r matches Ok(None),
        previewable(inferred_mime(bytes@)) && !valid_utf8(bytes@) ==> r matches Ok(None),
        previewable(inferred_mime(bytes@)) && valid_utf8(bytes@) ==> (r matches Ok(
            Some(Message::PreviewLoaded(Preview::Content(p, ls))),
        ) && p@ == path@ && strings(ls@) == lines_of(decode_utf8(bytes@))),
{
    let mime = infer_mime(&bytes);
    if !is_previewable(&mime) {
        return Ok(None);
    }
    match from_utf8(bytes) {
        Some(text) => {
            let lines = text_lines(&text);
            Ok(Some(Message::PreviewLoaded(Preview::Content(path, lines))))
        },
        None => Ok(None),
    }
}

} // verus!
