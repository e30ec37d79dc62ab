use vstd::prelude::*;

use crate::action::Action;
use crate::buffer::TextBuffer;
use crate::model::Model;

verus! {

/// What `str::to_lowercase` makes of a text.
pub uninterp spec fn lowercase_of(s: Seq<char>) -> Seq<char>;

/// Relies on str::to_lowercase: the lowercase form of every character; the
/// result depends on the text alone.
#[verifier::external_body]
fn lowercase(s: &String) -> (r: String)
    ensures
        r@ == lowercase_of(s@),
{
    s.to_lowercase()
}

/// `needle` occurs in `hay` at character `i`.
pub open spec fn occurs_at(hay: Seq<char>, needle: Seq<char>, i: int) -> bool {
    0 <= i && i + needle.len() <= hay.len() && hay.subrange(i, i + needle.len()) == needle
}

/// Character index of the first occurrence of `needle` in `hay`.
pub open spec fn first_match(hay: Seq<char>, needle: Seq<char>) -> Option<int> {
    if exists|i: int| occurs_at(hay, needle, i) {
        Some(choose|i: int| occurs_at(hay, needle, i) && forall|j: int| 0 <= j < i ==> !occurs_at(hay, needle, j))
    } else {
        None
    }
}

/// A search of only lowercase ASCII letters ignores case.
pub open spec fn smart_case(search: Seq<char>) -> bool {
    forall|i: int| 0 <= i < search.len() ==> 'a' <= #[trigger] search[i] <= 'z'
}

/// The highlight of a line for a search: where the search first occurs, as
/// first character and length.
pub open spec fn highlight(content: Seq<char>, search: Seq<char>) -> Option<(usize, usize)> {
    let hay = if smart_case(search) {
        lowercase_of(content)
    } else {
        content
    };
    match first_match(hay, search) {
        Some(i) => Some((i as usize, search.len() as usize)),
        None => None,
    }
}

fn matches_at(hay: &str, needle: &str, i: usize) -> (r: bool)
    requires
        i + needle@.len() <= hay@.len(),
    ensures
        r == occurs_at(hay@, needle@, i as int),
{
    let m = needle.unicode_len();
    let n = hay.unicode_len();
    let mut k: usize = 0;
    while k < m
        invariant
            m == needle@.len(),
            n == hay@.len(),
            i + m <= hay@.len(),
            k <= m,
            forall|j: int| 0 <= j < k ==> hay@[i + j] == needle@[j],
        decreases m - k,
    {
        if hay.get_char(i + k) != needle.get_char(k) {
            proof {
                assert(hay@.subrange(i as int, i + m)[k as int] != needle@[k as int]);
            }
            return false;
        }
        k = k + 1;
    }
    proof {
        assert(hay@.subrange(i as int, i + m) =~= needle@);
    }
    true
}

/// Character index of the first occurrence of `needle` in `hay`.
pub fn find_chars(hay: &String, needle: &String) -> (r: Option<usize>)
    ensures
        match first_match(hay@, needle@) {
            Some(i) => r == Some(i as usize),
            None => r is None,
        },
{
    let h = hay.as_str();
    let s = needle.as_str();
    let n = h.unicode_len();
    let m = s.unicode_len();
    if m > n {
        proof {
            assert forall|i: int| !occurs_at(hay@, needle@, i) by {}
        }
        return None;
    }
    let last = n - m;
    let mut i: usize = 0;
    loop
        invariant
            n == hay@.len(),
            m == needle@.len(),
            m <= n,
            last == n - m,
            h@ == hay@,
            s@ == needle@,
            i <= last,
            forall|j: int| 0 <= j < i ==> !occurs_at(hay@, needle@, j),
        ensures
            forall|j: int| 0 <= j <= last ==> !occurs_at(hay@, needle@, j),
        decreases last - i,
    {
        if matches_at(h, s, i) {
            proof {
                let c = choose|c: int|
                    occurs_at(hay@, needle@, c) && forall|j: int|
                        0 <= j < c ==> !occurs_at(hay@, needle@, j);
                if c < i {
                    assert(!occurs_at(hay@, needle@, c));
                }
                if c > i {
                    assert(!occurs_at(hay@, needle@, i as int));
                }
            }
            return Some(i);
        }
        if i == last {
            break;
        }
        i = i + 1;
    }
    proof {
        assert forall|j: int| !occurs_at(hay@, needle@, j) by {
            if j > last {
                assert(j + m > hay@.len());
            }
        }
    }
    None
}

fn is_smart_case(search: &String) -> (r: bool)
    ensures
        r == smart_case(search@),
{
    let s = search.as_str();
    let n = s.unicode_len();
    let mut i: usize = 0;
    while i < n
        invariant
            n == search@.len(),
            s@ == search@,
            i <= n,
            forall|j: int| 0 <= j < i ==> 'a' <= #[trigger] search@[j] <= 'z',
        decreases n - i,
    {
        let c = s.get_char(i);
        if c < 'a' || c > 'z' {
            return false;
        }
        i = i + 1;
    }
    true
}

/// Sets each line's highlight to the first occurrence of `search` in it,
/// ignoring case where the search is all lowercase letters.
pub fn set_search_char_positions(buffer: &mut TextBuffer, search: &String)
    ensures
        final(buffer).lines@.len() == old(buffer).lines@.len(),
        final(buffer).cursor == old(buffer).cursor,
        final(buffer).view_port == old(buffer).view_port,
        forall|i: int|
            0 <= i < old(buffer).lines@.len() ==> {
                let o = #[trigger] old(buffer).lines@[i];
                let f = final(buffer).lines@[i];
                &&& f.content == o.content
                &&& f.prefix == o.prefix
                &&& f.signs == o.signs
                &&& f.search_char_position == highlight(o.content@, search@)
            },
{
    let smart = is_smart_case(search);
    let search_length = search.as_str().unicode_len();
    let n = buffer.lines.len();
    let mut i: usize = 0;
    while i < n
        invariant
            n == buffer.lines@.len(),
            n == old(buffer).lines@.len(),
            buffer.cursor == old(buffer).cursor,
            buffer.view_port == old(buffer).view_port,
            smart == smart_case(search@),
            search_length == search@.len(),
            i <= n,
            forall|j: int|
                0 <= j < n ==> {
                    let o = #[trigger] old(buffer).lines@[j];
                    let f = buffer.lines@[j];
                    &&& f.content == o.content
                    &&& f.prefix == o.prefix
                    &&& f.signs == o.signs
                    &&& j < i ==> f.search_char_position == highlight(o.content@, search@)
                },
        decreases n - i,
    {
        let found = if smart {
            let lower = lowercase(&buffer.lines[i].content);
            find_chars(&lower, search)
        } else {
            find_chars(&buffer.lines[i].content, search)
        };
        let position = match found {
            Some(start) => Some((start, search_length)),
            None => None,
        };
        buffer.lines[i].search_char_position = position;
        i = i + 1;
    }
}

fn clear_buffer_search(buffer: &mut TextBuffer)
    ensures
        final(buffer).lines@.len() == old(buffer).lines@.len(),
        final(buffer).cursor == old(buffer).cursor,
        final(buffer).view_port == old(buffer).view_port,
        forall|i: int|
            0 <= i < old(buffer).lines@.len() ==> {
                let o = #[trigger] old(buffer).lines@[i];
                let f = final(buffer).lines@[i];
                &&& f.content == o.content
                &&& f.prefix == o.prefix
                &&& f.signs == o.signs
                &&& f.search_char_position is None
            },
{
    let n = buffer.lines.len();
    let mut i: usize = 0;
    while i < n
        invariant
            n == buffer.lines@.len(),
            n == old(buffer).lines@.len(),
            buffer.cursor == old(buffer).cursor,
            buffer.view_port == old(buffer).view_port,
            i <= n,
            forall|j: int|
                0 <= j < n ==> {
                    let o = #[trigger] old(buffer).lines@[j];
                    let f = buffer.lines@[j];
                    &&& f.content == o.content
                    &&& f.prefix == o.prefix
                    &&& f.signs == o.signs
                    &&& j < i ==> f.search_char_position is None
                },
        decreases n - i,
    {
        buffer.lines[i].search_char_position = None;
        i = i + 1;
    }
}

/// Buffer `f` is `o` with each line's highlight set for `search`, or
/// cleared without one; text, prefix, signs, cursor and viewport as before.
pub open spec fn searched(f: TextBuffer, o: TextBuffer, search: Option<String>) -> bool {
    &&& f.lines@.len() == o.lines@.len()
    &&& f.cursor == o.cursor
    &&& f.view_port == o.view_port
    &&& forall|i: int|
        0 <= i < o.lines@.len() ==> {
            let ol = #[trigger] o.lines@[i];
            let fl = f.lines@[i];
            &&& fl.content == ol.content
            &&& fl.prefix == ol.prefix
            &&& fl.signs == ol.signs
            &&& fl.search_char_position == match search {
                Some(s) => highlight(ol.content@, s@),
                None => None,
            }
        }
}

/// Drops every search highlight in the three slots.
pub fn clear_search(model: &mut Model) -> (r: Vec<Action>)
    requires
        old(model).wf(),
    ensures
        final(model).wf(),
        r@.len() == 0,
        searched(final(model).files.current.buffer, old(model).files.current.buffer, None),
        searched(final(model).files.parent.buffer, old(model).files.parent.buffer, None),
        searched(final(model).files.preview.buffer, old(model).files.preview.buffer, None),
{
    clear_buffer_search(&mut model.files.parent.buffer);
    clear_buffer_search(&mut model.files.current.buffer);
    clear_buffer_search(&mut model.files.preview.buffer);
    Vec::new()
}

/// Highlights `search` in the slots showing directories; no search clears
/// all highlights.
pub fn search_in_buffers(model: &mut Model, search: Option<String>)
    requires
        old(model).wf(),
    ensures
        final(model).wf(),
        searched(final(model).files.current.buffer, old(model).files.current.buffer, search),
        old(model).files.parent.path is Some || search is None ==> searched(
            final(model).files.parent.buffer,
            old(model).files.parent.buffer,
            search,
        ),
        old(model).files.parent.path is None && search is Some ==> final(model).files.parent.buffer
            == old(model).files.parent.buffer,
        old(model).files.preview.path is Some || search is None ==> searched(
            final(model).files.preview.buffer,
            old(model).files.preview.buffer,
            search,
        ),
        old(model).files.preview.path is None && search is Some ==> final(model).files.preview.buffer
            == old(model).files.preview.buffer,
{
    let search = match search {
        Some(it) => it,
        None => {
            clear_search(model);
            return ;
        },
    };
    if model.files.parent.path.is_some() {
        set_search_char_positions(&mut model.files.parent.buffer, &search);
    }
    set_search_char_positions(&mut model.files.current.buffer, &search);
    if model.files.preview.path.is_some() {
        set_search_char_positions(&mut model.files.preview.buffer, &search);
    }
}

} // verus!
