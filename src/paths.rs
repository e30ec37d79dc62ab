use vstd::prelude::*;

verus! {

/// Index of the last `/` in `s`, or -1.
pub open spec fn last_slash(s: Seq<char>) -> int
    decreases s.len(),
{
    if s.len() == 0 {
        -1
    } else if s.last() == '/' {
        s.len() - 1
    } else {
        last_slash(s.drop_last())
    }
}

/// The directory holding `p`: all before its last `/`, or the root. The root
/// and a name without `/` have none. Paths here end in `/` only at the root.
pub open spec fn parent_of(p: Seq<char>) -> Option<Seq<char>> {
    let i = last_slash(p);
    if i < 0 || p.len() == 1 {
        None
    } else if i == 0 {
        Some(seq!['/'])
    } else {
        Some(p.take(i))
    }
}

/// The last component of `p`, if it is not empty.
pub open spec fn file_name_of(p: Seq<char>) -> Option<Seq<char>> {
    let rest = p.skip(last_slash(p) + 1);
    if rest.len() == 0 {
        None
    } else {
        Some(rest)
    }
}

/// `name` inside directory `dir`.
pub open spec fn joined_path(dir: Seq<char>, name: Seq<char>) -> Seq<char> {
    if dir.len() > 0 && dir.last() == '/' {
        dir + name
    } else {
        dir + seq!['/'] + name
    }
}

proof fn lemma_last_slash(s: Seq<char>)
    ensures
        -1 <= last_slash(s) < s.len(),
        last_slash(s) >= 0 ==> s[last_slash(s)] == '/',
        forall|j: int| last_slash(s) < j < s.len() ==> s[j] != '/',
    decreases s.len(),
{
    if s.len() > 0 && s.last() != '/' {
        lemma_last_slash(s.drop_last());
        assert forall|j: int| last_slash(s) < j < s.len() implies s[j] != '/' by {
            if j < s.len() - 1 {
                assert(s[j] == s.drop_last()[j]);
            }
        }
    }
}

proof fn lemma_last_slash_at(s: Seq<char>, i: int)
    requires
        -1 <= i < s.len(),
        i >= 0 ==> s[i] == '/',
        forall|j: int| i < j < s.len() ==> s[j] != '/',
    ensures
        last_slash(s) == i,
    decreases s.len(),
{
    if s.len() > 0 && i < s.len() - 1 {
        lemma_last_slash_at(s.drop_last(), i);
    }
}

/// A parent path is shorter than the path.
pub proof fn lemma_parent_shorter(p: Seq<char>)
    ensures
        parent_of(p) matches Some(q) ==> q.len() < p.len(),
{
    lemma_last_slash(p);
}

/// Index of the last `/` of `p`, if any.
pub fn find_last_slash(p: &str) -> (r: Option<usize>)
    ensures
        match r {
            Some(i) => last_slash(p@) == i,
            None => last_slash(p@) == -1,
        },
{
    let n = p.unicode_len();
    let mut i: usize = n;
    while i > 0
        invariant
            n == p@.len(),
            i <= n,
            forall|j: int| i <= j < n ==> p@[j] != '/',
        decreases i,
    {
        if p.get_char(i - 1) == '/' {
            proof {
                lemma_last_slash_at(p@, i - 1);
            }
            return Some(i - 1);
        }
        i = i - 1;
    }
    proof {
        lemma_last_slash_at(p@, -1);
    }
    None
}

/// The directory that holds `path`.
pub fn parent(path: &String) -> (r: Option<String>)
    ensures
        match parent_of(path@) {
            Some(q) => r matches Some(s) && s@ == q,
            None => r is None,
        },
{
    let s = path.as_str();
    proof {
        lemma_last_slash(path@);
    }
    match find_last_slash(s) {
        None => None,
        Some(i) => {
            if s.unicode_len() == 1 {
                None
            } else if i == 0 {
                proof {
                    lemma_last_slash(path@);
                    reveal_strlit("/");
                    assert("/"@ =~= seq!['/']);
                }
                Some(String::from_str("/"))
            } else {
                Some(String::from_str(s.substring_char(0, i)))
            }
        },
    }
}

/// The last component of `path`.
pub fn file_name(path: &String) -> (r: Option<String>)
    ensures
        match file_name_of(path@) {
            Some(q) => r matches Some(s) && s@ == q,
            None => r is None,
        },
{
    let s = path.as_str();
    let n = s.unicode_len();
    proof {
        lemma_last_slash(path@);
    }
    let start: usize = match find_last_slash(s) {
        Some(i) => i + 1,
        None => 0,
    };
    proof {
        lemma_last_slash(path@);
    }
    if start == n {
        None
    } else {
        Some(String::from_str(s.substring_char(start, n)))
    }
}

/// `name` inside directory `dir`.
pub fn join(dir: &String, name: &String) -> (r: String)
    ensures
        r@ == joined_path(dir@, name@),
{
    let s = dir.as_str();
    let n = s.unicode_len();
    let mut out = String::from_str(s);
    if n == 0 || s.get_char(n - 1) != '/' {
        proof {
            reveal_strlit("/");
        }
        out.append("/");
    }
    out.append(name.as_str());
    proof {
        assert(dir@.len() > 0 ==> dir@.last() == dir@[n - 1]);
    }
    out
}

/// Whether `p` ends with `/`, which marks a directory to create.
pub fn ends_with_slash(p: &String) -> (r: bool)
    ensures
        r == (p@.len() > 0 && p@.last() == '/'),
{
    let s = p.as_str();
    let n = s.unicode_len();
    n > 0 && s.get_char(n - 1) == '/'
}

} // verus!
