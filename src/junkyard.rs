use vstd::prelude::*;

use crate::paths::{join, joined_path};
use crate::task::TrashJob;

use crate::order::{
    lemma_lex_asymmetric, lemma_lex_total, lemma_lex_transitive, lex_lt,
    str_lt,
};

verus! {

/// The character of decimal digit `d`.
pub open spec fn digit_char(d: nat) -> char {
    if d == 0 {
        '0'
    } else if d == 1 {
        '1'
    } else if d == 2 {
        '2'
    } else if d == 3 {
        '3'
    } else if d == 4 {
        '4'
    } else if d == 5 {
        '5'
    } else if d == 6 {
        '6'
    } else if d == 7 {
        '7'
    } else if d == 8 {
        '8'
    } else {
        '9'
    }
}

/// Decimal notation of `n`, without leading zeros.
pub open spec fn decimal(n: nat) -> Seq<char>
    decreases n,
{
    if n < 10 {
        seq![digit_char(n)]
    } else {
        decimal(n / 10) + seq![digit_char(n % 10)]
    }
}

/// How one character of a path is written in an id.
pub open spec fn escape_char(c: char) -> Seq<char> {
    if c == '%' {
        seq!['%', '0', '0', '2', '5']
    } else if c == '/' {
        seq!['%', '2', 'F']
    } else {
        seq![c]
    }
}

/// A path with every `%` and `/` escaped.
pub open spec fn escaped(s: Seq<char>) -> Seq<char>
    decreases s.len(),
{
    if s.len() == 0 {
        Seq::empty()
    } else {
        escape_char(s[0]) + escaped(s.skip(1))
    }
}

/// Undoes `escaped`; `None` where a `%` starts no known escape.
pub open spec fn unescaped(s: Seq<char>) -> Option<Seq<char>>
    decreases s.len(),
{
    if s.len() == 0 {
        Some(Seq::empty())
    } else if s[0] != '%' {
        match unescaped(s.skip(1)) {
            Some(t) => Some(seq![s[0]] + t),
            None => None,
        }
    } else if s.len() >= 3 && s[1] == '2' && s[2] == 'F' {
        match unescaped(s.skip(3)) {
            Some(t) => Some(seq!['/'] + t),
            None => None,
        }
    } else if s.len() >= 5 && s[1] == '0' && s[2] == '0' && s[3] == '2' && s[4] == '5' {
        match unescaped(s.skip(5)) {
            Some(t) => Some(seq!['%'] + t),
            None => None,
        }
    } else {
        None
    }
}

/// The id of an entry for `path` created at `millis`: the timestamp, one `%`,
/// then the escaped path.
pub open spec fn composed(millis: nat, path: Seq<char>) -> Seq<char> {
    decimal(millis) + seq!['%'] + escaped(path)
}

/// Index of the first `%` in `s`, if any.
pub open spec fn first_percent(s: Seq<char>) -> Option<int> {
    if exists|k: int| 0 <= k < s.len() && s[k] == '%' {
        Some(choose|k: int| 0 <= k < s.len() && s[k] == '%' && forall|j: int| 0 <= j < k ==> s[j] != '%')
    } else {
        None
    }
}

/// Timestamp text and trashed path of an id, if it is well formed.
pub open spec fn decomposed(id: Seq<char>) -> Option<(Seq<char>, Seq<char>)> {
    match first_percent(id) {
        Some(k) => match unescaped(id.skip(k + 1)) {
            Some(p) => Some((id.take(k), p)),
            None => None,
        },
        None => None,
    }
}

proof fn lemma_first_percent_exists(s: Seq<char>)
    requires
        exists|k: int| 0 <= k < s.len() && s[k] == '%',
    ensures
        exists|k: int| 0 <= k < s.len() && s[k] == '%' && forall|j: int| 0 <= j < k ==> s[j] != '%',
    decreases s.len(),
{
    if s[0] == '%' {
        assert(forall|j: int| 0 <= j < 0 ==> s[j] != '%');
    } else {
        let k0 = choose|k: int| 0 <= k < s.len() && s[k] == '%';
        assert(s.skip(1)[k0 - 1] == '%');
        lemma_first_percent_exists(s.skip(1));
        let k = choose|k: int|
            0 <= k < s.skip(1).len() && s.skip(1)[k] == '%' && forall|j: int|
                0 <= j < k ==> s.skip(1)[j] != '%';
        assert(s[k + 1] == '%');
        assert forall|j: int| 0 <= j < k + 1 implies s[j] != '%' by {
            if j > 0 {
                assert(s[j] == s.skip(1)[j - 1]);
            }
        }
    }
}

/// The first `%` of `a + b`, where `a` holds none, is the one of `b`.
proof fn lemma_first_percent_after(a: Seq<char>, b: Seq<char>)
    requires
        forall|j: int| 0 <= j < a.len() ==> a[j] != '%',
        b.len() > 0,
        b[0] == '%',
    ensures
        first_percent(a + b) == Some(a.len() as int),
{
    let s = a + b;
    assert(s[a.len() as int] == '%');
    lemma_first_percent_exists(s);
    let k = choose|k: int| 0 <= k < s.len() && s[k] == '%' && forall|j: int| 0 <= j < k ==> s[j] != '%';
    if k < a.len() {
        assert(s[k] == a[k]);
    }
    if k > a.len() {
        assert(s[a.len() as int] == '%');
    }
}

proof fn lemma_decimal_digits(n: nat)
    ensures
        forall|j: int| 0 <= j < decimal(n).len() ==> decimal(n)[j] != '%',
    decreases n,
{
    if n >= 10 {
        lemma_decimal_digits(n / 10);
        let a = decimal(n / 10);
        let s = a + seq![digit_char(n % 10)];
        assert forall|j: int| 0 <= j < s.len() implies s[j] != '%' by {
            if j < a.len() {
                assert(s[j] == a[j]);
            }
        }
    }
}

proof fn lemma_unescape_escaped(s: Seq<char>)
    ensures
        unescaped(escaped(s)) == Some(s),
    decreases s.len(),
{
    if s.len() > 0 {
        lemma_unescape_escaped(s.skip(1));
        let e = escaped(s);
        let rest = escaped(s.skip(1));
        let c = s[0];
        assert(e == escape_char(c) + rest);
        let k = escape_char(c).len() as int;
        assert(e.skip(k) =~= rest);
        assert(seq![c] + s.skip(1) =~= s);
    } else {
        assert(escaped(s) =~= Seq::<char>::empty());
    }
}

/// Splitting an id that `compose_id` built gives back the timestamp's digits
/// and the path exactly, whatever `%` or `/` the path holds.
#[verifier::rlimit(40)]
pub proof fn lemma_id_round_trip(millis: nat, path: Seq<char>)
    ensures
        decomposed(composed(millis, path)) == Some((decimal(millis), path)),
{
    let d = decimal(millis);
    let e = escaped(path);
    let id = composed(millis, path);
    lemma_decimal_digits(millis);
    lemma_first_percent_after(d, seq!['%'] + e);
    assert(id =~= d + (seq!['%'] + e));
    let k = d.len() as int;
    lemma_split_at(id, k, d, e);
    lemma_unescape_escaped(path);
}

proof fn lemma_split_at(id: Seq<char>, k: int, d: Seq<char>, e: Seq<char>)
    requires
        id == d + (seq!['%'] + e),
        k == d.len(),
        first_percent(id) == Some(k),
    ensures
        id.skip(k + 1) == e,
        id.take(k) == d,
        decomposed(id) == match unescaped(e) {
            Some(p) => Some((d, p)),
            None => None,
        },
{
    assert(id.skip(k + 1) =~= e);
    assert(id.take(k) =~= d);
}

proof fn lemma_escaped_append(a: Seq<char>, b: Seq<char>)
    ensures
        escaped(a + b) == escaped(a) + escaped(b),
    decreases a.len(),
{
    if a.len() == 0 {
        assert(a + b =~= b);
        assert(escaped(a) =~= Seq::<char>::empty());
        assert(escaped(a) + escaped(b) =~= escaped(b));
    } else {
        assert((a + b).skip(1) =~= a.skip(1) + b);
        lemma_escaped_append(a.skip(1), b);
        assert((a + b)[0] == a[0]);
        assert(escaped(a + b) =~= escape_char(a[0]) + (escaped(a.skip(1)) + escaped(b)));
    }
}

proof fn lemma_escaped_step(s: Seq<char>, i: int)
    requires
        0 <= i < s.len(),
    ensures
        escaped(s.take(i + 1)) == escaped(s.take(i)) + escape_char(s[i]),
{
    assert(s.take(i + 1) =~= s.take(i) + seq![s[i]]);
    lemma_escaped_append(s.take(i), seq![s[i]]);
    assert(seq![s[i]].skip(1) =~= Seq::<char>::empty());
    assert(escaped(seq![s[i]].skip(1)) =~= Seq::<char>::empty());
    assert(escaped(seq![s[i]]) =~= escape_char(s[i]));
}

fn digit_str(d: u64) -> (r: &'static str)
    requires
        d < 10,
    ensures
        r@ == seq![digit_char(d as nat)],
{
    proof {
        reveal_strlit("0");
        reveal_strlit("1");
        reveal_strlit("2");
        reveal_strlit("3");
        reveal_strlit("4");
        reveal_strlit("5");
        reveal_strlit("6");
        reveal_strlit("7");
        reveal_strlit("8");
        reveal_strlit("9");
    }
    if d == 0 {
        "0"
    } else if d == 1 {
        "1"
    } else if d == 2 {
        "2"
    } else if d == 3 {
        "3"
    } else if d == 4 {
        "4"
    } else if d == 5 {
        "5"
    } else if d == 6 {
        "6"
    } else if d == 7 {
        "7"
    } else if d == 8 {
        "8"
    } else {
        "9"
    }
}

/// Decimal notation of `n`.
pub fn decimal_string(n: u64) -> (r: String)
    ensures
        r@ == decimal(n as nat),
    decreases n,
{
    if n < 10 {
        String::from_str(digit_str(n))
    } else {
        let mut out = decimal_string(n / 10);
        out.append(digit_str(n % 10));
        out
    }
}

/// `path` with `%` and `/` escaped, so that it can stand in a file name.
pub fn escape_path(path: &String) -> (r: String)
    ensures
        r@ == escaped(path@),
{
    let s = path.as_str();
    let n = s.unicode_len();
    let mut out = String::new();
    let mut i: usize = 0;
    proof {
        assert(path@.take(0) =~= Seq::<char>::empty());
        assert(escaped(path@.take(0)) =~= Seq::<char>::empty());
    }
    while i < n
        invariant
            n == path@.len(),
            s@ == path@,
            i <= n,
            out@ == escaped(path@.take(i as int)),
        decreases n - i,
    {
        let c = s.get_char(i);
        proof {
            reveal_strlit("%0025");
            reveal_strlit("%2F");
            lemma_escaped_step(path@, i as int);
        }
        if c == '%' {
            out.append("%0025");
        } else if c == '/' {
            out.append("%2F");
        } else {
            out.append(s.substring_char(i, i + 1));
            proof {
                assert(s@.subrange(i as int, i + 1) =~= seq![c]);
            }
        }
        i = i + 1;
    }
    proof {
        assert(path@.take(n as int) =~= path@);
    }
    out
}

/// The id of the entry for `path` created at `millis`: timestamp first, so
/// that ids sort by age, then `%`, then the escaped path.
pub fn compose_id(millis: u64, path: &String) -> (r: String)
    ensures
        r@ == composed(millis as nat, path@),
{
    let mut out = decimal_string(millis);
    proof {
        reveal_strlit("%");
    }
    out.append("%");
    let rest = escape_path(path);
    out.append(rest.as_str());
    out
}

pub open spec fn prepend_some(a: Seq<char>, o: Option<Seq<char>>) -> Option<Seq<char>> {
    match o {
        Some(t) => Some(a + t),
        None => None,
    }
}

/// Undoes `escape_path` on the characters of `s` from index `from` on.
fn unescape_from(s: &str, from: usize) -> (r: Option<String>)
    requires
        from <= s@.len(),
    ensures
        match unescaped(s@.skip(from as int)) {
            Some(t) => r matches Some(o) && o@ == t,
            None => r is None,
        },
{
    let n = s.unicode_len();
    let mut out = String::new();
    let mut i: usize = from;
    proof {
        assert(prepend_some(out@, unescaped(s@.skip(from as int))) =~= unescaped(
            s@.skip(from as int),
        )) by {
            match unescaped(s@.skip(from as int)) {
                Some(t) => {
                    assert(out@ + t =~= t);
                },
                None => {},
            }
        }
    }
    while i < n
        invariant
            n == s@.len(),
            from <= i <= n,
            unescaped(s@.skip(from as int)) == prepend_some(out@, unescaped(s@.skip(i as int))),
        decreases n - i,
    {
        let t = Ghost(s@.skip(i as int));
        let c = s.get_char(i);
        assert(t@[0] == c);
        if c != '%' {
            proof {
                assert(t@.skip(1) =~= s@.skip(i + 1));
                match unescaped(s@.skip(i + 1)) {
                    Some(u) => {
                        assert(out@ + (seq![c] + u) =~= out@ + s@.subrange(i as int, i + 1) + u);
                    },
                    None => {},
                }
            }
            let one = s.substring_char(i, i + 1);
            out.append(one);
            i = i + 1;
        } else if n - i > 2 && s.get_char(i + 1) == '2' && s.get_char(i + 2) == 'F' {
            proof {
                reveal_strlit("/");
                assert(t@.skip(3) =~= s@.skip(i + 3));
                match unescaped(s@.skip(i + 3)) {
                    Some(u) => {
                        assert(out@ + (seq!['/'] + u) =~= out@ + "/"@ + u);
                    },
                    None => {},
                }
            }
            out.append("/");
            i = i + 3;
        } else if n - i > 4 && s.get_char(i + 1) == '0' && s.get_char(i + 2) == '0' && s.get_char(
            i + 3,
        ) == '2' && s.get_char(i + 4) == '5' {
            proof {
                reveal_strlit("%");
                assert(t@.skip(5) =~= s@.skip(i + 5));
                match unescaped(s@.skip(i + 5)) {
                    Some(u) => {
                        assert(out@ + (seq!['%'] + u) =~= out@ + "%"@ + u);
                    },
                    None => {},
                }
            }
            out.append("%");
            i = i + 5;
        } else {
            return None;
        }
    }
    proof {
        assert(s@.skip(n as int) =~= Seq::<char>::empty());
        assert(out@ + Seq::<char>::empty() =~= out@);
    }
    Some(out)
}

/// Splits an id into its timestamp text and the trashed path; `None` for a
/// name that no id has.
pub fn decompose_id(id: &String) -> (r: Option<(String, String)>)
    ensures
        match decomposed(id@) {
            Some((t, p)) => r matches Some((a, b)) && a@ == t && b@ == p,
            None => r is None,
        },
{
    let s = id.as_str();
    let n = s.unicode_len();
    let mut k: usize = 0;
    while k < n && s.get_char(k) != '%'
        invariant
            n == id@.len(),
            s@ == id@,
            k <= n,
            forall|j: int| 0 <= j < k ==> id@[j] != '%',
        decreases n - k,
    {
        k = k + 1;
    }
    if k == n {
        return None;
    }
    proof {
        let f = first_percent(id@);
        assert(id@[k as int] == '%');
        lemma_first_percent_exists(id@);
        let c = choose|c: int|
            0 <= c < id@.len() && id@[c] == '%' && forall|j: int| 0 <= j < c ==> id@[j] != '%';
        if c < k {
            assert(id@[c] != '%');
        }
        if c > k {
            assert(id@[k as int] != '%');
        }
        assert(f == Some(k as int));
    }
    let stamp = String::from_str(s.substring_char(0, k));
    match unescape_from(s, k + 1) {
        Some(path) => Some((stamp, path)),
        None => None,
    }
}

/// Most entries the register keeps.
pub const MAX_ENTRIES: usize = 10;

/// Ids sorted newest first: no id sorts after an id behind it.
pub open spec fn sorted_desc(s: Seq<Seq<char>>) -> bool {
    forall|i: int, j: int| 0 <= i < j < s.len() ==> !lex_lt(#[trigger] s[i], #[trigger] s[j])
}

/// Ids sorted newest first, with no two equal.
pub open spec fn strictly_desc(s: Seq<Seq<char>>) -> bool {
    forall|i: int, j: int| 0 <= i < j < s.len() ==> lex_lt(#[trigger] s[j], #[trigger] s[i])
}

/// Where `x` goes in newest-first `s`: before the first id that sorts below it.
pub open spec fn slot(s: Seq<Seq<char>>, x: Seq<char>) -> int
    decreases s.len(),
{
    if s.len() == 0 {
        0
    } else if lex_lt(s[0], x) {
        0
    } else {
        1 + slot(s.skip(1), x)
    }
}

/// The ids after `x` was added to `s`, and the id evicted by the bound, if any.
pub open spec fn junk_step(s: Seq<Seq<char>>, x: Seq<char>) -> (Seq<Seq<char>>, Option<Seq<char>>) {
    let t = s.insert(slot(s, x), x);
    if t.len() > MAX_ENTRIES {
        (t.drop_last(), Some(t.last()))
    } else {
        (t, None)
    }
}

/// The ids kept and the ids evicted after adding `ids` one by one to an empty
/// register.
pub open spec fn junk_run(ids: Seq<Seq<char>>) -> (Seq<Seq<char>>, Seq<Seq<char>>)
    decreases ids.len(),
{
    if ids.len() == 0 {
        (Seq::empty(), Seq::empty())
    } else {
        let prev = junk_run(ids.drop_last());
        let step = junk_step(prev.0, ids.last());
        (
            step.0,
            match step.1 {
                Some(y) => prev.1.push(y),
                None => prev.1,
            },
        )
    }
}

proof fn lemma_slot(s: Seq<Seq<char>>, x: Seq<char>)
    ensures
        0 <= slot(s, x) <= s.len(),
        forall|i: int| 0 <= i < slot(s, x) ==> !lex_lt(#[trigger] s[i], x),
        slot(s, x) < s.len() ==> lex_lt(s[slot(s, x)], x),
    decreases s.len(),
{
    if s.len() > 0 && !lex_lt(s[0], x) {
        lemma_slot(s.skip(1), x);
        assert forall|i: int| 0 <= i < slot(s, x) implies !lex_lt(#[trigger] s[i], x) by {
            if i > 0 {
                assert(s[i] == s.skip(1)[i - 1]);
            }
        }
    }
}

/// Inserting a new id at its slot keeps a strictly sorted sequence strictly sorted.
proof fn lemma_insert_strict(s: Seq<Seq<char>>, x: Seq<char>)
    requires
        strictly_desc(s),
        !s.contains(x),
    ensures
        strictly_desc(s.insert(slot(s, x), x)),
{
    lemma_slot(s, x);
    let p = slot(s, x);
    let t = s.insert(p, x);
    assert forall|i: int, j: int| 0 <= i < j < t.len() implies lex_lt(#[trigger] t[j], #[trigger] t[i]) by {
        if j < p {
            assert(t[i] == s[i] && t[j] == s[j]);
        } else if j == p {
            assert(t[i] == s[i]);
            assert(!lex_lt(s[i], x));
            if s[i] == x {
                assert(s.contains(x));
            }
            lemma_lex_total(s[i], x);
        } else if i > p {
            assert(t[i] == s[i - 1] && t[j] == s[j - 1]);
        } else if i == p {
            assert(t[j] == s[j - 1]);
            if j - 1 > p {
                assert(lex_lt(s[j - 1], s[p]));
                lemma_lex_transitive(s[j - 1], s[p], x);
            }
        } else {
            assert(t[i] == s[i] && t[j] == s[j - 1]);
        }
    }
}

proof fn lemma_insert_contains(s: Seq<Seq<char>>, p: int, x: Seq<char>)
    requires
        0 <= p <= s.len(),
    ensures
        s.insert(p, x).to_set() == s.to_set().insert(x),
{
    let t = s.insert(p, x);
    assert forall|y: Seq<char>| t.to_set().contains(y) <==> s.to_set().insert(x).contains(y) by {
        if t.contains(y) {
            let i = choose|i: int| 0 <= i < t.len() && t[i] == y;
            if i < p {
                assert(s[i] == y);
            } else if i > p {
                assert(s[i - 1] == y);
            }
        }
        if s.contains(y) {
            let i = choose|i: int| 0 <= i < s.len() && s[i] == y;
            if i < p {
                assert(t[i] == y);
            } else {
                assert(t[i + 1] == y);
            }
        }
        if y == x {
            assert(t[p] == x);
        }
    }
    assert(t.to_set() =~= s.to_set().insert(x));
}

/// All ids distinct.
pub open spec fn distinct(ids: Seq<Seq<char>>) -> bool {
    forall|i: int, j: int| 0 <= i < j < ids.len() ==> ids[i] != ids[j]
}

/// What holds after adding `ids` one by one: the register keeps the newest
/// ten (all of them while there are fewer), sorted newest first, and every
/// evicted id sorts below every kept one.
pub open spec fn run_holds(ids: Seq<Seq<char>>) -> bool {
    let r = junk_run(ids);
    &&& r.0.len() == if ids.len() > MAX_ENTRIES {
        MAX_ENTRIES as int
    } else {
        ids.len() as int
    }
    &&& r.1.len() == ids.len() - r.0.len()
    &&& strictly_desc(r.0)
    &&& forall|a: int, b: int|
        0 <= a < r.1.len() && 0 <= b < r.0.len() ==> lex_lt(#[trigger] r.1[a], #[trigger] r.0[b])
    &&& r.0.to_set().union(r.1.to_set()) == ids.to_set()
}

proof fn lemma_run(ids: Seq<Seq<char>>)
    requires
        distinct(ids),
    ensures
        run_holds(ids),
    decreases ids.len(),
{
    if ids.len() == 0 {
        assert(junk_run(ids).0.to_set() =~= Set::<Seq<char>>::empty());
        assert(junk_run(ids).1.to_set() =~= Set::<Seq<char>>::empty());
        assert(ids.to_set() =~= Set::<Seq<char>>::empty());
        assert(junk_run(ids).0.to_set().union(junk_run(ids).1.to_set()) =~= ids.to_set());
    } else {
        let pre = ids.drop_last();
        let x = ids.last();
        assert(distinct(pre)) by {
            assert forall|i: int, j: int| 0 <= i < j < pre.len() implies pre[i] != pre[j] by {
                assert(pre[i] == ids[i] && pre[j] == ids[j]);
            }
        }
        lemma_run(pre);
        let prev = junk_run(pre);
        let kept = prev.0;
        let ev = prev.1;
        assert(!kept.contains(x)) by {
            if kept.contains(x) {
                let i = choose|i: int| 0 <= i < kept.len() && kept[i] == x;
                assert(kept.to_set().contains(x));
                assert(pre.to_set().contains(x));
                let j = choose|j: int| 0 <= j < pre.len() && pre[j] == x;
                assert(ids[j] == ids[ids.len() - 1]);
            }
        }
        let p = slot(kept, x);
        lemma_slot(kept, x);
        let t = kept.insert(p, x);
        lemma_insert_strict(kept, x);
        lemma_insert_contains(kept, p, x);
        assert(ids =~= pre.push(x));
        assert(ids.to_set() =~= pre.to_set().insert(x)) by {
            lemma_insert_contains(pre, pre.len() as int, x);
            assert(pre.insert(pre.len() as int, x) =~= pre.push(x));
        }
        let r = junk_run(ids);
        if t.len() > MAX_ENTRIES {
            let m = t.last();
            let nk = t.drop_last();
            assert(r.0 == nk);
            assert(r.1 == ev.push(m));
            assert(strictly_desc(nk)) by {
                assert forall|i: int, j: int| 0 <= i < j < nk.len() implies lex_lt(#[trigger] nk[j], #[trigger] nk[i]) by {
                    assert(nk[i] == t[i] && nk[j] == t[j]);
                }
            }
            assert forall|a: int, b: int|
                0 <= a < r.1.len() && 0 <= b < r.0.len() implies lex_lt(#[trigger] r.1[a], #[trigger] r.0[b]) by {
                assert(r.0[b] == t[b]);
                assert(lex_lt(t[t.len() - 1], t[b]));
                if a < ev.len() {
                    assert(r.1[a] == ev[a]);
                    if p == t.len() - 1 {
                        assert(t[b] == kept[b]);
                    } else {
                        assert(t[t.len() - 1] == kept[kept.len() - 1]);
                        assert(lex_lt(ev[a], kept[kept.len() - 1]));
                        lemma_lex_transitive(ev[a], t[t.len() - 1], t[b]);
                    }
                } else {
                    assert(r.1[a] == m);
                }
            }
            assert(t =~= nk.push(m));
            lemma_insert_contains(nk, nk.len() as int, m);
            assert(nk.insert(nk.len() as int, m) =~= nk.push(m));
            lemma_insert_contains(ev, ev.len() as int, m);
            assert(ev.insert(ev.len() as int, m) =~= ev.push(m));
            assert(kept.to_set().union(ev.to_set()) == pre.to_set());
            assert(t.to_set() == nk.to_set().insert(m));
            assert(t.to_set() == kept.to_set().insert(x));
            assert(r.1.to_set() == ev.to_set().insert(m));
            assert forall|y: Seq<char>| #[trigger] ids.to_set().contains(y) <==> r.0.to_set().union(
                r.1.to_set(),
            ).contains(y) by {
                assert(nk.to_set().insert(m).contains(y) == kept.to_set().insert(x).contains(y));
            }
            assert(r.0.to_set().union(r.1.to_set()) =~= ids.to_set());
        } else {
            assert(r.0 == t);
            assert(r.1 == ev);
            assert(ev.len() == 0);
            assert(ev.to_set() =~= Set::<Seq<char>>::empty());
            assert(kept.to_set().union(ev.to_set()) =~= kept.to_set());
            assert(r.0.to_set().union(r.1.to_set()) =~= ids.to_set());
        }
    }
}

/// After adding `k > 10` entries with distinct ids, one at a time: exactly
/// ten remain, sorted newest first by id, and the `k - 10` evicted ones are
/// the oldest, each sorting below every kept id.
pub proof fn lemma_eviction_bound(ids: Seq<Seq<char>>)
    requires
        ids.len() > MAX_ENTRIES,
        distinct(ids),
    ensures
        junk_run(ids).0.len() == MAX_ENTRIES,
        junk_run(ids).1.len() == ids.len() - MAX_ENTRIES,
        strictly_desc(junk_run(ids).0),
        forall|a: int, b: int|
            0 <= a < junk_run(ids).1.len() && 0 <= b < junk_run(ids).0.len() ==> lex_lt(
                #[trigger] junk_run(ids).1[a],
                #[trigger] junk_run(ids).0[b],
            ),
        junk_run(ids).0.to_set().union(junk_run(ids).1.to_set()) == ids.to_set(),
{
    lemma_run(ids);
}

/// Whether an entry's archive is still being written.
#[derive(Clone, Copy, Debug, PartialEq, Eq, Structural)]
pub enum JunkStatus {
    Processing,
    Ready,
}

/// A trashed path: its id, where its archive lives, the archive's state and
/// the path it came from.
pub struct JunkEntry {
    pub id: String,
    pub cache_path: String,
    pub status: JunkStatus,
    pub target_path: String,
}

/// The ids of a run of entries.
pub open spec fn ids_of(entries: Seq<JunkEntry>) -> Seq<Seq<char>> {
    entries.map_values(|e: JunkEntry| e.id@)
}

/// The bounded register of trashed paths, newest first.
pub struct Junkyard {
    pub entries: Vec<JunkEntry>,
}

impl Junkyard {
    pub open spec fn wf(&self) -> bool {
        &&& self.entries@.len() <= MAX_ENTRIES
        &&& sorted_desc(ids_of(self.entries@))
    }

    pub fn new() -> (r: Junkyard)
        ensures
            r.wf(),
            r.entries@.len() == 0,
    {
        Junkyard { entries: Vec::new() }
    }

    /// Adds `entry` at its place by id, newest first. Past the bound the oldest
    /// entry leaves the register and is returned, so that its archive can be
    /// deleted.
    pub fn add(&mut self, entry: JunkEntry) -> (r: Option<JunkEntry>)
        requires
            old(self).wf(),
        ensures
            final(self).wf(),
            ({
                let p = slot(ids_of(old(self).entries@), entry.id@);
                let t = old(self).entries@.insert(p, entry);
                if t.len() > MAX_ENTRIES {
                    final(self).entries@ == t.drop_last() && r == Some(t.last())
                } else {
                    final(self).entries@ == t && r is None
                }
            }),
            ids_of(final(self).entries@) == junk_step(ids_of(old(self).entries@), entry.id@).0,
            match junk_step(ids_of(old(self).entries@), entry.id@).1 {
                Some(y) => r matches Some(e) && e.id@ == y,
                None => r is None,
            },
    {
        let ghost ids = ids_of(self.entries@);
        let ghost x = entry.id@;
        proof {
            lemma_slot(ids, x);
        }
        let n = self.entries.len();
        let mut p: usize = 0;
        while p < n && !str_lt(&self.entries[p].id, &entry.id)
            invariant
                n == self.entries@.len(),
                ids == ids_of(self.entries@),
                x == entry.id@,
                p <= n,
                forall|i: int| 0 <= i < p ==> !lex_lt(#[trigger] ids[i], x),
            decreases n - p,
        {
            assert(ids[p as int] == self.entries@[p as int].id@);
            p = p + 1;
        }
        assert(p < n ==> ids[p as int] == self.entries@[p as int].id@);
        proof {
            lemma_slot_unique(ids, x, p as int);
        }
        let ghost t = self.entries@.insert(p as int, entry);
        let ghost before = self.entries@;
        self.entries.insert(p, entry);
        proof {
            assert(ids_of(t) =~= ids.insert(p as int, x));
            lemma_insert_sorted(ids, x);
        }
        if self.entries.len() > MAX_ENTRIES {
            let evicted = self.entries.pop();
            proof {
                assert(ids_of(self.entries@) =~= ids_of(t).drop_last());
                lemma_sorted_prefix(ids_of(t));
            }
            evicted
        } else {
            None
        }
    }

    /// Marks the entry whose archive is `cache_path` as ready; `false` when no
    /// entry has that archive.
    pub fn set_ready(&mut self, cache_path: &String) -> (r: bool)
        requires
            old(self).wf(),
        ensures
            final(self).wf(),
            final(self).entries@.len() == old(self).entries@.len(),
            r == exists|i: int|
                0 <= i < old(self).entries@.len() && old(self).entries@[i].cache_path@
                    == cache_path@,
            forall|i: int|
                0 <= i < old(self).entries@.len() ==> {
                    let o = #[trigger] old(self).entries@[i];
                    let f = final(self).entries@[i];
                    &&& f.id == o.id
                    &&& f.cache_path == o.cache_path
                    &&& f.target_path == o.target_path
                    &&& f.status == if o.cache_path@ == cache_path@ {
                        JunkStatus::Ready
                    } else {
                        o.status
                    }
                },
    {
        let n = self.entries.len();
        let mut found = false;
        let mut i: usize = 0;
        while i < n
            invariant
                n == self.entries@.len(),
                n == old(self).entries@.len(),
                i <= n,
                found == exists|j: int| 0 <= j < i && old(self).entries@[j].cache_path@ == cache_path@,
                forall|j: int|
                    0 <= j < n ==> {
                        let o = #[trigger] old(self).entries@[j];
                        let f = self.entries@[j];
                        &&& f.id == o.id
                        &&& f.cache_path == o.cache_path
                        &&& f.target_path == o.target_path
                        &&& f.status == if j < i && o.cache_path@ == cache_path@ {
                            JunkStatus::Ready
                        } else {
                            o.status
                        }
                    },
            decreases n - i,
        {
            if self.entries[i].cache_path == *cache_path {
                self.entries[i].status = JunkStatus::Ready;
                found = true;
                assert(old(self).entries@[i as int].cache_path@ == cache_path@);
            }
            assert(found == exists|j: int|
                0 <= j < i + 1 && old(self).entries@[j].cache_path@ == cache_path@) by {
                if old(self).entries@[i as int].cache_path@ == cache_path@ {
                    assert(0 <= i < i + 1);
                }
            }
            i = i + 1;
        }
        proof {
            assert(ids_of(self.entries@) =~= ids_of(old(self).entries@));
        }
        found
    }

    /// Takes out the entry with id `id`, as a restore does.
    pub fn remove(&mut self, id: &String) -> (r: Option<JunkEntry>)
        requires
            old(self).wf(),
        ensures
            final(self).wf(),
            match r {
                Some(e) => e.id@ == id@ && exists|i: int|
                    0 <= i < old(self).entries@.len() && old(self).entries@[i] == e
                        && final(self).entries@ == old(self).entries@.remove(i),
                None => final(self).entries@ == old(self).entries@ && forall|i: int|
                    0 <= i < old(self).entries@.len() ==> old(self).entries@[i].id@ != id@,
            },
    {
        let n = self.entries.len();
        let mut i: usize = 0;
        while i < n
            invariant
                n == self.entries@.len(),
                self.entries@ == old(self).entries@,
                old(self).wf(),
                i <= n,
                forall|j: int| 0 <= j < i ==> old(self).entries@[j].id@ != id@,
            decreases n - i,
        {
            if self.entries[i].id == *id {
                let ghost before = self.entries@;
                let e = self.entries.remove(i);
                proof {
                    lemma_sorted_remove(ids_of(before), i as int);
                    assert(ids_of(self.entries@) =~= ids_of(before).remove(i as int));
                }
                return Some(e);
            }
            i = i + 1;
        }
        None
    }

    /// The newest entry, if any.
    pub fn newest(&self) -> (r: Option<&JunkEntry>)
        ensures
            match r {
                Some(e) => self.entries@.len() > 0 && *e == self.entries@[0],
                None => self.entries@.len() == 0,
            },
    {
        if self.entries.len() == 0 {
            None
        } else {
            Some(&self.entries[0])
        }
    }
}

proof fn lemma_slot_unique(s: Seq<Seq<char>>, x: Seq<char>, p: int)
    requires
        0 <= p <= s.len(),
        forall|i: int| 0 <= i < p ==> !lex_lt(#[trigger] s[i], x),
        p < s.len() ==> lex_lt(s[p], x),
    ensures
        slot(s, x) == p,
    decreases s.len(),
{
    if p > 0 {
        assert(!lex_lt(s[0], x));
        assert forall|i: int| 0 <= i < p - 1 implies !lex_lt(#[trigger] s.skip(1)[i], x) by {
            assert(s.skip(1)[i] == s[i + 1]);
        }
        if p - 1 < s.skip(1).len() {
            assert(s.skip(1)[p - 1] == s[p]);
        }
        lemma_slot_unique(s.skip(1), x, p - 1);
    }
}

proof fn lemma_insert_sorted(s: Seq<Seq<char>>, x: Seq<char>)
    requires
        sorted_desc(s),
    ensures
        sorted_desc(s.insert(slot(s, x), x)),
{
    lemma_slot(s, x);
    let p = slot(s, x);
    let t = s.insert(p, x);
    assert forall|i: int, j: int| 0 <= i < j < t.len() implies !lex_lt(#[trigger] t[i], #[trigger] t[j]) by {
        if j < p {
            assert(t[i] == s[i] && t[j] == s[j]);
        } else if j == p {
            assert(t[i] == s[i]);
        } else if i > p {
            assert(t[i] == s[i - 1] && t[j] == s[j - 1]);
        } else if i == p {
            assert(t[j] == s[j - 1]);
            assert(lex_lt(s[p], x));
            if lex_lt(x, s[j - 1]) {
                if j - 1 == p {
                    lemma_lex_asymmetric(x, s[p]);
                } else {
                    assert(!lex_lt(s[p], s[j - 1]));
                    if s[p] != s[j - 1] {
                        lemma_lex_total(s[p], s[j - 1]);
                        lemma_lex_transitive(s[j - 1], s[p], x);
                        lemma_lex_asymmetric(x, s[j - 1]);
                    } else {
                        lemma_lex_asymmetric(x, s[p]);
                    }
                }
            }
        } else {
            assert(t[i] == s[i] && t[j] == s[j - 1]);
        }
    }
}

proof fn lemma_sorted_prefix(s: Seq<Seq<char>>)
    requires
        sorted_desc(s),
        s.len() > 0,
    ensures
        sorted_desc(s.drop_last()),
{
    let d = s.drop_last();
    assert forall|i: int, j: int| 0 <= i < j < d.len() implies !lex_lt(#[trigger] d[i], #[trigger] d[j]) by {
        assert(d[i] == s[i] && d[j] == s[j]);
    }
}

proof fn lemma_sorted_remove(s: Seq<Seq<char>>, k: int)
    requires
        sorted_desc(s),
        0 <= k < s.len(),
    ensures
        sorted_desc(s.remove(k)),
{
    let d = s.remove(k);
    assert forall|i: int, j: int| 0 <= i < j < d.len() implies !lex_lt(#[trigger] d[i], #[trigger] d[j]) by {
        let a = if i < k { i } else { i + 1 };
        let b = if j < k { j } else { j + 1 };
        assert(d[i] == s[a] && d[j] == s[b]);
    }
}

impl JunkEntry {
    /// The archive job for this entry.
    pub fn job(&self) -> (r: TrashJob)
        ensures
            r.id == self.id,
            r.cache_path == self.cache_path,
            r.target_path == self.target_path,
    {
        TrashJob {
            id: self.id.clone(),
            cache_path: self.cache_path.clone(),
            target_path: self.target_path.clone(),
        }
    }
}

impl Junkyard {
    /// Registers `path`, trashed at `millis`, with its archive in directory
    /// `dir`. Returns the job that archives it and, past the bound, the job
    /// deleting the evicted entry's archive.
    pub fn trash(&mut self, millis: u64, path: &String, dir: &String) -> (r: (TrashJob, Option<TrashJob>))
        requires
            old(self).wf(),
        ensures
            final(self).wf(),
            r.0.id@ == composed(millis as nat, path@),
            r.0.cache_path@ == joined_path(dir@, composed(millis as nat, path@)),
            r.0.target_path@ == path@,
            ids_of(final(self).entries@) == junk_step(
                ids_of(old(self).entries@),
                composed(millis as nat, path@),
            ).0,
            match junk_step(ids_of(old(self).entries@), composed(millis as nat, path@)).1 {
                Some(y) => r.1 matches Some(j) && j.id@ == y,
                None => r.1 is None,
            },
    {
        let id = compose_id(millis, path);
        let cache_path = join(dir, &id);
        let entry = JunkEntry { id, cache_path, status: JunkStatus::Processing, target_path: path.clone() };
        let job = entry.job();
        let evicted = self.add(entry);
        let old_job = match &evicted {
            Some(e) => Some(e.job()),
            None => None,
        };
        (job, old_job)
    }
}

} // verus!
