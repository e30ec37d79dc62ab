use vstd::prelude::*;

verus! {

/// Named text registers, vim style.
pub struct Register {
    pub command: Option<String>,
    pub content: Vec<(char, String)>,
    pub dot: Option<String>,
    pub find: Option<String>,
    pub searched: Option<String>,
    pub scopes: Vec<(RegisterScope, String)>,
}

/// Register scopes; all macro registers form one scope.
#[derive(Clone, Copy, Debug)]
pub enum RegisterScope {
    Dot,
    Find,
    Macro(char),
}

/// What register `name` holds: the special registers `.`, `;`, `:` and `/`,
/// else the first entry of that name.
pub open spec fn text_of(o: Option<String>) -> Option<Seq<char>> {
    match o {
        Some(s) => Some(s@),
        None => None,
    }
}

pub open spec fn register_value(r: Register, name: char) -> Option<Seq<char>> {
    if name == '.' {
        text_of(r.dot)
    } else if name == ';' {
        text_of(r.find)
    } else if name == ':' {
        text_of(r.command)
    } else if name == '/' {
        text_of(r.searched)
    } else if exists|i: int| 0 <= i < r.content@.len() && r.content@[i].0 == name {
        let i = choose|i: int|
            0 <= i < r.content@.len() && r.content@[i].0 == name && forall|j: int|
                0 <= j < i ==> r.content@[j].0 != name;
        Some(r.content@[i].1@)
    } else {
        None
    }
}

/// One line of the register listing: `"`, the name padded to three columns,
/// a space, then the content.
pub open spec fn listing_line(name: char, content: Seq<char>) -> Seq<char> {
    seq!['"', name, ' ', ' ', ' '] + content
}

/// The listing line of a special register, if it holds text.
pub open spec fn special_line(name: char, o: Option<String>) -> Seq<Seq<char>> {
    match o {
        Some(s) => seq![listing_line(name, s@)],
        None => Seq::empty(),
    }
}

/// The whole `:reg` listing of `r`.
pub open spec fn listing(r: Register) -> Seq<Seq<char>> {
    seq![":reg"@, "Name Content"@] + r.content@.map_values(
        |e: (char, String)| listing_line(e.0, e.1@),
    ) + special_line('.', r.dot) + special_line(':', r.command) + special_line(';', r.find)
        + special_line('/', r.searched)
}

fn copy_text(o: &Option<String>) -> (r: Option<String>)
    ensures
        match *o {
            Some(s) => r matches Some(t) && t@ == s@,
            None => r is None,
        },
{
    match o {
        Some(s) => Some(s.clone()),
        None => None,
    }
}

impl RegisterScope {
    /// Scopes are equal by kind; every macro register is one scope.
    pub fn same_scope(&self, other: &RegisterScope) -> (r: bool)
        ensures
            r == ((*self is Dot && *other is Dot) || (*self is Find && *other is Find) || (
            *self is Macro && *other is Macro)),
    {
        match (self, other) {
            (RegisterScope::Dot, RegisterScope::Dot) => true,
            (RegisterScope::Find, RegisterScope::Find) => true,
            (RegisterScope::Macro(_), RegisterScope::Macro(_)) => true,
            _ => false,
        }
    }
}

impl Register {
    /// Each register name appears once.
    pub open spec fn wf(&self) -> bool {
        forall|i: int, j: int|
            0 <= i < j < self.content@.len() ==> (#[trigger] self.content@[i]).0 != (
            #[trigger] self.content@[j]).0
    }

    pub fn new() -> (r: Register)
        ensures
            r.wf(),
            r.content@.len() == 0,
            r.dot is None && r.find is None && r.command is None && r.searched is None,
    {
        Register {
            command: None,
            content: Vec::new(),
            dot: None,
            find: None,
            searched: None,
            scopes: Vec::new(),
        }
    }

    /// The text held by register `register`.
    pub fn get(&self, register: &char) -> (r: Option<String>)
        ensures
            match register_value(*self, *register) {
                Some(s) => r matches Some(t) && t@ == s,
                None => r is None,
            },
    {
        let c = *register;
        if c == '.' {
            copy_text(&self.dot)
        } else if c == ';' {
            copy_text(&self.find)
        } else if c == ':' {
            copy_text(&self.command)
        } else if c == '/' {
            copy_text(&self.searched)
        } else {
            let n = self.content.len();
            let mut i: usize = 0;
            while i < n
                invariant
                    n == self.content@.len(),
                    c == *register,
                    c != '.' && c != ';' && c != ':' && c != '/',
                    i <= n,
                    forall|j: int| 0 <= j < i ==> self.content@[j].0 != c,
                decreases n - i,
            {
                if self.content[i].0 == c {
                    proof {
                        assert(0 <= i < self.content@.len() && self.content@[i as int].0 == c
                            && forall|j: int| 0 <= j < i ==> self.content@[j].0 != c);
                        let k = choose|k: int|
                            0 <= k < self.content@.len() && self.content@[k].0 == c && forall|j: int|
                                0 <= j < k ==> self.content@[j].0 != c;
                        if k < i {
                            assert(self.content@[k].0 != c);
                        }
                        if k > i {
                            assert(self.content@[i as int].0 != c);
                        }
                    }
                    return Some(self.content[i].1.clone());
                }
                i = i + 1;
            }
            None
        }
    }

    /// The `:reg` listing: a title, a header, the named registers in order,
    /// then `.`, `:`, `;` and `/` where they hold text.
    pub fn print(&self) -> (r: Vec<String>)
        ensures
            r@.map_values(|s: String| s@) == listing(*self),
    {
        let mut contents: Vec<String> = Vec::new();
        contents.push(String::from_str(":reg"));
        contents.push(String::from_str("Name Content"));
        let n = self.content.len();
        let mut i: usize = 0;
        let ghost named = self.content@.map_values(|e: (char, String)| listing_line(e.0, e.1@));
        proof {
            assert(contents@.map_values(|s: String| s@) =~= seq![":reg"@, "Name Content"@] + named.take(0));
        }
        while i < n
            invariant
                n == self.content@.len(),
                named == self.content@.map_values(|e: (char, String)| listing_line(e.0, e.1@)),
                i <= n,
                contents@.map_values(|s: String| s@) == seq![":reg"@, "Name Content"@] + named.take(
                    i as int,
                ),
            decreases n - i,
        {
            let ghost before = contents@;
            let line = print_content(&self.content[i].0, &self.content[i].1);
            contents.push(line);
            proof {
                assert(named.take(i + 1) =~= named.take(i as int).push(named[i as int]));
                assert(contents@.map_values(|s: String| s@) =~= before.map_values(|s: String| s@).push(line@));
            }
            i = i + 1;
        }
        proof {
            assert(named.take(n as int) =~= named);
        }
        self.push_special(&mut contents, '.', &self.dot);
        self.push_special(&mut contents, ':', &self.command);
        self.push_special(&mut contents, ';', &self.find);
        self.push_special(&mut contents, '/', &self.searched);
        proof {
            assert(contents@.map_values(|s: String| s@) =~= listing(*self));
        }
        contents
    }

    fn push_special(&self, contents: &mut Vec<String>, name: char, o: &Option<String>)
        ensures
            final(contents)@.map_values(|s: String| s@) == old(contents)@.map_values(|s: String| s@)
                + special_line(name, *o),
    {
        if let Some(text) = o {
            let line = print_content(&name, text);
            let ghost before = contents@;
            contents.push(line);
            proof {
                assert(contents@.map_values(|s: String| s@) =~= before.map_values(|s: String| s@) + special_line(name, *o));
            }
        } else {
            proof {
                assert(contents@.map_values(|s: String| s@) =~= contents@.map_values(|s: String| s@) + special_line(name, *o));
            }
        }
    }
}

/// One listing line for register `prefix` holding `content`.
pub fn print_content(prefix: &char, content: &String) -> (r: String)
    ensures
        r@ == listing_line(*prefix, content@),
{
    let mut out = String::from_str("\"");
    let name = char_string(*prefix);
    out.append(name.as_str());
    out.append("   ");
    out.append(content.as_str());
    proof {
        reveal_strlit("\"");
        reveal_strlit("   ");
        assert(out@ =~= listing_line(*prefix, content@));
    }
    out
}

/// Relies on char::to_string: the string of one character.
#[verifier::external_body]
fn char_string(c: char) -> (r: String)
    ensures
        r@ == seq![c],
{
    c.to_string()
}

} // verus!
