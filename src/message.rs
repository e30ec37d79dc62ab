use vstd::prelude::*;

verus! {

/// What a key chord is bound to.
pub enum Binding {
    Message(KeymapMessage),
    Mode(Mode),
    ModeAndNotRepeatedMotion(Mode, CursorDirection),
    ModeAndTextModification(Mode, TextModification),
    Motion(CursorDirection),
    Repeat(usize),
    RepeatOrMotion(usize, CursorDirection),
}

/// Text printed to the command line.
pub enum PrintContent {
    Error(String),
    Info(String),
}

/// What a listed entry is.
#[derive(Clone, Copy, Debug, PartialEq, Eq, Structural)]
pub enum ContentKind {
    Directory,
    File,
}

/// Messages that act on the focused text buffer.
pub enum Buffer {
    ChangeMode(Mode, Mode),
    Modification(TextModification),
    MoveCursor(usize, CursorDirection),
    MoveViewPort(ViewPortDirection),
    SaveBuffer(Option<usize>),
}

/// Edits of the text under the cursor.
pub enum TextModification {
    DeleteCharBeforeCursor,
    DeleteCharOnCursor,
    DeleteLineOnCursor,
    Insert(String),
    InsertNewLine(NewLineDirection),
}

#[derive(Clone, Copy, Debug, PartialEq, Eq, Structural)]
pub enum NewLineDirection {
    Above,
    Under,
}

/// Where a cursor motion goes.
#[derive(Clone, Copy, Debug, PartialEq, Eq, Structural)]
pub enum CursorDirection {
    Bottom,
    Down,
    Left,
    LineEnd,
    LineStart,
    Right,
    Top,
    Up,
}

/// The editing mode of the session.
#[derive(Clone, Copy, Debug, PartialEq, Eq, Structural)]
pub enum Mode {
    Command,
    Insert,
    Navigation,
    Normal,
}

impl Default for Mode {
    fn default() -> (r: Self)
        ensures
            r == Mode::Navigation,
    {
        Mode::Navigation
    }
}

impl Mode {
    /// The mode's name as shown in the status line.
    pub fn to_string(&self) -> (r: String)
        ensures
            r@ == mode_name(*self),
    {
        match self {
            Mode::Command => String::from_str("command"),
            Mode::Insert => String::from_str("insert"),
            Mode::Navigation => String::from_str("navigation"),
            Mode::Normal => String::from_str("normal"),
        }
    }
}

pub open spec fn mode_name(m: Mode) -> Seq<char> {
    match m {
        Mode::Command => "command"@,
        Mode::Insert => "insert"@,
        Mode::Navigation => "navigation"@,
        Mode::Normal => "normal"@,
    }
}

/// How the viewport scrolls relative to the cursor.
#[derive(Clone, Copy, Debug, PartialEq, Eq, Structural)]
pub enum ViewPortDirection {
    BottomOnCursor,
    CenterOnCursor,
    HalfPageDown,
    HalfPageUp,
    TopOnCursor,
}

/// How the session ends.
#[derive(Clone, Copy, Debug, PartialEq, Eq, Structural)]
pub enum QuitMode {
    FailOnRunningTasks,
    Force,
}

/// Domain messages that the keymap resolver produces from key chords.
pub enum KeymapMessage {
    Buffer(Buffer),
    ExecuteCommandString(String),
    KeySequenceChanged(String),
    NavigateToMark(char),
    NavigateToParent,
    NavigateToPath(String),
    NavigateToPathAsPreview(String),
    NavigateToSelected,
    OpenSelected,
    Print(Vec<PrintContent>),
    Quit(QuitMode),
}

impl PrintContent {
    /// An equal copy.
    pub fn duplicate(&self) -> (r: PrintContent)
        ensures
            r == *self,
    {
        match self {
            PrintContent::Error(s) => PrintContent::Error(s.clone()),
            PrintContent::Info(s) => PrintContent::Info(s.clone()),
        }
    }
}

impl TextModification {
    /// An equal copy.
    pub fn duplicate(&self) -> (r: TextModification)
        ensures
            r == *self,
    {
        match self {
            TextModification::DeleteCharBeforeCursor => TextModification::DeleteCharBeforeCursor,
            TextModification::DeleteCharOnCursor => TextModification::DeleteCharOnCursor,
            TextModification::DeleteLineOnCursor => TextModification::DeleteLineOnCursor,
            TextModification::Insert(s) => TextModification::Insert(s.clone()),
            TextModification::InsertNewLine(d) => TextModification::InsertNewLine(*d),
        }
    }
}

impl Buffer {
    /// An equal copy.
    pub fn duplicate(&self) -> (r: Buffer)
        ensures
            r == *self,
    {
        match self {
            Buffer::ChangeMode(a, b) => Buffer::ChangeMode(*a, *b),
            Buffer::Modification(m) => Buffer::Modification(m.duplicate()),
            Buffer::MoveCursor(n, d) => Buffer::MoveCursor(*n, *d),
            Buffer::MoveViewPort(d) => Buffer::MoveViewPort(*d),
            Buffer::SaveBuffer(o) => Buffer::SaveBuffer(*o),
        }
    }
}

fn duplicate_prints(v: &Vec<PrintContent>) -> (r: Vec<PrintContent>)
    ensures
        r@ == v@,
{
    let mut out: Vec<PrintContent> = Vec::new();
    let mut i: usize = 0;
    while i < v.len()
        invariant
            i <= v@.len(),
            out@ == v@.take(i as int),
        decreases v@.len() - i,
    {
        out.push(v[i].duplicate());
        proof {
            assert(out@ =~= v@.take(i + 1));
        }
        i = i + 1;
    }
    proof {
        assert(v@.take(v@.len() as int) =~= v@);
    }
    out
}

/// Two keymap messages say the same; printed texts are compared by content.
pub open spec fn same_keymap(a: KeymapMessage, b: KeymapMessage) -> bool {
    match (a, b) {
        (KeymapMessage::Print(v), KeymapMessage::Print(w)) => v@ == w@,
        _ => a == b,
    }
}

impl KeymapMessage {
    /// A copy saying the same.
    pub fn duplicate(&self) -> (r: KeymapMessage)
        ensures
            same_keymap(r, *self),
    {
        match self {
            KeymapMessage::Buffer(b) => KeymapMessage::Buffer(b.duplicate()),
            KeymapMessage::ExecuteCommandString(s) => KeymapMessage::ExecuteCommandString(s.clone()),
            KeymapMessage::KeySequenceChanged(s) => KeymapMessage::KeySequenceChanged(s.clone()),
            KeymapMessage::NavigateToMark(c) => KeymapMessage::NavigateToMark(*c),
            KeymapMessage::NavigateToParent => KeymapMessage::NavigateToParent,
            KeymapMessage::NavigateToPath(s) => KeymapMessage::NavigateToPath(s.clone()),
            KeymapMessage::NavigateToPathAsPreview(s) => KeymapMessage::NavigateToPathAsPreview(s.clone()),
            KeymapMessage::NavigateToSelected => KeymapMessage::NavigateToSelected,
            KeymapMessage::OpenSelected => KeymapMessage::OpenSelected,
            KeymapMessage::Print(v) => {
                KeymapMessage::Print(duplicate_prints(v))
            },
            KeymapMessage::Quit(m) => KeymapMessage::Quit(*m),
        }
    }
}

} // verus!
