//! The modal key-interpretation state machine: maps raw keys to abstract
//! buffer commands as a pure function of `(mode, pending key, input key)`,
//! with a register holding the last yanked or deleted text.

use vstd::prelude::*;

verus! {

/// The three editing modes.
#[derive(Debug, Clone, Copy, PartialEq, Eq, Structural)]
pub enum Mode {
    Normal,
    Insert,
    Visual,
}

/// An abstract input token, fed one at a time by the host's input layer.
#[derive(Debug, Clone, PartialEq, Eq, Structural)]
pub enum Key {
    Char(char),
    Escape,
    Backspace,
    Enter,
    Left,
    Right,
    Up,
    Down,
}

/// An abstract command for the editor layer to apply to the buffer.
#[derive(Debug, Clone, PartialEq, Eq)]
pub enum BufferCommand {
    MoveLeft,
    MoveRight,
    MoveUp,
    MoveDown,
    MoveWordForward,
    MoveWordBack,
    MoveWordEnd,
    MoveLineStart,
    MoveLineEnd,
    MoveFirstLine,
    MoveLastLine,
    MoveParagraphForward,
    MoveParagraphBack,
    Insert(char),
    InsertNewline,
    DeleteBefore,
    DeleteCharAtCursor,
    DeleteLine,
    Yank,
    Delete,
    Change,
    /// Carries the text to insert, so the engine's register never needs to
    /// escape into the editor.
    Paste(String),
    Undo,
    Redo,
    StartVisual,
    StartVisualLine,
    ClearSelection,
}

/// The mathematical image of a command: as [`BufferCommand`], with the
/// pasted text as a character sequence.
pub enum CmdV {
    MoveLeft,
    MoveRight,
    MoveUp,
    MoveDown,
    MoveWordForward,
    MoveWordBack,
    MoveWordEnd,
    MoveLineStart,
    MoveLineEnd,
    MoveFirstLine,
    MoveLastLine,
    MoveParagraphForward,
    MoveParagraphBack,
    Insert(char),
    InsertNewline,
    DeleteBefore,
    DeleteCharAtCursor,
    DeleteLine,
    Yank,
    Delete,
    Change,
    Paste(Seq<char>),
    Undo,
    Redo,
    StartVisual,
    StartVisualLine,
    ClearSelection,
}

/// The view of a command.
pub open spec fn cmd_view(c: BufferCommand) -> CmdV {
    match c {
        BufferCommand::MoveLeft => CmdV::MoveLeft,
        BufferCommand::MoveRight => CmdV::MoveRight,
        BufferCommand::MoveUp => CmdV::MoveUp,
        BufferCommand::MoveDown => CmdV::MoveDown,
        BufferCommand::MoveWordForward => CmdV::MoveWordForward,
        BufferCommand::MoveWordBack => CmdV::MoveWordBack,
        BufferCommand::MoveWordEnd => CmdV::MoveWordEnd,
        BufferCommand::MoveLineStart => CmdV::MoveLineStart,
        BufferCommand::MoveLineEnd => CmdV::MoveLineEnd,
        BufferCommand::MoveFirstLine => CmdV::MoveFirstLine,
        BufferCommand::MoveLastLine => CmdV::MoveLastLine,
        BufferCommand::MoveParagraphForward => CmdV::MoveParagraphForward,
        BufferCommand::MoveParagraphBack => CmdV::MoveParagraphBack,
        BufferCommand::Insert(c) => CmdV::Insert(c),
        BufferCommand::InsertNewline => CmdV::InsertNewline,
        BufferCommand::DeleteBefore => CmdV::DeleteBefore,
        BufferCommand::DeleteCharAtCursor => CmdV::DeleteCharAtCursor,
        BufferCommand::DeleteLine => CmdV::DeleteLine,
        BufferCommand::Yank => CmdV::Yank,
        BufferCommand::Delete => CmdV::Delete,
        BufferCommand::Change => CmdV::Change,
        BufferCommand::Paste(s) => CmdV::Paste(s@),
        BufferCommand::Undo => CmdV::Undo,
        BufferCommand::Redo => CmdV::Redo,
        BufferCommand::StartVisual => CmdV::StartVisual,
        BufferCommand::StartVisualLine => CmdV::StartVisualLine,
        BufferCommand::ClearSelection => CmdV::ClearSelection,
    }
}

/// The view of an optional command.
pub open spec fn opt_cmd_view(c: Option<BufferCommand>) -> Option<CmdV> {
    match c {
        Some(cmd) => Some(cmd_view(cmd)),
        None => None,
    }
}

/// The engine's state: its mode, the pending first key of a two-key
/// sequence, and the register's characters.
pub struct VimState {
    pub mode: Mode,
    pub pending: Option<char>,
    pub register: Seq<char>,
}

/// One Normal-mode step. A pending leader is consumed by the very next key,
/// whether or not it completes a sequence.
pub open spec fn normal_step(s: VimState, key: Key) -> (VimState, Option<CmdV>) {
    if s.pending is Some {
        let p = s.pending->0;
        let s2 = VimState { pending: None, ..s };
        let cmd = match key {
            Key::Char(c) => {
                if p == 'g' && c == 'g' {
                    Some(CmdV::MoveFirstLine)
                } else if p == 'd' && c == 'd' {
                    Some(CmdV::DeleteLine)
                } else if p == 'y' && c == 'y' {
                    Some(CmdV::Yank)
                } else {
                    None
                }
            },
            _ => None,
        };
        (s2, cmd)
    } else {
        match key {
            Key::Left => (s, Some(CmdV::MoveLeft)),
            Key::Right => (s, Some(CmdV::MoveRight)),
            Key::Up => (s, Some(CmdV::MoveUp)),
            Key::Down => (s, Some(CmdV::MoveDown)),
            Key::Char(c) => {
                if c == 'h' {
                    (s, Some(CmdV::MoveLeft))
                } else if c == 'l' {
                    (s, Some(CmdV::MoveRight))
                } else if c == 'k' {
                    (s, Some(CmdV::MoveUp))
                } else if c == 'j' {
                    (s, Some(CmdV::MoveDown))
                } else if c == 'w' {
                    (s, Some(CmdV::MoveWordForward))
                } else if c == 'b' {
                    (s, Some(CmdV::MoveWordBack))
                } else if c == 'e' {
                    (s, Some(CmdV::MoveWordEnd))
                } else if c == '0' {
                    (s, Some(CmdV::MoveLineStart))
                } else if c == '$' {
                    (s, Some(CmdV::MoveLineEnd))
                } else if c == 'G' {
                    (s, Some(CmdV::MoveLastLine))
                } else if c == '{' {
                    (s, Some(CmdV::MoveParagraphBack))
                } else if c == '}' {
                    (s, Some(CmdV::MoveParagraphForward))
                } else if c == 'i' {
                    (VimState { mode: Mode::Insert, ..s }, None)
                } else if c == 'a' {
                    (VimState { mode: Mode::Insert, ..s }, Some(CmdV::MoveRight))
                } else if c == 'A' {
                    (VimState { mode: Mode::Insert, ..s }, Some(CmdV::MoveLineEnd))
                } else if c == 'o' {
                    (VimState { mode: Mode::Insert, ..s }, Some(CmdV::InsertNewline))
                } else if c == 'v' {
                    (VimState { mode: Mode::Visual, ..s }, Some(CmdV::StartVisual))
                } else if c == 'V' {
                    (VimState { mode: Mode::Visual, ..s }, Some(CmdV::StartVisualLine))
                } else if c == 'x' {
                    (s, Some(CmdV::DeleteCharAtCursor))
                } else if c == 'g' || c == 'd' || c == 'c' || c == 'y' {
                    (VimState { pending: Some(c), ..s }, None)
                } else if c == 'p' {
                    (s, Some(CmdV::Paste(s.register)))
                } else if c == 'u' {
                    (s, Some(CmdV::Undo))
                } else if c == '\u{12}' {
                    // Ctrl-R
                    (s, Some(CmdV::Redo))
                } else {
                    (s, None)
                }
            },
            _ => (s, None),
        }
    }
}

/// One Insert-mode step: Escape leaves to Normal, everything else edits.
pub open spec fn insert_step(s: VimState, key: Key) -> (VimState, Option<CmdV>) {
    match key {
        Key::Escape => (VimState { mode: Mode::Normal, ..s }, None),
        Key::Backspace => (s, Some(CmdV::DeleteBefore)),
        Key::Enter => (s, Some(CmdV::InsertNewline)),
        Key::Char(c) => (s, Some(CmdV::Insert(c))),
        _ => (s, None),
    }
}

/// One Visual-mode step: motions extend the selection (the editor layer
/// tracks the head), `d`/`x`/`y`/`c` act on it and leave the mode.
pub open spec fn visual_step(s: VimState, key: Key) -> (VimState, Option<CmdV>) {
    match key {
        Key::Escape => (VimState { mode: Mode::Normal, ..s }, Some(CmdV::ClearSelection)),
        Key::Left => (s, Some(CmdV::MoveLeft)),
        Key::Right => (s, Some(CmdV::MoveRight)),
        Key::Up => (s, Some(CmdV::MoveUp)),
        Key::Down => (s, Some(CmdV::MoveDown)),
        Key::Char(c) => {
            if c == 'h' {
                (s, Some(CmdV::MoveLeft))
            } else if c == 'l' {
                (s, Some(CmdV::MoveRight))
            } else if c == 'k' {
                (s, Some(CmdV::MoveUp))
            } else if c == 'j' {
                (s, Some(CmdV::MoveDown))
            } else if c == 'd' || c == 'x' {
                (VimState { mode: Mode::Normal, ..s }, Some(CmdV::Delete))
            } else if c == 'y' {
                (VimState { mode: Mode::Normal, ..s }, Some(CmdV::Yank))
            } else if c == 'c' {
                (VimState { mode: Mode::Insert, ..s }, Some(CmdV::Change))
            } else {
                (s, None)
            }
        },
        _ => (s, None),
    }
}

/// One step of the whole machine: dispatch on the current mode.
pub open spec fn vim_step(s: VimState, key: Key) -> (VimState, Option<CmdV>) {
    match s.mode {
        Mode::Normal => normal_step(s, key),
        Mode::Insert => insert_step(s, key),
        Mode::Visual => visual_step(s, key),
    }
}

/// The modal state machine. One instance lives per open document; `pending`
/// is consumed on the very next keystroke whether or not it resolved.
pub struct VimEngine {
    mode: Mode,
    /// The first key of an in-progress two-key sequence.
    pending: Option<char>,
    /// The last yanked or deleted text; filled by the editor after buffer
    /// operations.
    register: String,
}

impl View for VimEngine {
    type V = VimState;

    closed spec fn view(&self) -> VimState {
        VimState { mode: self.mode, pending: self.pending, register: self.register@ }
    }
}

/// A fresh engine: Normal mode, nothing pending, empty register.
pub open spec fn spec_vim_new() -> VimState {
    VimState { mode: Mode::Normal, pending: None, register: Seq::empty() }
}

impl VimEngine {
    /// Creates a new engine in Normal mode with no pending state and an
    /// empty register.
    pub fn new() -> (e: VimEngine)
        ensures
            e@ == spec_vim_new(),
    {
        VimEngine { mode: Mode::Normal, pending: None, register: String::new() }
    }

    /// Returns the current modal state.
    pub fn mode(&self) -> (m: Mode)
        ensures
            m == self@.mode,
    {
        self.mode
    }

    /// Stores yanked or deleted text; called by the editor after it performs
    /// the buffer operation.
    pub fn set_register(&mut self, text: String)
        ensures
            final(self)@ == (VimState { register: text@, ..old(self)@ }),
    {
        self.register = text;
    }

    /// Dispatches a key to the handler for the current mode and returns any
    /// resulting command.
    pub fn handle_key(&mut self, key: Key) -> (r: Option<BufferCommand>)
        ensures
            final(self)@ == vim_step(old(self)@, key).0,
            opt_cmd_view(r) == vim_step(old(self)@, key).1,
    {
        match self.mode {
            Mode::Normal => self.handle_normal(key),
            Mode::Insert => self.handle_insert(key),
            Mode::Visual => self.handle_visual(key),
        }
    }

    fn handle_normal(&mut self, key: Key) -> (r: Option<BufferCommand>)
        requires
            old(self)@.mode == Mode::Normal,
        ensures
            final(self)@ == normal_step(old(self)@, key).0,
            opt_cmd_view(r) == normal_step(old(self)@, key).1,
    {
        if let Some(p) = self.pending {
            self.pending = None;
            return match key {
                Key::Char(c) => {
                    if p == 'g' && c == 'g' {
                        Some(BufferCommand::MoveFirstLine)
                    } else if p == 'd' && c == 'd' {
                        Some(BufferCommand::DeleteLine)
                    } else if p == 'y' && c == 'y' {
                        Some(BufferCommand::Yank)
                    } else {
                        None
                    }
                },
                _ => None,
            };
        }
        match key {
            Key::Left => Some(BufferCommand::MoveLeft),
            Key::Right => Some(BufferCommand::MoveRight),
            Key::Up => Some(BufferCommand::MoveUp),
            Key::Down => Some(BufferCommand::MoveDown),
            Key::Char(c) => {
                if c == 'h' {
                    Some(BufferCommand::MoveLeft)
                } else if c == 'l' {
                    Some(BufferCommand::MoveRight)
                } else if c == 'k' {
                    Some(BufferCommand::MoveUp)
                } else if c == 'j' {
                    Some(BufferCommand::MoveDown)
                } else if c == 'w' {
                    Some(BufferCommand::MoveWordForward)
                } else if c == 'b' {
                    Some(BufferCommand::MoveWordBack)
                } else if c == 'e' {
                    Some(BufferCommand::MoveWordEnd)
                } else if c == '0' {
                    Some(BufferCommand::MoveLineStart)
                } else if c == '$' {
                    Some(BufferCommand::MoveLineEnd)
                } else if c == 'G' {
                    Some(BufferCommand::MoveLastLine)
                } else if c == '{' {
                    Some(BufferCommand::MoveParagraphBack)
                } else if c == '}' {
                    Some(BufferCommand::MoveParagraphForward)
                } else if c == 'i' {
                    self.mode = Mode::Insert;
                    None
                } else if c == 'a' {
                    self.mode = Mode::Insert;
                    Some(BufferCommand::MoveRight)
                } else if c == 'A' {
                    self.mode = Mode::Insert;
                    Some(BufferCommand::MoveLineEnd)
                } else if c == 'o' {
                    self.mode = Mode::Insert;
                    Some(BufferCommand::InsertNewline)
                } else if c == 'v' {
                    self.mode = Mode::Visual;
                    Some(BufferCommand::StartVisual)
                } else if c == 'V' {
                    self.mode = Mode::Visual;
                    Some(BufferCommand::StartVisualLine)
                } else if c == 'x' {
                    Some(BufferCommand::DeleteCharAtCursor)
                } else if c == 'g' || c == 'd' || c == 'c' || c == 'y' {
                    self.pending = Some(c);
                    None
                } else if c == 'p' {
                    Some(BufferCommand::Paste(self.register.clone()))
                } else if c == 'u' {
                    Some(BufferCommand::Undo)
                } else if c == '\u{12}' {
                    // Ctrl-R
                    Some(BufferCommand::Redo)
                } else {
                    None
                }
            },
            _ => None,
        }
    }

    fn handle_insert(&mut self, key: Key) -> (r: Option<BufferCommand>)
        requires
            old(self)@.mode == Mode::Insert,
        ensures
            final(self)@ == insert_step(old(self)@, key).0,
            opt_cmd_view(r) == insert_step(old(self)@, key).1,
    {
        match key {
            Key::Escape => {
                self.mode = Mode::Normal;
                None
            },
            Key::Backspace => Some(BufferCommand::DeleteBefore),
            Key::Enter => Some(BufferCommand::InsertNewline),
            Key::Char(c) => Some(BufferCommand::Insert(c)),
            _ => None,
        }
    }

    fn handle_visual(&mut self, key: Key) -> (r: Option<BufferCommand>)
        requires
            old(self)@.mode == Mode::Visual,
        ensures
            final(self)@ == visual_step(old(self)@, key).0,
            opt_cmd_view(r) == visual_step(old(self)@, key).1,
    {
        match key {
            Key::Escape => {
                self.mode = Mode::Normal;
                Some(BufferCommand::ClearSelection)
            },
            Key::Left => Some(BufferCommand::MoveLeft),
            Key::Right => Some(BufferCommand::MoveRight),
            Key::Up => Some(BufferCommand::MoveUp),
            Key::Down => Some(BufferCommand::MoveDown),
            Key::Char(c) => {
                if c == 'h' {
                    Some(BufferCommand::MoveLeft)
                } else if c == 'l' {
                    Some(BufferCommand::MoveRight)
                } else if c == 'k' {
                    Some(BufferCommand::MoveUp)
                } else if c == 'j' {
                    Some(BufferCommand::MoveDown)
                } else if c == 'd' || c == 'x' {
                    self.mode = Mode::Normal;
                    Some(BufferCommand::Delete)
                } else if c == 'y' {
                    self.mode = Mode::Normal;
                    Some(BufferCommand::Yank)
                } else if c == 'c' {
                    self.mode = Mode::Insert;
                    Some(BufferCommand::Change)
                } else {
                    None
                }
            },
            _ => None,
        }
    }
}

/// Law: in Normal mode, Escape emits no command and leaves the mode Normal;
/// after one press nothing is pending, so every further press returns the
/// state unchanged.
pub proof fn lemma_escape_idempotent_in_normal(s: VimState)
    requires
        s.mode == Mode::Normal,
    ensures
        vim_step(s, Key::Escape).0.mode == Mode::Normal,
        vim_step(s, Key::Escape).1 == None::<CmdV>,
        vim_step(s, Key::Escape).0.pending == None::<char>,
        vim_step(s, Key::Escape).0.register == s.register,
        vim_step(vim_step(s, Key::Escape).0, Key::Escape) == (
            vim_step(s, Key::Escape).0,
            None::<CmdV>,
        ),
{
}

/// Law: with nothing pending, `p` in Normal mode emits a Paste carrying
/// exactly the register's text and changes no engine state.
pub proof fn lemma_paste_uses_register(s: VimState)
    requires
        s.mode == Mode::Normal,
        s.pending == None::<char>,
    ensures
        vim_step(s, Key::Char('p')) == (s, Some(CmdV::Paste(s.register))),
{
}

} // verus!
