//! Keys and what they stand for: the keymap of the editor and of the file
//! panel.

use vstd::prelude::*;

verus! {

/// A key of the keyboard.
#[derive(Clone, Copy, Debug, PartialEq, Eq, Structural)]
pub enum Key {
    Up,
    Down,
    Left,
    Right,
    Enter,
    Backspace,
    Tab,
    PageUp,
    PageDown,
    Esc,
    Char(char),
    Other,
}

/// The modifier keys that are held down.  `other` stands for any modifier
/// but Control, Alt and Shift.
#[derive(Clone, Copy, Debug, PartialEq, Eq, Structural)]
pub struct Modifiers {
    pub control: bool,
    pub alt: bool,
    pub shift: bool,
    pub other: bool,
}

impl Modifiers {
    /// Control and nothing else.
    pub open spec fn only_control(self) -> bool {
        self.control && !self.alt && !self.shift && !self.other
    }

    /// Alt and nothing else.
    pub open spec fn only_alt(self) -> bool {
        !self.control && self.alt && !self.shift && !self.other
    }

    /// Shift and nothing else.
    pub open spec fn only_shift(self) -> bool {
        !self.control && !self.alt && self.shift && !self.other
    }

    /// No modifier at all.
    pub open spec fn none(self) -> bool {
        !self.control && !self.alt && !self.shift && !self.other
    }
}

/// A direction of the cursor keys.
#[derive(Clone, Copy, Debug, PartialEq, Eq, Structural)]
pub enum Direction {
    Up,
    Down,
    Left,
    Right,
}

/// What the editor is asked to do.
#[derive(Clone, Copy, Debug, PartialEq, Eq, Structural)]
pub enum Command {
    Quit,
    MoveLineUp,
    MoveLineDown,
    SelectMore,
    SelectLess,
    WordLeft,
    WordRight,
    CutLine,
    Save,
    Copy,
    Paste,
    Duplicate,
    Search,
    References,
    Definition,
    Undo,
    Redo,
    CursorBack,
    CursorForward,
    Errors,
    Hover,
    TogglePanel,
    Completion,
    Cut,
    /// Move the cursor, where a direction is given, and make the selection
    /// end at it.
    ExtendSelection(Option<Direction>),
    Move(Direction),
    Enter,
    Delete,
    CommentLine,
    Insert(char),
    InsertTab,
    PageUp,
    PageDown,
    /// A key that stands for nothing, but ends the selection like one that
    /// does.
    Idle,
    Nothing,
}

/// What the file panel is asked to do.
#[derive(Clone, Copy, Debug, PartialEq, Eq, Structural)]
pub enum PanelCommand {
    Close,
    Up,
    Down,
    Left,
    Right,
    ClearSearch,
    RemoveFilterChar,
    InsertFilterChar(char),
    Open,
    Nothing,
}

/// The direction of a cursor key.
pub open spec fn direction_of(key: Key) -> Option<Direction> {
    match key {
        Key::Up => Some(Direction::Up),
        Key::Down => Some(Direction::Down),
        Key::Left => Some(Direction::Left),
        Key::Right => Some(Direction::Right),
        _ => None,
    }
}

/// What a key stands for in the editor.  Control and Shift together, with or
/// without others, move lines.  Alt alone, Control alone and Shift alone have
/// their own keys; Shift with a character is the character.  With any other
/// modifiers a key is taken as it is.
pub open spec fn command_of(key: Key, m: Modifiers) -> Command {
    if m.only_control() && key == Key::Char('q') {
        Command::Quit
    } else if m.control && m.shift {
        match key {
            Key::Up => Command::MoveLineUp,
            Key::Down => Command::MoveLineDown,
            _ => Command::Nothing,
        }
    } else if m.only_alt() {
        match key {
            Key::Up => Command::SelectMore,
            Key::Down => Command::SelectLess,
            Key::Left => Command::WordLeft,
            Key::Right => Command::WordRight,
            Key::Backspace => Command::CutLine,
            _ => Command::Nothing,
        }
    } else if m.only_control() {
        match key {
            Key::Char('s') => Command::Save,
            Key::Char('c') => Command::Copy,
            Key::Char('v') => Command::Paste,
            Key::Char('d') => Command::Duplicate,
            Key::Char('f') => Command::Search,
            Key::Char('r') => Command::References,
            Key::Char('g') => Command::Definition,
            Key::Char('z') => Command::Undo,
            Key::Char('y') => Command::Redo,
            Key::Char('o') => Command::CursorBack,
            Key::Char('p') => Command::CursorForward,
            Key::Char('e') => Command::Errors,
            Key::Char('h') => Command::Hover,
            Key::Char('t') => Command::TogglePanel,
            Key::Char(' ') => Command::Completion,
            Key::Char('x') => Command::Cut,
            _ => Command::Nothing,
        }
    } else if m.only_shift() && !(key is Char) {
        Command::ExtendSelection(direction_of(key))
    } else {
        match key {
            Key::Up => Command::Move(Direction::Up),
            Key::Down => Command::Move(Direction::Down),
            Key::Left => Command::Move(Direction::Left),
            Key::Right => Command::Move(Direction::Right),
            Key::Enter => Command::Enter,
            Key::Backspace => Command::Delete,
            Key::Char('\u{f7}') => Command::CommentLine,
            Key::Char(c) => Command::Insert(c),
            Key::Tab => Command::InsertTab,
            Key::PageUp => Command::PageUp,
            Key::PageDown => Command::PageDown,
            _ => Command::Idle,
        }
    }
}

/// What a key stands for in the editor.
pub fn route_key(key: Key, m: Modifiers) -> (command: Command)
    ensures
        command == command_of(key, m),
{
    let only_control = m.control && !m.alt && !m.shift && !m.other;
    let only_alt = !m.control && m.alt && !m.shift && !m.other;
    let only_shift = !m.control && !m.alt && m.shift && !m.other;
    if only_control {
        if let Key::Char('q') = key {
            return Command::Quit;
        }
    }
    if m.control && m.shift {
        return match key {
            Key::Up => Command::MoveLineUp,
            Key::Down => Command::MoveLineDown,
            _ => Command::Nothing,
        };
    }
    if only_alt {
        return match key {
            Key::Up => Command::SelectMore,
            Key::Down => Command::SelectLess,
            Key::Left => Command::WordLeft,
            Key::Right => Command::WordRight,
            Key::Backspace => Command::CutLine,
            _ => Command::Nothing,
        };
    }
    if only_control {
        return match key {
            Key::Char('s') => Command::Save,
            Key::Char('c') => Command::Copy,
            Key::Char('v') => Command::Paste,
            Key::Char('d') => Command::Duplicate,
            Key::Char('f') => Command::Search,
            Key::Char('r') => Command::References,
            Key::Char('g') => Command::Definition,
            Key::Char('z') => Command::Undo,
            Key::Char('y') => Command::Redo,
            Key::Char('o') => Command::CursorBack,
            Key::Char('p') => Command::CursorForward,
            Key::Char('e') => Command::Errors,
            Key::Char('h') => Command::Hover,
            Key::Char('t') => Command::TogglePanel,
            Key::Char(' ') => Command::Completion,
            Key::Char('x') => Command::Cut,
            _ => Command::Nothing,
        };
    }
    if only_shift {
        match key {
            Key::Char(_) => {},
            Key::Up => {
                return Command::ExtendSelection(Some(Direction::Up));
            },
            Key::Down => {
                return Command::ExtendSelection(Some(Direction::Down));
            },
            Key::Left => {
                return Command::ExtendSelection(Some(Direction::Left));
            },
            Key::Right => {
                return Command::ExtendSelection(Some(Direction::Right));
            },
            _ => {
                return Command::ExtendSelection(None);
            },
        }
    }
    match key {
        Key::Up => Command::Move(Direction::Up),
        Key::Down => Command::Move(Direction::Down),
        Key::Left => Command::Move(Direction::Left),
        Key::Right => Command::Move(Direction::Right),
        Key::Enter => Command::Enter,
        Key::Backspace => Command::Delete,
        Key::Char('\u{f7}') => Command::CommentLine,
        Key::Char(c) => Command::Insert(c),
        Key::Tab => Command::InsertTab,
        Key::PageUp => Command::PageUp,
        Key::PageDown => Command::PageDown,
        _ => Command::Idle,
    }
}

/// Whether the key ends the editor: Control and `q`, nothing else held.
pub fn is_quit_event(key: Key, m: Modifiers) -> (quit: bool)
    ensures
        quit == (command_of(key, m) == Command::Quit),
{
    route_key(key, m) == Command::Quit
}

/// What a key stands for in the file panel.  Control and `t` closes the
/// panel; no other key counts while Control or Alt is held.
pub open spec fn panel_command_of(key: Key, m: Modifiers) -> PanelCommand {
    if m.only_control() {
        if key == Key::Char('t') {
            PanelCommand::Close
        } else {
            PanelCommand::Nothing
        }
    } else if m.none() || m.only_shift() {
        match key {
            Key::Up => PanelCommand::Up,
            Key::Down => PanelCommand::Down,
            Key::Left => PanelCommand::Left,
            Key::Right => PanelCommand::Right,
            Key::Esc => PanelCommand::ClearSearch,
            Key::Backspace => PanelCommand::RemoveFilterChar,
            Key::Char(c) => PanelCommand::InsertFilterChar(c),
            Key::Enter => PanelCommand::Open,
            _ => PanelCommand::Nothing,
        }
    } else {
        PanelCommand::Nothing
    }
}

/// What a key stands for in the file panel.
pub fn route_panel_key(key: Key, m: Modifiers) -> (command: PanelCommand)
    ensures
        command == panel_command_of(key, m),
{
    let only_control = m.control && !m.alt && !m.shift && !m.other;
    let none = !m.control && !m.alt && !m.shift && !m.other;
    let only_shift = !m.control && !m.alt && m.shift && !m.other;
    if only_control {
        return match key {
            Key::Char('t') => PanelCommand::Close,
            _ => PanelCommand::Nothing,
        };
    }
    if !(none || only_shift) {
        return PanelCommand::Nothing;
    }
    match key {
        Key::Up => PanelCommand::Up,
        Key::Down => PanelCommand::Down,
        Key::Left => PanelCommand::Left,
        Key::Right => PanelCommand::Right,
        Key::Esc => PanelCommand::ClearSearch,
        Key::Backspace => PanelCommand::RemoveFilterChar,
        Key::Char(c) => PanelCommand::InsertFilterChar(c),
        Key::Enter => PanelCommand::Open,
        _ => PanelCommand::Nothing,
    }
}

} // verus!
