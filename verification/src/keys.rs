//! Key presses as the editor reads them, the commands they stand for, and
//! the decoding of the one into the other in each of the two modes.

use vstd::prelude::*;

verus! {

/// The key of a key press.
#[derive(Clone, Copy, Debug, PartialEq, Eq, Structural)]
pub enum KeyCode {
    Char(char),
    Backspace,
    Enter,
    Left,
    Right,
    Up,
    Down,
    PageUp,
    PageDown,
    Esc,
    /// Any key that the editor has no use for.
    Other,
}

/// One key press.
#[derive(Clone, Copy, Debug, PartialEq, Eq, Structural)]
pub struct KeyPress {
    pub code: KeyCode,
    /// The control key, and no other modifier, was held.
    pub control: bool,
}

/// One command to the editing session.
#[derive(Clone, Copy, Debug, PartialEq, Eq, Structural)]
pub enum Command {
    InsertChar(char),
    Backspace,
    Enter,
    ArrowLeft,
    ArrowRight,
    ArrowUp,
    ArrowDown,
    PageUp,
    PageDown,
    /// Enters search mode, or leaves it.
    ToggleSearch,
    SearchInput(char),
    SearchBackspace,
    SearchNext,
    SearchPrevious,
    ExitSearch,
    Save,
    Quit,
}

/// What the shell around the session has to do after a command.
#[derive(Clone, Copy, Debug, PartialEq, Eq, Structural)]
pub enum Effect {
    /// Nothing: the session has done all there was to do.
    Done,
    /// The text is to be written to its file.
    Save,
}

/// The command that a key press stands for outside search mode. Control
/// with `q`, `s` or `f` quits, saves or starts a search; any other `char` is
/// typed, whatever modifier is held.
pub open spec fn normal_command(key: KeyPress) -> Option<Command> {
    match key.code {
        KeyCode::Char(c) => if key.control && c == 'q' {
            Some(Command::Quit)
        } else if key.control && c == 's' {
            Some(Command::Save)
        } else if key.control && c == 'f' {
            Some(Command::ToggleSearch)
        } else {
            Some(Command::InsertChar(c))
        },
        KeyCode::PageUp => Some(Command::PageUp),
        KeyCode::PageDown => Some(Command::PageDown),
        KeyCode::Backspace => Some(Command::Backspace),
        KeyCode::Enter => Some(Command::Enter),
        KeyCode::Left => Some(Command::ArrowLeft),
        KeyCode::Right => Some(Command::ArrowRight),
        KeyCode::Up => Some(Command::ArrowUp),
        KeyCode::Down => Some(Command::ArrowDown),
        KeyCode::Esc => None,
        KeyCode::Other => None,
    }
}

/// The command that a key press stands for in search mode. Escape and Enter
/// leave the mode, control with `f` goes to the next match, and any other
/// `char` is added to the query.
pub open spec fn search_command(key: KeyPress) -> Option<Command> {
    match key.code {
        KeyCode::Esc => Some(Command::ExitSearch),
        KeyCode::Enter => Some(Command::ExitSearch),
        KeyCode::Char(c) => if key.control && c == 'f' {
            Some(Command::SearchNext)
        } else {
            Some(Command::SearchInput(c))
        },
        KeyCode::Backspace => Some(Command::SearchBackspace),
        _ => None,
    }
}

/// Decodes a key press outside search mode.
pub fn decode_normal_key(key: KeyPress) -> (command: Option<Command>)
    ensures
        command == normal_command(key),
{
    match key.code {
        KeyCode::Char(c) => {
            if key.control && c == 'q' {
                Some(Command::Quit)
            } else if key.control && c == 's' {
                Some(Command::Save)
            } else if key.control && c == 'f' {
                Some(Command::ToggleSearch)
            } else {
                Some(Command::InsertChar(c))
            }
        },
        KeyCode::PageUp => Some(Command::PageUp),
        KeyCode::PageDown => Some(Command::PageDown),
        KeyCode::Backspace => Some(Command::Backspace),
        KeyCode::Enter => Some(Command::Enter),
        KeyCode::Left => Some(Command::ArrowLeft),
        KeyCode::Right => Some(Command::ArrowRight),
        KeyCode::Up => Some(Command::ArrowUp),
        KeyCode::Down => Some(Command::ArrowDown),
        KeyCode::Esc => None,
        KeyCode::Other => None,
    }
}

/// Decodes a key press in search mode.
pub fn decode_search_key(key: KeyPress) -> (command: Option<Command>)
    ensures
        command == search_command(key),
{
    match key.code {
        KeyCode::Esc => Some(Command::ExitSearch),
        KeyCode::Enter => Some(Command::ExitSearch),
        KeyCode::Char(c) => {
            if key.control && c == 'f' {
                Some(Command::SearchNext)
            } else {
                Some(Command::SearchInput(c))
            }
        },
        KeyCode::Backspace => Some(Command::SearchBackspace),
        _ => None,
    }
}

} // verus!
