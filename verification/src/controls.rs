//! The keys the monitor answers to and what each of them asks for.

use vstd::prelude::*;

verus! {

/// A key press, as far as the monitor tells keys apart.
#[derive(Clone, Copy, Debug, PartialEq, Eq, Structural)]
pub enum Key {
    Char(char),
    Up,
    Down,
    PageUp,
    PageDown,
    /// Any other key.
    Other,
}

/// What the user can ask of the monitor.
#[derive(Clone, Copy, Debug, PartialEq, Eq, Structural)]
pub enum Command {
    Quit,
    NextSort,
    ToggleView,
    ScrollUp,
    ScrollDown,
    PageUp,
    PageDown,
}

/// The command bound to `key`: `q` quits, `n` moves the sort key on, `v`
/// switches the view mode, the arrow and page keys scroll. Other keys are
/// bound to nothing.
pub open spec fn bound_command(key: Key) -> Option<Command> {
    match key {
        Key::Char(c) => if c == 'q' {
            Some(Command::Quit)
        } else if c == 'n' {
            Some(Command::NextSort)
        } else if c == 'v' {
            Some(Command::ToggleView)
        } else {
            None
        },
        Key::Up => Some(Command::ScrollUp),
        Key::Down => Some(Command::ScrollDown),
        Key::PageUp => Some(Command::PageUp),
        Key::PageDown => Some(Command::PageDown),
        Key::Other => None,
    }
}

/// Looks up the command bound to `key`.
pub fn command_for(key: Key) -> (command: Option<Command>)
    ensures
        command == bound_command(key),
{
    match key {
        Key::Char(c) => if c == 'q' {
            Some(Command::Quit)
        } else if c == 'n' {
            Some(Command::NextSort)
        } else if c == 'v' {
            Some(Command::ToggleView)
        } else {
            None
        },
        Key::Up => Some(Command::ScrollUp),
        Key::Down => Some(Command::ScrollDown),
        Key::PageUp => Some(Command::PageUp),
        Key::PageDown => Some(Command::PageDown),
        Key::Other => None,
    }
}

} // verus!
