use crate::application::Action;
use crate::application::Mode;
use vstd::prelude::*;

verus! {

/// A key press, as the editor core understands it: the named keys the
/// editor reacts to, a plain character, or any other key (ignored).
/// Turning raw terminal input events into this type is a thin conversion
/// that belongs to the surrounding program.
#[derive(Clone, Copy, Debug, PartialEq, Eq)]
pub enum Key {
    Char(char),
    Left,
    Right,
    Up,
    Down,
    Enter,
    Backspace,
    Esc,
    Other,
}

/// The action a key triggers in Normal mode: `q` quits, `i` enters Insert
/// mode, the arrow keys and `h`/`l`/`k`/`j` move the cursor, and every
/// other key does nothing.
pub open spec fn normal_action(key: Key) -> Option<Action> {
    match key {
        Key::Char(c) => if c == 'q' {
            Some(Action::Quit)
        } else if c == 'i' {
            Some(Action::ChangeMode(Mode::Insert))
        } else if c == 'h' {
            Some(Action::MoveLeft)
        } else if c == 'l' {
            Some(Action::MoveRight)
        } else if c == 'k' {
            Some(Action::MoveUp)
        } else if c == 'j' {
            Some(Action::MoveDown)
        } else {
            None
        },
        Key::Left => Some(Action::MoveLeft),
        Key::Right => Some(Action::MoveRight),
        Key::Up => Some(Action::MoveUp),
        Key::Down => Some(Action::MoveDown),
        _ => None,
    }
}

/// The action a key triggers in Insert mode: Escape returns to Normal mode,
/// the arrow keys move the cursor, Enter splits the line, Backspace deletes
/// before the cursor, any character is written, and every other key does
/// nothing.
pub open spec fn insert_action(key: Key) -> Option<Action> {
    match key {
        Key::Esc => Some(Action::ChangeMode(Mode::Normal)),
        Key::Left => Some(Action::MoveLeft),
        Key::Right => Some(Action::MoveRight),
        Key::Up => Some(Action::MoveUp),
        Key::Down => Some(Action::MoveDown),
        Key::Enter => Some(Action::Return),
        Key::Backspace => Some(Action::Back),
        Key::Char(c) => Some(Action::Write(c)),
        _ => None,
    }
}

/// The action a key triggers under the given mode.
pub open spec fn action_for(mode: Mode, key: Key) -> Option<Action> {
    match mode {
        Mode::Normal => normal_action(key),
        Mode::Insert => insert_action(key),
    }
}

fn handle_normal_event(key: Key) -> (a: Option<Action>)
    ensures
        a == normal_action(key),
{
    match key {
        Key::Char(c) => if c == 'q' {
            Some(Action::Quit)
        } else if c == 'i' {
            Some(Action::ChangeMode(Mode::Insert))
        } else if c == 'h' {
            Some(Action::MoveLeft)
        } else if c == 'l' {
            Some(Action::MoveRight)
        } else if c == 'k' {
            Some(Action::MoveUp)
        } else if c == 'j' {
            Some(Action::MoveDown)
        } else {
            None
        },
        Key::Left => Some(Action::MoveLeft),
        Key::Right => Some(Action::MoveRight),
        Key::Up => Some(Action::MoveUp),
        Key::Down => Some(Action::MoveDown),
        _ => None,
    }
}

fn handle_insert_event(key: Key) -> (a: Option<Action>)
    ensures
        a == insert_action(key),
{
    match key {
        Key::Esc => Some(Action::ChangeMode(Mode::Normal)),
        Key::Left => Some(Action::MoveLeft),
        Key::Right => Some(Action::MoveRight),
        Key::Up => Some(Action::MoveUp),
        Key::Down => Some(Action::MoveDown),
        Key::Enter => Some(Action::Return),
        Key::Backspace => Some(Action::Back),
        Key::Char(c) => Some(Action::Write(c)),
        _ => None,
    }
}

/// Map a key press to the editor action it triggers under the given mode;
/// keys with no meaning in that mode yield no action.
pub fn handle_event(key: Key, mode: &Mode) -> (a: Option<Action>)
    ensures
        a == action_for(*mode, key),
{
    match mode {
        Mode::Normal => handle_normal_event(key),
        Mode::Insert => handle_insert_event(key),
    }
}

} // verus!
