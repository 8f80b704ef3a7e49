use vstd::prelude::*;

verus! {

/// The abstract actions the session reacts to.
#[derive(PartialEq, Eq, Structural, Debug, Clone, Copy)]
pub enum Actions {
    Quit,
    Enter,
    Char(char),
    Createtask,
    Moveup,
    Movedown,
    Left,
    Right,
    Tab,
    Idle,
    Delete,
}

/// A key as the terminal reports it.
#[derive(PartialEq, Eq, Structural, Debug, Clone, Copy)]
pub enum Key {
    Esc,
    Enter,
    Backspace,
    Tab,
    Up,
    Down,
    Left,
    Right,
    Char(char),
    Other,
}

/// What one poll of the terminal gave: nothing within the wait, a key, or an event
/// that is not a key (or a failed read).
#[derive(PartialEq, Eq, Structural, Debug, Clone, Copy)]
pub enum Input {
    Nothing,
    Pressed(Key),
    Unreadable,
}

/// The action of a key while browsing the task list.
pub open spec fn browse_action(k: Key) -> Actions {
    match k {
        Key::Esc => Actions::Quit,
        Key::Char(c) => if c == 'c' {
            Actions::Createtask
        } else {
            Actions::Idle
        },
        Key::Up => Actions::Moveup,
        Key::Down => Actions::Movedown,
        Key::Enter => Actions::Enter,
        _ => Actions::Idle,
    }
}

/// The action of a key while a task is being authored.
pub open spec fn typing_action(k: Key) -> Actions {
    match k {
        Key::Char(c) => Actions::Char(c),
        Key::Up => Actions::Moveup,
        Key::Down => Actions::Movedown,
        Key::Left => Actions::Left,
        Key::Right => Actions::Right,
        Key::Tab => Actions::Tab,
        Key::Enter => Actions::Enter,
        Key::Esc => Actions::Quit,
        Key::Backspace => Actions::Delete,
        Key::Other => Actions::Idle,
    }
}

/// The action of `input` in the given mode; `None` for an unreadable event.
pub open spec fn action_of(input: Input, typing: bool) -> Option<Actions> {
    match input {
        Input::Nothing => Some(Actions::Idle),
        Input::Pressed(k) => Some(
            if typing {
                typing_action(k)
            } else {
                browse_action(k)
            },
        ),
        Input::Unreadable => None,
    }
}

/// The action of `input`: typed text when `read_key_stroke`, list navigation otherwise.
pub fn handle_key_input(input: Input, read_key_stroke: bool) -> (r: Option<Actions>)
    ensures
        r == action_of(input, read_key_stroke),
{
    if read_key_stroke {
        read_key_strokes(input)
    } else {
        traverse_with_keys(input)
    }
}

/// The action of `input` while browsing the task list.
pub fn traverse_with_keys(input: Input) -> (r: Option<Actions>)
    ensures
        r == action_of(input, false),
{
    match input {
        Input::Pressed(key) => match key {
            Key::Esc => Some(Actions::Quit),
            Key::Char('c') => Some(Actions::Createtask),
            Key::Up => Some(Actions::Moveup),
            Key::Down => Some(Actions::Movedown),
            Key::Enter => Some(Actions::Enter),
            _ => Some(Actions::Idle),
        },
        Input::Nothing => Some(Actions::Idle),
        Input::Unreadable => None,
    }
}

/// The action of `input` while a task is being authored.
pub fn read_key_strokes(input: Input) -> (r: Option<Actions>)
    ensures
        r == action_of(input, true),
{
    match input {
        Input::Pressed(key) => match key {
            Key::Char(c) => Some(Actions::Char(c)),
            Key::Up => Some(Actions::Moveup),
            Key::Down => Some(Actions::Movedown),
            Key::Left => Some(Actions::Left),
            Key::Right => Some(Actions::Right),
            Key::Tab => Some(Actions::Tab),
            Key::Enter => Some(Actions::Enter),
            Key::Esc => Some(Actions::Quit),
            Key::Backspace => Some(Actions::Delete),
            Key::Other => Some(Actions::Idle),
        },
        Input::Nothing => Some(Actions::Idle),
        Input::Unreadable => None,
    }
}

} // verus!
