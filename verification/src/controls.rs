//! What each key does in the player's event loop.
use vstd::prelude::*;

verus! {

/// A key press, as far as the player tells keys apart.
#[derive(Clone, Copy, Debug, PartialEq, Eq, Structural)]
pub enum Key {
    Char(char),
    Up,
    Down,
    Other,
}

/// What the event loop does in answer to a key.
#[derive(Clone, Copy, Debug, PartialEq, Eq, Structural)]
pub enum Action {
    /// Leave the loop and the program.
    Quit,
    /// Move the selection up.
    Previous,
    /// Move the selection down.
    Next,
    /// Play, pause or resume the selected track.
    Play,
}

/// `q` quits, the arrow keys move the selection, the space bar plays; any
/// other key is ignored.
pub open spec fn action_spec(key: Key) -> Option<Action> {
    match key {
        Key::Char('q') => Some(Action::Quit),
        Key::Up => Some(Action::Previous),
        Key::Down => Some(Action::Next),
        Key::Char(' ') => Some(Action::Play),
        _ => None,
    }
}

/// The action bound to `key`, if any.
pub fn action_for_key(key: Key) -> (r: Option<Action>)
    ensures
        r == action_spec(key),
{
    match key {
        Key::Char('q') => Some(Action::Quit),
        Key::Up => Some(Action::Previous),
        Key::Down => Some(Action::Next),
        Key::Char(' ') => Some(Action::Play),
        _ => None,
    }
}

/// Only `q` quits, only the arrow keys move, only the space bar plays, and
/// every other character or key is ignored.
pub proof fn lemma_key_bindings(key: Key, c: char)
    ensures
        action_spec(key) == Some(Action::Quit) ==> key == Key::Char('q'),
        action_spec(key) == Some(Action::Previous) ==> key == Key::Up,
        action_spec(key) == Some(Action::Next) ==> key == Key::Down,
        action_spec(key) == Some(Action::Play) ==> key == Key::Char(' '),
        c != 'q' && c != ' ' ==> action_spec(Key::Char(c)) is None,
        action_spec(Key::Other) is None,
        action_spec(Key::Char('q')) == Some(Action::Quit),
        action_spec(Key::Char(' ')) == Some(Action::Play),
        action_spec(Key::Up) == Some(Action::Previous),
        action_spec(Key::Down) == Some(Action::Next),
{
}

} // verus!
