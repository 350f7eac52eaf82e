use music_player::controls::{action_for_key, Action, Key};

#[test]
fn q_quits() {
    assert_eq!(action_for_key(Key::Char('q')), Some(Action::Quit));
}

#[test]
fn arrows_move_and_space_plays() {
    assert_eq!(action_for_key(Key::Up), Some(Action::Previous));
    assert_eq!(action_for_key(Key::Down), Some(Action::Next));
    assert_eq!(action_for_key(Key::Char(' ')), Some(Action::Play));
}

#[test]
fn other_keys_are_ignored() {
    assert_eq!(action_for_key(Key::Char('Q')), None);
    assert_eq!(action_for_key(Key::Char('x')), None);
    assert_eq!(action_for_key(Key::Other), None);
}
