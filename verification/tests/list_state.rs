use music_player::list_state::ListState;

#[test]
fn default_selects_nothing_at_top() {
    let s = ListState::default();
    assert_eq!(s.selected(), None);
    assert_eq!(s.offset(), 0);
}

#[test]
fn select_next_from_nothing_selects_first() {
    let mut s = ListState::default();
    s.select_next();
    assert_eq!(s.selected(), Some(0));
}

#[test]
fn select_next_moves_down_and_saturates() {
    let mut s = ListState::default().with_selected(Some(3));
    s.select_next();
    assert_eq!(s.selected(), Some(4));
    let mut t = ListState::default().with_selected(Some(usize::MAX));
    t.select_next();
    assert_eq!(t.selected(), Some(usize::MAX));
}

#[test]
fn select_previous_from_nothing_selects_last() {
    let mut s = ListState::default();
    s.select_previous();
    assert_eq!(s.selected(), Some(usize::MAX));
}

#[test]
fn select_previous_moves_up_and_stops_at_first() {
    let mut s = ListState::default().with_selected(Some(2));
    s.select_previous();
    assert_eq!(s.selected(), Some(1));
    let mut t = ListState::default().with_selected(Some(0));
    t.select_previous();
    assert_eq!(t.selected(), Some(0));
}

#[test]
fn deselecting_scrolls_to_top_selecting_keeps_offset() {
    let mut s = ListState::default().with_offset(5).with_selected(Some(7));
    s.select(Some(6));
    assert_eq!(s.offset(), 5);
    assert_eq!(s.selected(), Some(6));
    s.select(None);
    assert_eq!(s.offset(), 0);
    assert_eq!(s.selected(), None);
}

#[test]
fn select_first_is_idempotent() {
    let mut s = ListState::default().with_offset(2).with_selected(Some(9));
    s.select_first();
    assert_eq!(s.selected(), Some(0));
    assert_eq!(s.offset(), 2);
    s.select_first();
    assert_eq!(s.selected(), Some(0));
    assert_eq!(s.offset(), 2);
}

#[test]
fn next_then_previous_returns() {
    let mut s = ListState::default().with_offset(1).with_selected(Some(10));
    s.select_next();
    s.select_previous();
    assert_eq!(s.selected(), Some(10));
    assert_eq!(s.offset(), 1);
}

#[test]
fn previous_then_next_returns() {
    let mut s = ListState::default().with_selected(Some(4));
    s.select_previous();
    s.select_next();
    assert_eq!(s.selected(), Some(4));
}
