//! Selection and scroll position of an on-screen list.
use vstd::prelude::*;

verus! {

/// What a [`ListState`] holds: the index of the first item on screen and the
/// index of the selected item, if one is selected.
pub struct ListStateView {
    pub offset: usize,
    pub selected: Option<usize>,
}

/// Index that "select next" moves to: the first item when nothing is
/// selected, otherwise one further down, saturating at `usize::MAX`.
pub open spec fn next_index(selected: Option<usize>) -> usize {
    match selected {
        None => 0,
        Some(i) => if i == usize::MAX { usize::MAX } else { (i + 1) as usize },
    }
}

/// Index that "select previous" moves to: `usize::MAX` (which a render
/// clamps to the last item) when nothing is selected, otherwise one further
/// up, saturating at `0`.
pub open spec fn previous_index(selected: Option<usize>) -> usize {
    match selected {
        None => usize::MAX,
        Some(i) => if i == 0 { 0 } else { (i - 1) as usize },
    }
}

/// The state after selecting `index`: a deselection also scrolls back to
/// the top, a selection keeps the scroll position.
pub open spec fn select_spec(s: ListStateView, index: Option<usize>) -> ListStateView {
    ListStateView {
        offset: if index is None { 0 } else { s.offset },
        selected: index,
    }
}

/// Selection state of a list: scroll offset and selected index.
///
/// The indices are not bounded by the length of the list: moving past either
/// end is corrected when the list is drawn.
#[derive(Clone, Copy, Debug)]
pub struct ListState {
    offset: usize,
    selected: Option<usize>,
}

impl View for ListState {
    type V = ListStateView;

    closed spec fn view(&self) -> ListStateView {
        ListStateView { offset: self.offset, selected: self.selected }
    }
}

impl Default for ListState {
    /// Nothing selected, scrolled to the top.
    fn default() -> (r: ListState)
        ensures
            r@ == (ListStateView { offset: 0, selected: None }),
    {
        ListState { offset: 0, selected: None }
    }
}

impl ListState {
    /// The same state scrolled to `offset`.
    pub fn with_offset(self, offset: usize) -> (r: ListState)
        ensures
            r@ == (ListStateView { offset: offset, selected: self@.selected }),
    {
        ListState { offset, selected: self.selected }
    }

    /// The same state with `selected` as its selection.
    pub fn with_selected(self, selected: Option<usize>) -> (r: ListState)
        ensures
            r@ == (ListStateView { offset: self@.offset, selected: selected }),
    {
        ListState { offset: self.offset, selected }
    }

    /// Index of the first item on screen.
    pub fn offset(&self) -> (r: usize)
        ensures
            r == self@.offset,
    {
        self.offset
    }

    /// Index of the selected item, if any.
    pub fn selected(&self) -> (r: Option<usize>)
        ensures
            r == self@.selected,
    {
        self.selected
    }

    /// Selects `index`; selecting nothing also scrolls back to the top.
    pub fn select(&mut self, index: Option<usize>)
        ensures
            final(self)@ == select_spec(old(self)@, index),
    {
        self.selected = index;
        if index.is_none() {
            self.offset = 0;
        }
    }

    /// Moves the selection one item down, or to the first item when nothing
    /// is selected.
    pub fn select_next(&mut self)
        ensures
            final(self)@ == select_spec(old(self)@, Some(next_index(old(self)@.selected))),
    {
        let next = match self.selected {
            None => 0,
            Some(i) => i.saturating_add(1),
        };
        self.select(Some(next));
    }

    /// Moves the selection one item up, or to the last item when nothing is
    /// selected.
    pub fn select_previous(&mut self)
        ensures
            final(self)@ == select_spec(old(self)@, Some(previous_index(old(self)@.selected))),
    {
        let previous = match self.selected {
            None => usize::MAX,
            Some(i) => i.saturating_sub(1),
        };
        self.select(Some(previous));
    }

    /// Selects the first item.
    pub fn select_first(&mut self)
        ensures
            final(self)@ == select_spec(old(self)@, Some(0)),
    {
        self.select(Some(0));
    }
}

/// Moving down and then up returns to the item that was selected, unless the
/// selection already sat at the largest index, where moving down saturates.
pub proof fn lemma_next_then_previous(s: ListStateView, i: usize)
    requires
        s.selected == Some(i),
        i < usize::MAX,
    ensures
        select_spec(
            select_spec(s, Some(next_index(s.selected))),
            Some(previous_index(Some(next_index(s.selected)))),
        ) == s,
{
}

/// Moving up and then down returns to the item that was selected, unless the
/// selection already sat at the first item, where moving up saturates.
pub proof fn lemma_previous_then_next(s: ListStateView, i: usize)
    requires
        s.selected == Some(i),
        i > 0,
    ensures
        select_spec(
            select_spec(s, Some(previous_index(s.selected))),
            Some(next_index(Some(previous_index(s.selected)))),
        ) == s,
{
}

/// A selection never clears the selection, and selecting the first item twice
/// is the same as selecting it once.
pub proof fn lemma_select_first_idempotent(s: ListStateView)
    ensures
        select_spec(select_spec(s, Some(0)), Some(0)) == select_spec(s, Some(0)),
        select_spec(s, Some(next_index(s.selected))).selected is Some,
        select_spec(s, Some(previous_index(s.selected))).selected is Some,
{
}

/// "Next" moves the selection to the following index (staying at the
/// largest), or to the first item when nothing is selected; "previous" moves
/// it to the preceding index (staying at `0`), or to the last item when
/// nothing is selected; neither changes the scroll position.
pub proof fn lemma_moves_by_one(s: ListStateView, i: usize)
    ensures
        s.selected == Some(i) && i < usize::MAX ==> select_spec(s, Some(next_index(s.selected)))
            == (ListStateView { offset: s.offset, selected: Some((i + 1) as usize) }),
        s.selected == Some(usize::MAX) ==> select_spec(s, Some(next_index(s.selected))) == s,
        s.selected == Some(i) && i > 0 ==> select_spec(s, Some(previous_index(s.selected)))
            == (ListStateView { offset: s.offset, selected: Some((i - 1) as usize) }),
        s.selected == Some(0usize) ==> select_spec(s, Some(previous_index(s.selected))) == s,
        s.selected is None ==> select_spec(s, Some(next_index(s.selected))).selected == Some(0usize),
        s.selected is None ==> select_spec(s, Some(previous_index(s.selected))).selected == Some(usize::MAX),
        select_spec(s, None) == (ListStateView { offset: 0, selected: None }),
        select_spec(s, Some(i)) == (ListStateView { offset: s.offset, selected: Some(i) }),
{
}

} // verus!
