//! The position in the table of runs.

use vstd::prelude::*;

verus! {

/// The first row that is shown, and the row that is selected.
#[derive(Clone, Copy, Debug, PartialEq, Eq)]
pub struct TablePosition {
    pub offset: usize,
    pub selected: Option<usize>,
}

impl TablePosition {
    /// The selected row, or the first where none is.
    pub open spec fn row(self) -> int {
        match self.selected {
            Some(row) => row as int,
            None => 0,
        }
    }

    /// The position before anything is shown.
    pub fn new() -> (r: TablePosition)
        ensures
            r.offset == 0,
            r.selected is None,
    {
        TablePosition { offset: 0, selected: None }
    }

    /// `ratatui::widgets::TableState::select` selects a row. The rows that are shown stay the same,
    /// unless nothing is selected any more: then they begin with the first.
    #[verifier::external_body]
    pub(crate) fn select(self, row: Option<usize>) -> (r: TablePosition)
        ensures
            r.selected == row,
            r.offset == (if row is None {
                0
            } else {
                self.offset
            }),
    {
        let mut state = ratatui::widgets::TableState::new()
            .with_offset(self.offset)
            .with_selected(self.selected);
        state.select(row);
        TablePosition { offset: state.offset(), selected: state.selected() }
    }

    /// `ratatui::widgets::TableState::scroll_down_by` selects a row further down, and stops at the
    /// largest number. The rows that are shown stay the same.
    #[verifier::external_body]
    pub(crate) fn scroll_down_by(self, amount: u16) -> (r: TablePosition)
        ensures
            r.offset == self.offset,
            r.selected is Some,
            r.row() == (if self.row() + amount > usize::MAX {
                usize::MAX as int
            } else {
                self.row() + amount
            }),
    {
        let mut state = ratatui::widgets::TableState::new()
            .with_offset(self.offset)
            .with_selected(self.selected);
        state.scroll_down_by(amount);
        TablePosition { offset: state.offset(), selected: state.selected() }
    }

    /// `ratatui::widgets::TableState::scroll_up_by` selects a row further up, and stops at the first.
    /// The rows that are shown stay the same.
    #[verifier::external_body]
    pub(crate) fn scroll_up_by(self, amount: u16) -> (r: TablePosition)
        ensures
            r.offset == self.offset,
            r.selected is Some,
            r.row() == (if self.row() < amount {
                0
            } else {
                self.row() - amount
            }),
    {
        let mut state = ratatui::widgets::TableState::new()
            .with_offset(self.offset)
            .with_selected(self.selected);
        state.scroll_up_by(amount);
        TablePosition { offset: state.offset(), selected: state.selected() }
    }
}

} // verus!
