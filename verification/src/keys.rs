//! What keys do, and when the screen may be drawn less often.

use crate::list::{one_down, one_up, ListView, Requests, RequestsView, WorkflowRunsListState};
use crate::table::TablePosition;
use vstd::prelude::*;

verus! {

/// A key that has been pressed.
#[derive(Clone, Copy, Debug, PartialEq, Eq)]
pub enum Key {
    Char(char),
    Esc,
    Down,
    Up,
    Enter,
    Other,
}

/// What is to be done after a key: nothing, end, fetch what the list lacks, or open an address in the
/// browser.
#[derive(Debug, PartialEq, Eq)]
pub enum Action {
    Nothing,
    Quit,
    Fetch(Requests),
    Open(String),
}

/// What an `Action` says.
pub enum ActionView {
    Nothing,
    Quit,
    Fetch(RequestsView),
    Open(Seq<char>),
}

impl View for Action {
    type V = ActionView;

    open spec fn view(&self) -> ActionView {
        match self {
            Action::Nothing => ActionView::Nothing,
            Action::Quit => ActionView::Quit,
            Action::Fetch(requests) => ActionView::Fetch(requests@),
            Action::Open(url) => ActionView::Open(url@),
        }
    }
}

/// The key ends the program.
pub open spec fn quits(key: Key) -> bool {
    key == Key::Char('q') || key == Key::Esc
}

/// The key selects the next run.
pub open spec fn goes_down(key: Key) -> bool {
    key == Key::Char('j') || key == Key::Down
}

/// The key selects the run before.
pub open spec fn goes_up(key: Key) -> bool {
    key == Key::Char('k') || key == Key::Up
}

/// The key shows or hides the pane of jobs.
pub open spec fn toggles(key: Key) -> bool {
    key == Key::Char(' ')
}

/// The list after asking, and what is to be fetched as an action.
pub open spec fn fetching(asked: (ListView, RequestsView)) -> (ListView, ActionView) {
    (asked.0, ActionView::Fetch(asked.1))
}

impl ListView {
    /// The list after a key, and what is to be done.
    pub open spec fn after_key(self, key: Key) -> (ListView, ActionView) {
        if quits(key) {
            (self, ActionView::Quit)
        } else if goes_down(key) {
            fetching(self.at(one_down(self.table)).ask_if_shown())
        } else if goes_up(key) {
            fetching(self.at(one_up(self.table)).ask_if_shown())
        } else if toggles(key) {
            fetching(self.toggled().ask_if_shown())
        } else if key == Key::Enter {
            match self.selected_index() {
                Some(i) => (self, ActionView::Open(self.runs[i].html_url)),
                None => (self, ActionView::Nothing),
            }
        } else {
            (self, ActionView::Nothing)
        }
    }
}

/// Nanoseconds without a key after which the screen is at rest.
pub const INTERACTION_TIMEOUT_NANOS: u128 = 200_000_000;

impl WorkflowRunsListState {
    /// Takes up a key that has been pressed.
    pub fn handle_event(&mut self, key: Key) -> (r: Action)
        ensures
            (final(self)@, r@) == old(self)@.after_key(key),
    {
        match key {
            Key::Char('q') => Action::Quit,
            Key::Esc => Action::Quit,
            Key::Char('j') => Action::Fetch(self.scroll_down()),
            Key::Down => Action::Fetch(self.scroll_down()),
            Key::Char('k') => Action::Fetch(self.scroll_up()),
            Key::Up => Action::Fetch(self.scroll_up()),
            Key::Enter => match self.selected_workflow_url() {
                Some(url) => Action::Open(url),
                None => Action::Nothing,
            },
            Key::Char(' ') => Action::Fetch(self.toggle_job_breakdown_pane()),
            _ => Action::Nothing,
        }
    }

    /// Whether the screen is at rest, given the nanoseconds since the last event: there is no news
    /// to show, and nothing has happened for a while.
    pub fn is_idle(&self, since_interaction_nanos: u128) -> (r: bool)
        ensures
            r == (!self@.data_updated && since_interaction_nanos > 200_000_000),
            r == self@.rests(since_interaction_nanos as int),
    {
        !self.has_data_updates() && since_interaction_nanos > INTERACTION_TIMEOUT_NANOS
    }
}

/// A key that moves the selection, or shows and hides the pane, changes no other run than the one
/// that is then selected, and neither adds nor removes runs.
pub proof fn keys_keep_the_other_runs(list: ListView, key: Key, i: int)
    requires
        0 <= i < list.runs.len(),
    ensures
        list.after_key(key).0.runs.len() == list.runs.len(),
        list.after_key(key).0.selected_index() != Some(i) ==> list.after_key(key).0.runs[i]
            == list.runs[i],
{
}

/// A key that neither moves the selection nor toggles the pane leaves the list as it is.
pub proof fn other_keys_leave_the_list(list: ListView, key: Key)
    requires
        !goes_down(key),
        !goes_up(key),
        !toggles(key),
    ensures
        list.after_key(key).0 == list,
{
}

/// While the pane of jobs is hidden, only the key that shows it has anything fetched.
pub proof fn hidden_panes_fetch_nothing(list: ListView, key: Key)
    requires
        !list.pane_shown,
        !toggles(key),
    ensures
        list.after_key(key).1 matches ActionView::Fetch(requests) ==> requests.jobs is None
            && requests.log is None,
{
}

/// What each key does. `q` and Esc end the program. `j` and Down select the next row, `k` and Up the row
/// before, and what the run there lacks is fetched where the pane is shown. Space shows the pane and has
/// fetched what the selected run lacks, or hides it. Enter opens the address of the selected run. Every
/// other key does nothing.
pub proof fn keys_do_what_is_explained(list: ListView, key: Key)
    ensures
        ({
            let (after, action) = list.after_key(key);
            let row = if list.table.selected is Some {
                list.table.selected->0
            } else {
                0
            };
            let at = |selected: int|
                ListView {
                    table: TablePosition {
                        offset: list.table.offset,
                        selected: Some(selected as usize),
                    },
                    ..list
                };
            let moved = if row == usize::MAX {
                at(row as int)
            } else {
                at(row + 1)
            };
            let back = if row == 0 {
                at(0)
            } else {
                at(row - 1)
            };
            let flipped = ListView { pane_shown: !list.pane_shown, data_updated: true, ..list };
            match key {
                Key::Esc => after == list && action is Quit,
                Key::Down => is_fetch_after(moved, after, action),
                Key::Up => is_fetch_after(back, after, action),
                Key::Enter => after == list && match list.selected_index() {
                    Some(i) => action == ActionView::Open(list.runs[i].html_url),
                    None => action is Nothing,
                },
                Key::Other => after == list && action is Nothing,
                Key::Char(c) => {
                    &&& c == 'q' ==> after == list && action is Quit
                    &&& c == 'j' ==> is_fetch_after(moved, after, action)
                    &&& c == 'k' ==> is_fetch_after(back, after, action)
                    &&& c == ' ' ==> is_fetch_after(flipped, after, action)
                    &&& c != 'q' && c != 'j' && c != 'k' && c != ' ' ==> after == list
                        && action is Nothing
                },
            }
        }),
{
}

/// A list has changed to `asked`, and then, where the pane is shown, what its selected run lacks is to
/// be fetched. Where it is hidden, nothing is.
pub open spec fn is_fetch_after(asked: ListView, after: ListView, action: ActionView) -> bool {
    match action {
        ActionView::Fetch(requests) => {
            &&& asked.pane_shown ==> after == asked.ask().0 && requests == asked.ask().1
            &&& !asked.pane_shown ==> after == asked && requests.jobs is None && requests.log is None
        },
        _ => false,
    }
}

} // verus!
