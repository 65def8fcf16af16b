use gal::keys::{Action, Key};
use gal::list::{JobsRequest, Requests, WorkflowRunsListState};
use gal::run::{FailedStepLogState, JobsState, WorkflowRun};
use gal::time::Timestamp;

fn queued(id: u64) -> WorkflowRun {
    WorkflowRun {
        id,
        name: "n".to_string(),
        commit: "c".to_string(),
        branch: "b".to_string(),
        status: "queued".to_string(),
        conclusion: None,
        jobs: JobsState::NotLoaded,
        failed_step_log: FailedStepLogState::NotLoaded,
        created_at: Timestamp::new(0, 0).unwrap(),
        html_url: format!("https://example.org/{id}"),
    }
}

fn list_of_two() -> WorkflowRunsListState {
    let mut list = WorkflowRunsListState::new();
    list.on_load(vec![queued(5), queued(4)]);
    list
}

fn fetch(run_id: u64) -> Action {
    Action::Fetch(Requests { jobs: Some(JobsRequest { run_id, is_completed: false }), log: None })
}

fn fetch_nothing() -> Action {
    Action::Fetch(Requests { jobs: None, log: None })
}

#[test]
fn two_keys_quit() {
    let mut list = list_of_two();
    assert_eq!(list.handle_event(Key::Char('q')), Action::Quit);
    assert_eq!(list.handle_event(Key::Esc), Action::Quit);
    assert_eq!(list.table_state.selected, Some(0));
}

#[test]
fn keys_move_through_the_list() {
    for (down, up) in [(Key::Char('j'), Key::Char('k')), (Key::Down, Key::Up)] {
        let mut list = list_of_two();
        assert_eq!(list.handle_event(down), fetch(4));
        assert_eq!(list.table_state.selected, Some(1));
        assert_eq!(list.handle_event(up), fetch_nothing());
        assert_eq!(list.table_state.selected, Some(0));
    }
}

#[test]
fn space_toggles_the_pane() {
    let mut list = list_of_two();
    assert_eq!(list.handle_event(Key::Char(' ')), fetch_nothing());
    assert!(!list.show_job_breakdown_pane);
    // Nothing is fetched while the pane is hidden.
    assert_eq!(list.handle_event(Key::Char('j')), fetch_nothing());
    assert_eq!(list.handle_event(Key::Char(' ')), fetch(4));
    assert!(list.show_job_breakdown_pane);
}

#[test]
fn enter_opens_the_selected_run() {
    let mut list = list_of_two();
    list.handle_event(Key::Down);
    assert_eq!(list.handle_event(Key::Enter), Action::Open("https://example.org/4".to_string()));
    list.handle_event(Key::Down);
    assert_eq!(list.handle_event(Key::Enter), Action::Nothing);
    assert_eq!(WorkflowRunsListState::new().handle_event(Key::Enter), Action::Nothing);
}

#[test]
fn other_keys_do_nothing() {
    let mut list = list_of_two();
    list.set_data_updated(false);
    for key in [Key::Char('Q'), Key::Char('x'), Key::Other] {
        assert_eq!(list.handle_event(key), Action::Nothing);
    }
    assert!(!list.has_data_updates());
    assert_eq!(list.table_state.selected, Some(0));
}

#[test]
fn screens_come_to_rest() {
    let mut list = WorkflowRunsListState::new();
    assert!(!list.is_idle(200_000_000));
    assert!(list.is_idle(200_000_001));
    list.set_data_updated(true);
    assert!(!list.is_idle(u128::MAX));
}
