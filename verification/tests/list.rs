use gal::list::{
    JobsRequest, LoadingState, LogRequest, Requests, WorkflowRunsListState,
};
use gal::run::{
    FailedStepLogState, FailedStepLogTail, FailedStepRef, Job, JobsState, Step, WorkflowRun,
};
use gal::status::{Conclusion, Status};
use gal::table::TablePosition;
use gal::time::Timestamp;

fn at(secs: i64) -> Timestamp {
    Timestamp::new(secs, 0).unwrap()
}

fn run(id: u64, status: &str, jobs: JobsState) -> WorkflowRun {
    WorkflowRun {
        id,
        name: format!("run {id}"),
        commit: "c".to_string(),
        branch: "b".to_string(),
        status: status.to_string(),
        conclusion: None,
        jobs,
        failed_step_log: FailedStepLogState::NotLoaded,
        created_at: at(0),
        html_url: format!("https://example.org/{id}"),
    }
}

fn jobs(conclusion: Conclusion) -> Vec<Job> {
    vec![Job {
        id: 70,
        name: "build".to_string(),
        status: Status::Completed,
        conclusion: Some(conclusion),
        started_at: at(0),
        completed_at: Some(at(9)),
        steps: vec![Step {
            name: "test".to_string(),
            status: Status::Completed,
            conclusion: Some(conclusion),
            started_at: Some(at(1)),
            completed_at: Some(at(2)),
        }],
    }]
}

fn failed_step() -> FailedStepRef {
    FailedStepRef { job_id: 70, job_name: "build".to_string(), step_name: "test".to_string() }
}

fn none() -> Requests {
    Requests { jobs: None, log: None }
}

fn loaded(runs: Vec<WorkflowRun>) -> (WorkflowRunsListState, Requests) {
    let mut list = WorkflowRunsListState::new();
    let requests = list.on_load(runs);
    (list, requests)
}

#[test]
fn lists_begin_empty() {
    let list = WorkflowRunsListState::new();
    assert!(list.workflow_runs.is_empty());
    assert_eq!(list.loading_state, LoadingState::Idle);
    assert_eq!(list.table_state, TablePosition { offset: 0, selected: None });
    assert_eq!(list.throbber_index, 0);
    assert!(!list.has_data_updates());
    assert!(list.show_job_breakdown_pane);
    assert_eq!(list.selected_workflow_url(), None);
    assert_eq!(list.cached_workflow_jobs(1), None);
}

#[test]
fn the_first_load_selects_the_first_run() {
    let (list, requests) = loaded(vec![
        run(5, "completed", JobsState::NotLoaded),
        run(4, "queued", JobsState::NotLoaded),
    ]);
    assert_eq!(list.loading_state, LoadingState::Loaded);
    assert_eq!(list.table_state.selected, Some(0));
    assert!(list.has_data_updates());
    assert_eq!(list.workflow_runs[0].jobs, JobsState::Loading);
    assert_eq!(list.workflow_runs[0].failed_step_log, FailedStepLogState::NotAvailable);
    assert_eq!(list.workflow_runs[1], run(4, "queued", JobsState::NotLoaded));
    assert_eq!(
        requests,
        Requests { jobs: Some(JobsRequest { run_id: 5, is_completed: true }), log: None }
    );
}

#[test]
fn later_loads_keep_the_selection() {
    let (mut list, _) = loaded(vec![
        run(5, "queued", JobsState::NotLoaded),
        run(4, "queued", JobsState::NotLoaded),
    ]);
    list.scroll_down();
    let requests = list.on_load(vec![
        run(6, "queued", JobsState::NotLoaded),
        run(5, "in_progress", JobsState::NotLoaded),
    ]);
    assert_eq!(list.table_state.selected, Some(1));
    assert_eq!(requests.jobs, Some(JobsRequest { run_id: 5, is_completed: false }));
}

#[test]
fn loads_of_nothing_select_nothing() {
    let (mut list, requests) = loaded(vec![]);
    assert_eq!(list.table_state.selected, None);
    assert_eq!(requests, none());
    assert_eq!(list.scroll_down(), none());
    assert_eq!(list.table_state.selected, Some(1));
    assert_eq!(list.selected_workflow_url(), None);
}

#[test]
fn what_is_asked_for_is_not_asked_for_again() {
    let (mut list, requests) = loaded(vec![run(5, "queued", JobsState::NotLoaded)]);
    assert!(requests.jobs.is_some());
    assert_eq!(list.ensure_selected_workflow_jobs(), None);
    assert_eq!(list.ensure_selected_failed_step_log(), None);
}

#[test]
fn jobs_of_runs_in_progress_are_reloaded() {
    let known = jobs(Conclusion::Success);
    let (mut list, requests) = loaded(vec![run(5, "in_progress", JobsState::Loaded(known))]);
    assert_eq!(requests.jobs, Some(JobsRequest { run_id: 5, is_completed: false }));
    assert_eq!(list.workflow_runs[0].jobs, JobsState::Reloading(jobs(Conclusion::Success)));
    assert_eq!(list.ensure_selected_workflow_jobs(), None);
}

#[test]
fn jobs_of_other_runs_are_loaded_once() {
    let (list, requests) =
        loaded(vec![run(5, "completed", JobsState::Loaded(jobs(Conclusion::Success)))]);
    assert_eq!(requests, none());
    assert_eq!(list.workflow_runs[0].jobs, JobsState::Loaded(jobs(Conclusion::Success)));
}

#[test]
fn jobs_that_failed_to_load_are_asked_for_again() {
    let (list, requests) =
        loaded(vec![run(5, "completed", JobsState::LoadingError("x".to_string()))]);
    assert_eq!(requests.jobs, Some(JobsRequest { run_id: 5, is_completed: true }));
    assert_eq!(list.workflow_runs[0].jobs, JobsState::Loading);
}

#[test]
fn fetched_jobs_bring_the_log_of_a_failed_step() {
    let (mut list, _) = loaded(vec![run(5, "completed", JobsState::NotLoaded)]);
    list.set_data_updated(false);
    let request = list.on_jobs(5, Ok(jobs(Conclusion::Failure)));
    assert_eq!(request, Some(LogRequest { run_id: 5, failed_step: failed_step() }));
    assert_eq!(list.workflow_runs[0].jobs, JobsState::Loaded(jobs(Conclusion::Failure)));
    assert_eq!(
        list.workflow_runs[0].failed_step_log,
        FailedStepLogState::Loading(failed_step())
    );
    assert!(list.has_data_updates());
}

#[test]
fn fetched_jobs_without_a_failure_bring_no_log() {
    let (mut list, _) = loaded(vec![run(5, "completed", JobsState::NotLoaded)]);
    assert_eq!(list.on_jobs(5, Ok(jobs(Conclusion::Success))), None);
    assert_eq!(list.workflow_runs[0].failed_step_log, FailedStepLogState::NotAvailable);
}

#[test]
fn errors_of_fetching_jobs_are_noted() {
    let (mut list, _) = loaded(vec![run(5, "completed", JobsState::NotLoaded)]);
    assert_eq!(list.on_jobs(5, Err("no net".to_string())), None);
    assert_eq!(list.workflow_runs[0].jobs, JobsState::LoadingError("no net".to_string()));
}

#[test]
fn answers_for_runs_that_are_gone_change_nothing() {
    let (mut list, _) = loaded(vec![run(5, "completed", JobsState::NotLoaded)]);
    list.set_data_updated(false);
    assert_eq!(list.on_jobs(8, Ok(jobs(Conclusion::Failure))), None);
    list.on_failed_step_log(8, failed_step(), Ok(vec![]));
    assert!(!list.has_data_updates());
    assert_eq!(list.workflow_runs[0].jobs, JobsState::Loading);
}

#[test]
fn the_first_run_of_a_number_takes_the_answer() {
    let (mut list, _) = loaded(vec![
        run(9, "completed", JobsState::NotLoaded),
        run(5, "completed", JobsState::NotLoaded),
        run(5, "completed", JobsState::NotLoaded),
    ]);
    list.on_jobs(5, Ok(vec![]));
    assert_eq!(list.workflow_runs[1].jobs, JobsState::Loaded(vec![]));
    assert_eq!(list.workflow_runs[2].jobs, JobsState::NotLoaded);
}

#[test]
fn fetched_logs_are_taken_up_and_not_asked_for_again() {
    let (mut list, requests) =
        loaded(vec![run(5, "completed", JobsState::Loaded(jobs(Conclusion::Failure)))]);
    assert_eq!(requests.log, Some(LogRequest { run_id: 5, failed_step: failed_step() }));
    list.on_failed_step_log(5, failed_step(), Ok(vec!["x".to_string()]));
    assert_eq!(
        list.workflow_runs[0].failed_step_log,
        FailedStepLogState::Loaded(FailedStepLogTail {
            failed_step: failed_step(),
            lines: vec!["x".to_string()],
        })
    );
    assert_eq!(list.ensure_selected_failed_step_log(), None);
    list.on_failed_step_log(5, failed_step(), Err("gone".to_string()));
    assert_eq!(
        list.workflow_runs[0].failed_step_log,
        FailedStepLogState::LoadingError(failed_step(), "gone".to_string())
    );
    assert_eq!(list.ensure_selected_failed_step_log(), None);
}

#[test]
fn the_log_of_another_step_is_asked_for() {
    let (mut list, _) =
        loaded(vec![run(5, "completed", JobsState::Loaded(jobs(Conclusion::Failure)))]);
    let other = FailedStepRef { job_id: 71, ..failed_step() };
    for log in [
        FailedStepLogState::Loading(other.clone()),
        FailedStepLogState::LoadingError(other.clone(), "x".to_string()),
        FailedStepLogState::Loaded(FailedStepLogTail { failed_step: other.clone(), lines: vec![] }),
        FailedStepLogState::NotAvailable,
    ] {
        list.workflow_runs[0].failed_step_log = log;
        let request = list.ensure_selected_failed_step_log();
        assert_eq!(request, Some(LogRequest { run_id: 5, failed_step: failed_step() }));
    }
}

#[test]
fn scrolling_moves_the_selection_and_stops_at_the_top() {
    let (mut list, _) = loaded(vec![
        run(5, "queued", JobsState::NotLoaded),
        run(4, "queued", JobsState::NotLoaded),
    ]);
    let requests = list.scroll_down();
    assert_eq!(list.table_state, TablePosition { offset: 0, selected: Some(1) });
    assert_eq!(requests.jobs, Some(JobsRequest { run_id: 4, is_completed: false }));
    assert_eq!(list.selected_workflow_url(), Some("https://example.org/4".to_string()));
    list.scroll_up();
    assert_eq!(list.table_state.selected, Some(0));
    list.scroll_up();
    assert_eq!(list.table_state.selected, Some(0));
    list.table_drawn(TablePosition { offset: 3, selected: Some(usize::MAX) });
    list.scroll_down();
    assert_eq!(list.table_state, TablePosition { offset: 3, selected: Some(usize::MAX) });
    list.scroll_up();
    assert_eq!(list.table_state, TablePosition { offset: 3, selected: Some(usize::MAX - 1) });
}

#[test]
fn nothing_is_fetched_while_the_pane_is_hidden() {
    let (mut list, _) = loaded(vec![
        run(5, "queued", JobsState::NotLoaded),
        run(4, "queued", JobsState::NotLoaded),
    ]);
    assert_eq!(list.toggle_job_breakdown_pane(), none());
    assert!(!list.show_job_breakdown_pane);
    assert_eq!(list.scroll_down(), none());
    assert_eq!(list.workflow_runs[1].jobs, JobsState::NotLoaded);
    let requests = list.toggle_job_breakdown_pane();
    assert!(list.show_job_breakdown_pane);
    assert_eq!(requests.jobs, Some(JobsRequest { run_id: 4, is_completed: false }));
}

#[test]
fn runs_are_asked_for_on_load_while_the_pane_is_hidden() {
    let mut list = WorkflowRunsListState::new();
    list.toggle_job_breakdown_pane();
    let requests = list.on_load(vec![run(5, "queued", JobsState::NotLoaded)]);
    assert_eq!(requests.jobs, Some(JobsRequest { run_id: 5, is_completed: false }));
}

#[test]
fn jobs_of_completed_runs_are_kept() {
    let mut list = WorkflowRunsListState::new();
    list.keep_workflow_jobs(5, true, &jobs(Conclusion::Success));
    list.keep_workflow_jobs(6, false, &jobs(Conclusion::Success));
    assert_eq!(list.cached_workflow_jobs(5), Some(jobs(Conclusion::Success)));
    assert_eq!(list.cached_workflow_jobs(6), None);
    list.on_load(vec![run(5, "queued", JobsState::NotLoaded)]);
    list.on_jobs(5, Err("x".to_string()));
    assert_eq!(list.cached_workflow_jobs(5), Some(jobs(Conclusion::Success)));
    list.keep_workflow_jobs(5, true, &vec![]);
    assert_eq!(list.cached_workflow_jobs(5), Some(vec![]));
}

#[test]
fn the_throbber_moves_while_loading() {
    let mut list = WorkflowRunsListState::new();
    list.update_throbber();
    assert_eq!(list.throbber_index, 0);
    assert!(!list.has_data_updates());
    list.set_loading_state(LoadingState::Loading);
    list.update_throbber();
    assert_eq!(list.throbber_index, 1);
    assert!(list.has_data_updates());
    list.throbber_index = 127;
    list.update_throbber();
    assert_eq!(list.throbber_index, 0);
}

#[test]
fn errors_of_loading_are_noted() {
    let mut list = WorkflowRunsListState::new();
    list.on_err("no net".to_string());
    assert_eq!(list.loading_state, LoadingState::Error("no net".to_string()));
    assert!(!list.has_data_updates());
}

#[test]
fn loading_begins_idle() {
    assert_eq!(LoadingState::default(), LoadingState::Idle);
    let error = LoadingState::Error("x".to_string());
    assert_eq!(error.clone(), error);
    let list = WorkflowRunsListState::default();
    assert!(!list.show_job_breakdown_pane);
    assert_eq!(list.table_state, TablePosition { offset: 0, selected: None });
}
