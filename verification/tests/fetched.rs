use gal::fetched::{detailed_runs, merged_runs, FetchedRun};
use gal::run::{FailedStepLogState, JobsState, WorkflowRun};
use gal::time::Timestamp;

fn fetched(id: u64, name: &str) -> FetchedRun {
    FetchedRun {
        id,
        name: name.to_string(),
        commit: "c".to_string(),
        branch: "b".to_string(),
        status: "queued".to_string(),
        conclusion: None,
        created_at: Timestamp::new(5, 6).unwrap(),
        html_url: "u".to_string(),
    }
}

fn known(id: u64, jobs: JobsState, failed_step_log: FailedStepLogState) -> WorkflowRun {
    WorkflowRun {
        id,
        name: "old".to_string(),
        commit: "old".to_string(),
        branch: "old".to_string(),
        status: "completed".to_string(),
        conclusion: Some("success".to_string()),
        jobs,
        failed_step_log,
        created_at: Timestamp::new(1, 2).unwrap(),
        html_url: "old".to_string(),
    }
}

#[test]
fn runs_of_branches_are_merged_newest_first() {
    let merged = merged_runs(vec![
        vec![fetched(7, "a"), fetched(3, "b")],
        vec![],
        vec![fetched(9, "c"), fetched(4, "d")],
    ]);
    let ids: Vec<u64> = merged.iter().map(|r| r.id).collect();
    assert_eq!(ids, vec![9, 7, 4, 3]);
    assert_eq!(merged[1], fetched(7, "a"));
    assert_eq!(merged_runs(vec![]), vec![]);
}

#[test]
fn runs_that_are_fetched_twice_stay_twice() {
    let merged = merged_runs(vec![vec![fetched(3, "a")], vec![fetched(5, "x"), fetched(3, "a")]]);
    let ids: Vec<u64> = merged.iter().map(|r| r.id).collect();
    assert_eq!(ids, vec![5, 3, 3]);
}

#[test]
fn known_details_are_kept() {
    let runs = detailed_runs(
        vec![fetched(2, "two"), fetched(1, "one")],
        &vec![known(1, JobsState::Loaded(vec![]), FailedStepLogState::NotAvailable)],
    );
    assert_eq!(
        runs,
        vec![
            WorkflowRun {
                id: 2,
                name: "two".to_string(),
                commit: "c".to_string(),
                branch: "b".to_string(),
                status: "queued".to_string(),
                conclusion: None,
                jobs: JobsState::NotLoaded,
                failed_step_log: FailedStepLogState::NotLoaded,
                created_at: Timestamp::new(5, 6).unwrap(),
                html_url: "u".to_string(),
            },
            WorkflowRun {
                id: 1,
                name: "one".to_string(),
                commit: "c".to_string(),
                branch: "b".to_string(),
                status: "queued".to_string(),
                conclusion: None,
                jobs: JobsState::Loaded(vec![]),
                failed_step_log: FailedStepLogState::NotAvailable,
                created_at: Timestamp::new(5, 6).unwrap(),
                html_url: "u".to_string(),
            },
        ]
    );
}

#[test]
fn the_last_of_known_runs_counts() {
    let runs = detailed_runs(
        vec![fetched(1, "one")],
        &vec![
            known(1, JobsState::Loading, FailedStepLogState::NotLoaded),
            known(1, JobsState::LoadingError("x".to_string()), FailedStepLogState::NotAvailable),
            known(2, JobsState::Loaded(vec![]), FailedStepLogState::NotLoaded),
        ],
    );
    assert_eq!(runs[0].jobs, JobsState::LoadingError("x".to_string()));
    assert_eq!(runs[0].failed_step_log, FailedStepLogState::NotAvailable);
}
