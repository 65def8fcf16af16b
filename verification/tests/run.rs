use gal::line::{Line, Span, Style};
use gal::run::{
    copy_jobs, FailedStepLogState, FailedStepLogTail, FailedStepRef, Job, JobsState, Step,
    WorkflowRun,
};
use gal::status::{Color, Conclusion, Status};
use gal::time::Timestamp;

const NOW: i64 = 1710504000;

fn at(secs: i64) -> Timestamp {
    Timestamp::new(secs, 0).unwrap()
}

fn step(name: &str, conclusion: Option<Conclusion>) -> Step {
    Step {
        name: name.to_string(),
        status: Status::Completed,
        conclusion,
        started_at: Some(at(NOW - 100)),
        completed_at: Some(at(NOW - 90)),
    }
}

fn job(id: u64, name: &str, steps: Vec<Step>) -> Job {
    Job {
        id,
        name: name.to_string(),
        status: Status::Completed,
        conclusion: Some(Conclusion::Success),
        started_at: at(NOW - 200),
        completed_at: Some(at(NOW - 100)),
        steps,
    }
}

fn run(jobs: JobsState, log: FailedStepLogState) -> WorkflowRun {
    WorkflowRun {
        id: 17,
        name: "CI".to_string(),
        commit: "Fix it".to_string(),
        branch: "main".to_string(),
        status: "completed".to_string(),
        conclusion: Some("failure".to_string()),
        jobs,
        failed_step_log: log,
        created_at: at(NOW - 120),
        html_url: "https://github.com/o/r/actions/runs/17".to_string(),
    }
}

fn reference() -> FailedStepRef {
    FailedStepRef { job_id: 3, job_name: "b".to_string(), step_name: "test".to_string() }
}

fn plain(text: &str) -> Line {
    Line::Plain { text: text.to_string(), style: Style { fg: None, bold: false } }
}

fn title(text: &str) -> Line {
    Line::Plain { text: text.to_string(), style: Style { fg: Some(Color::White), bold: true } }
}

fn tree(prefix: &str, text: &str, suffix: &str, color: Color) -> Line {
    let grey = Style { fg: Some(Color::DarkGray), bold: false };
    Line::Spans(vec![
        Span { text: prefix.to_string(), style: grey },
        Span { text: text.to_string(), style: Style { fg: Some(color), bold: false } },
        Span { text: suffix.to_string(), style: grey },
    ])
}

#[test]
fn rows_show_age_branch_and_commit() {
    let row = run(JobsState::NotLoaded, FailedStepLogState::NotLoaded).to_row_at(at(NOW));
    assert_eq!(row.time, "2m ago");
    assert_eq!(row.branch, "main");
    assert_eq!(
        row.details_lines,
        vec![Line::Plain {
            text: "⚠ CI - Fix it".to_string(),
            style: Style { fg: Some(Color::Red), bold: false },
        }]
    );
}

#[test]
fn rows_go_by_the_system_clock() {
    let row = run(JobsState::NotLoaded, FailedStepLogState::NotLoaded).to_row();
    assert_ne!(row.time, "2m ago");
    assert_eq!(row.branch, "main");
    assert_eq!(row.details_lines.len(), 1);
}

#[test]
fn jobs_that_are_not_known_are_told() {
    let lines = |jobs| run(jobs, FailedStepLogState::NotLoaded).job_breakdown_lines_at(at(NOW));
    assert_eq!(lines(JobsState::NotLoaded), vec![plain("Loading not started")]);
    assert_eq!(lines(JobsState::Loading), vec![plain("Loading jobs...")]);
    assert_eq!(
        lines(JobsState::LoadingError("gone".to_string())),
        vec![plain("Error loading jobs: gone")]
    );
    assert_eq!(lines(JobsState::Loaded(vec![])), vec![plain("No jobs in this run")]);
    assert_eq!(lines(JobsState::Reloading(vec![])), vec![plain("No jobs in this run")]);
}

#[test]
fn jobs_and_steps_are_shown_as_a_tree() {
    let jobs = vec![
        job(
            2,
            "a",
            vec![step("one", Some(Conclusion::Success)), step("two", Some(Conclusion::Skipped))],
        ),
        Job {
            status: Status::InProgress,
            conclusion: None,
            completed_at: None,
            ..job(
                3,
                "b",
                vec![
                    Step {
                        status: Status::InProgress,
                        conclusion: None,
                        completed_at: None,
                        ..step("three", None)
                    },
                    Step {
                        status: Status::Queued,
                        conclusion: None,
                        started_at: None,
                        completed_at: None,
                        ..step("four", None)
                    },
                ],
            )
        },
    ];
    let lines = run(JobsState::Loaded(jobs), FailedStepLogState::NotLoaded)
        .job_breakdown_lines_at(at(NOW));
    assert_eq!(
        lines,
        vec![
            title("CI (17)"),
            tree("├─ ", "✔ a", " 1m 40s", Color::Green),
            tree("│  ├─ ", "✔ one", " 10s", Color::Green),
            tree("│  └─ ", "⏭ two", " 10s", Color::Magenta),
            tree("└─ ", "⏵ b", " 3m 20s", Color::Yellow),
            tree("   ├─ ", "⏵ three", " 1m 40s", Color::Yellow),
            tree("   └─ ", "⏸ four", " ", Color::Blue),
        ]
    );
}

#[test]
fn steps_without_a_start_have_no_duration() {
    let jobs = vec![Job {
        completed_at: None,
        ..job(
            2,
            "a",
            vec![Step { started_at: None, status: Status::InProgress, ..step("one", None) }],
        )
    }];
    let lines = run(JobsState::Reloading(jobs), FailedStepLogState::NotLoaded)
        .job_breakdown_lines_at(at(NOW));
    assert_eq!(lines[1], tree("└─ ", "✔ a", " ", Color::Green));
    assert_eq!(lines[2], tree("   └─ ", "⏵ one", " ", Color::Yellow));
}

#[test]
fn every_job_and_step_has_a_line() {
    let jobs = vec![
        job(1, "a", vec![step("x", None)]),
        job(2, "b", vec![]),
        job(3, "c", vec![step("y", None), step("z", None)]),
    ];
    let lines = run(JobsState::Loaded(jobs), FailedStepLogState::NotLoaded).job_breakdown_lines();
    assert_eq!(lines.len(), 1 + 3 + 3);
    assert_eq!(lines[3], tree("├─ ", "✔ b", " 1m 40s", Color::Green));
}

#[test]
fn the_first_failed_step_is_found() {
    let jobs = vec![
        job(2, "a", vec![step("ok", Some(Conclusion::Success)), step("none", None)]),
        job(
            3,
            "b",
            vec![
                step("skipped", Some(Conclusion::Skipped)),
                step("test", Some(Conclusion::Failure)),
                step("later", Some(Conclusion::Failure)),
            ],
        ),
        job(4, "c", vec![step("more", Some(Conclusion::TimedOut))]),
    ];
    let known = run(JobsState::Reloading(jobs), FailedStepLogState::NotLoaded);
    assert_eq!(known.first_failed_step(), Some(reference()));
    assert!(known.has_failed_step());
}

#[test]
fn three_ends_are_failures() {
    let failed = |end| {
        run(
            JobsState::Loaded(vec![job(3, "b", vec![step("test", Some(end))])]),
            FailedStepLogState::NotLoaded,
        )
        .has_failed_step()
    };
    assert!(failed(Conclusion::Failure));
    assert!(failed(Conclusion::TimedOut));
    assert!(failed(Conclusion::ActionRequired));
    assert!(!failed(Conclusion::Cancelled));
    assert!(!failed(Conclusion::Neutral));
    assert!(!failed(Conclusion::Skipped));
    assert!(!failed(Conclusion::Success));
    assert!(!failed(Conclusion::Other));
}

#[test]
fn unknown_jobs_have_no_failed_step() {
    for jobs in [
        JobsState::NotLoaded,
        JobsState::Loading,
        JobsState::LoadingError("x".to_string()),
        JobsState::Loaded(vec![]),
    ] {
        let known = run(jobs, FailedStepLogState::NotLoaded);
        assert_eq!(known.first_failed_step(), None);
        assert!(!known.has_failed_step());
    }
}

#[test]
fn the_log_of_the_failed_step_is_shown() {
    let lines = |log| run(JobsState::NotLoaded, log).failed_step_log_lines();
    assert_eq!(
        lines(FailedStepLogState::NotAvailable),
        vec![plain("No failed step in selected run")]
    );
    assert_eq!(lines(FailedStepLogState::NotLoaded), vec![plain("Log tail not loaded")]);
    assert_eq!(
        lines(FailedStepLogState::Loading(reference())),
        vec![title("b / test"), plain("Loading failed-step logs...")]
    );
    assert_eq!(
        lines(FailedStepLogState::LoadingError(reference(), "no".to_string())),
        vec![title("b / test"), plain("Error loading logs: no")]
    );
    let tail = |lines: Vec<&str>| FailedStepLogState::Loaded(FailedStepLogTail {
        failed_step: reference(),
        lines: lines.into_iter().map(|l| l.to_string()).collect(),
    });
    assert_eq!(
        lines(tail(vec![])),
        vec![title("b / test"), plain("No log lines found for failed step")]
    );
    assert_eq!(
        lines(tail(vec!["x", "", "y"])),
        vec![title("b / test"), plain("x"), plain(""), plain("y")]
    );
}

#[test]
fn lines_of_the_tree_have_three_pieces() {
    assert_eq!(
        WorkflowRun::job_line("p".to_string(), "t".to_string(), "s".to_string(), Color::Red),
        tree("p", "t", " s", Color::Red)
    );
}

#[test]
fn copies_hold_the_same() {
    let jobs = vec![job(2, "a", vec![step("one", None)])];
    assert_eq!(copy_jobs(&jobs), jobs);
    assert_eq!(JobsState::Reloading(copy_jobs(&jobs)).clone(), JobsState::Reloading(jobs));
    assert!(reference().same_as(&reference().clone()));
    assert!(!reference().same_as(&FailedStepRef { job_id: 4, ..reference() }));
    assert!(!reference().same_as(&FailedStepRef { step_name: "x".to_string(), ..reference() }));
    let log = FailedStepLogState::LoadingError(reference(), "x".to_string());
    assert_eq!(log.clone(), log);
}

#[test]
fn copies_of_runs_hold_the_same() {
    let tail = FailedStepLogTail { failed_step: reference(), lines: vec!["x".to_string()] };
    assert_eq!(tail.clone(), tail);
    let known = run(
        JobsState::Loaded(vec![job(2, "a", vec![step("one", None)])]),
        FailedStepLogState::Loaded(tail),
    );
    assert_eq!(known.clone(), known);
}
