use gal::keys::Key;
use gal::line::{Line, Span, Style};
use gal::list::{LoadingState, WorkflowRunsListState};
use gal::run::{
    FailedStepLogState, FailedStepLogTail, FailedStepRef, Job, JobsState, RunRow, Step, WorkflowRun,
};
use gal::screen::{
    calculate_column_widths, checked_column_widths, columns_for, key_help, table_headers,
    throbber_symbol, visible_heights, Constraint, Rect, TableBody,
};
use gal::status::{Color, Conclusion, Status};
use gal::table::TablePosition;
use gal::time::Timestamp;

const NOW: i64 = 1710504000;

fn at(secs: i64) -> Timestamp {
    Timestamp::new(secs, 0).unwrap()
}

fn rect(x: u16, y: u16, width: u16, height: u16) -> Rect {
    Rect { x, y, width, height }
}

fn row(time: &str, branch: &str) -> RunRow {
    RunRow { time: time.to_string(), branch: branch.to_string(), details_lines: vec![] }
}

fn plain(text: &str) -> Line {
    Line::Plain { text: text.to_string(), style: Style { fg: None, bold: false } }
}

fn failed_jobs() -> Vec<Job> {
    vec![Job {
        id: 70,
        name: "build".to_string(),
        status: Status::Completed,
        conclusion: Some(Conclusion::Failure),
        started_at: at(NOW - 60),
        completed_at: Some(at(NOW)),
        steps: vec![Step {
            name: "test".to_string(),
            status: Status::Completed,
            conclusion: Some(Conclusion::Failure),
            started_at: None,
            completed_at: None,
        }],
    }]
}

fn run(id: u64, branch: &str, jobs: JobsState) -> WorkflowRun {
    WorkflowRun {
        id,
        name: "CI".to_string(),
        commit: "c".to_string(),
        branch: branch.to_string(),
        status: "completed".to_string(),
        conclusion: Some("success".to_string()),
        jobs,
        failed_step_log: FailedStepLogState::NotLoaded,
        created_at: at(NOW - 100_000),
        html_url: "u".to_string(),
    }
}

fn list(runs: Vec<WorkflowRun>) -> WorkflowRunsListState {
    let mut list = WorkflowRunsListState::new();
    list.on_load(runs);
    list
}

#[test]
fn panes_share_the_screen() {
    let list = WorkflowRunsListState::new();
    assert_eq!(list.panes(rect(0, 0, 100, 40)), (rect(0, 0, 62, 40), Some(rect(62, 0, 38, 40))));
    // 15.5 columns become 16.
    assert_eq!(list.panes(rect(3, 2, 25, 9)), (rect(3, 2, 16, 9), Some(rect(19, 2, 9, 9))));
    assert_eq!(list.panes(rect(0, 0, 0, 0)), (rect(0, 0, 0, 0), Some(rect(0, 0, 0, 0))));
}

#[test]
fn panes_cover_areas_of_every_width() {
    let list = WorkflowRunsListState::new();
    for x in [0, 1, 77, 60000] {
        for width in 0..400 {
            let left = ((width as u32 * 62 + 50) / 100) as u16;
            assert_eq!(
                list.panes(rect(x, 5, width, 7)),
                (rect(x, 5, left, 7), Some(rect(x + left, 5, width - left, 7)))
            );
        }
    }
    for width in [1000, 12345, 20000, 32767, 32768, 50001, 65534, 65535] {
        let left = ((width as u32 * 62 + 50) / 100) as u16;
        assert_eq!(
            list.panes(rect(0, 0, width, 1)),
            (rect(0, 0, left, 1), Some(rect(left, 0, width - left, 1)))
        );
    }
}

#[test]
fn panes_end_at_the_last_column() {
    let list = WorkflowRunsListState::new();
    assert_eq!(
        list.panes(rect(65530, 0, 10, 4)),
        (rect(65530, 0, 3, 4), Some(rect(65533, 0, 2, 4)))
    );
}

#[test]
fn hidden_panes_leave_all_space() {
    let mut list = WorkflowRunsListState::new();
    list.handle_event(Key::Char(' '));
    assert_eq!(list.panes(rect(1, 2, 30, 40)), (rect(1, 2, 30, 40), None));
}

#[test]
fn throbbers_go_round() {
    let symbols: Vec<String> = (0..8).map(throbber_symbol).collect();
    assert_eq!(symbols, vec!["⠈", "⠐", "⠠", "⠄", "⠂", "⠁", "⠈", "⠐"]);
    assert_eq!(throbber_symbol(127), "⠐");
    assert_eq!(throbber_symbol(-1), "⠁");
    for index in -128i8..=127 {
        assert_eq!(throbber_symbol(index), symbols[index.rem_euclid(6) as usize]);
    }
}

#[test]
fn titles_tell_how_loading_goes() {
    let mut list = WorkflowRunsListState::new();
    assert_eq!(list.title_status(), None);
    list.set_loading_state(LoadingState::Loading);
    assert_eq!(list.title_status(), Some("⠈".to_string()));
    list.update_throbber();
    assert_eq!(list.title_status(), Some("⠐".to_string()));
    list.on_err("x".to_string());
    assert_eq!(list.title_status(), Some("Error".to_string()));
    list.set_loading_state(LoadingState::Loaded);
    assert_eq!(list.title_status(), None);
}

#[test]
fn columns_are_as_wide_as_their_texts() {
    let rows = vec![row("yesterday", "main"), row("1s ago", "feature")];
    assert_eq!(
        calculate_column_widths(&table_headers(), &rows),
        vec![Constraint::Length(10), Constraint::Length(8), Constraint::Min(20)]
    );
    assert_eq!(
        checked_column_widths(&table_headers(), &rows),
        Some(vec![Constraint::Length(10), Constraint::Length(8), Constraint::Min(20)])
    );
}

#[test]
fn columns_count_cells_and_branches_have_a_limit() {
    // Six characters that take up two cells each.
    assert_eq!(
        calculate_column_widths(&table_headers(), &vec![row("1s ago", "日本語支店名")])[1],
        Constraint::Length(13)
    );
    let long = "x".repeat(40);
    assert_eq!(
        calculate_column_widths(&table_headers(), &vec![row("1s ago", &long)]),
        vec![Constraint::Length(7), Constraint::Length(26), Constraint::Min(20)]
    );
}

#[test]
fn columns_without_rows_are_as_wide_as_their_headers() {
    assert_eq!(
        calculate_column_widths(&table_headers(), &vec![]),
        vec![Constraint::Length(5), Constraint::Length(7), Constraint::Min(20)]
    );
    let wide = "x".repeat(30);
    assert_eq!(
        calculate_column_widths(&vec!["a", wide.as_str()], &vec![]),
        vec![Constraint::Length(2), Constraint::Length(31), Constraint::Min(20)]
    );
    assert_eq!(
        calculate_column_widths(&vec!["ab"], &vec![]),
        vec![Constraint::Length(3), Constraint::Min(20)]
    );
    assert_eq!(calculate_column_widths(&vec![], &vec![]), vec![Constraint::Min(20)]);
}

#[test]
fn columns_that_do_not_fit_are_told() {
    let wide = "x".repeat(65535);
    assert_eq!(checked_column_widths(&table_headers(), &vec![row(&wide, "b")]), None);
    assert_eq!(checked_column_widths(&vec![wide.as_str()], &vec![]), None);
    // Widths count as numbers of 16 bits.
    let wider = "x".repeat(65536);
    assert_eq!(
        checked_column_widths(&vec![wider.as_str()], &vec![]),
        Some(vec![Constraint::Length(1), Constraint::Min(20)])
    );
}

#[test]
fn the_last_row_that_is_shown_may_be_cut_off() {
    assert_eq!(visible_heights(8, 0, &vec![2, 2, 2, 2]), vec![2, 2, 1, 2]);
    assert_eq!(visible_heights(8, 1, &vec![9, 4, 4]), vec![9, 4, 1]);
    assert_eq!(visible_heights(8, 0, &vec![9, 1]), vec![5, 1]);
    assert_eq!(visible_heights(3, 0, &vec![1, 2]), vec![1, 2]);
    assert_eq!(visible_heights(0, 0, &vec![1]), vec![1]);
    assert_eq!(visible_heights(9, 0, &vec![]), Vec::<u16>::new());
}

#[test]
fn empty_lists_show_a_message() {
    let mut list = WorkflowRunsListState::new();
    let message = |list: &WorkflowRunsListState| match list.table_body(10) {
        TableBody::Message(message) => message,
        TableBody::Rows { .. } => panic!("a table"),
    };
    assert_eq!(message(&list), "No workflow runs found.");
    list.set_loading_state(LoadingState::Loading);
    assert_eq!(message(&list), "Loading workflow runs from GitHub...");
    list.on_err("no net".to_string());
    assert_eq!(message(&list), "no net");
    list.on_load(vec![]);
    assert_eq!(message(&list), "No workflow runs available.");
}

#[test]
fn runs_are_shown_as_a_table() {
    let list = list(vec![run(5, "main", JobsState::NotLoaded), run(4, "dev", JobsState::NotLoaded)]);
    let TableBody::Rows { widths, rows } = list.table_body_at(10, at(NOW)) else {
        panic!("a message");
    };
    assert_eq!(widths, vec![Constraint::Length(10), Constraint::Length(7), Constraint::Min(20)]);
    assert_eq!(rows.len(), 2);
    assert_eq!(rows[0].height, 1);
    assert_eq!(rows[1].row.time, "yesterday");
    assert_eq!(rows[1].row.branch, "dev");
    assert_eq!(
        rows[1].row.details_lines,
        vec![Line::Plain {
            text: "✔ CI - c".to_string(),
            style: Style { fg: Some(Color::Green), bold: false },
        }]
    );
}

#[test]
fn the_table_goes_by_the_system_clock() {
    let list = list(vec![run(5, "main", JobsState::NotLoaded)]);
    let TableBody::Rows { rows, .. } = list.table_body(10) else {
        panic!("a message");
    };
    assert_ne!(rows[0].row.time, "yesterday");
}

#[test]
fn jobs_of_no_run_are_not_shown() {
    let mut list = list(vec![run(5, "main", JobsState::NotLoaded)]);
    let area = rect(10, 0, 30, 20);
    let pane = list.jobs_pane(area);
    assert_eq!(pane.lines, vec![plain("Loading jobs...")]);
    assert_eq!(pane.area, area);
    assert_eq!(pane.log, None);
    list.table_drawn(TablePosition { offset: 0, selected: Some(1) });
    assert_eq!(list.jobs_pane(area).lines, vec![plain("No workflow selected")]);
    list.table_drawn(TablePosition { offset: 0, selected: None });
    assert_eq!(list.jobs_pane_at(area, at(NOW)).lines, vec![plain("No workflow selected")]);
}

#[test]
fn failed_steps_have_a_pane_below_the_jobs() {
    let mut list = list(vec![run(5, "main", JobsState::Loaded(failed_jobs()))]);
    // Three lines and a border take up five rows.
    let pane = list.jobs_pane_at(rect(10, 2, 30, 20), at(NOW));
    assert_eq!(pane.area, rect(10, 2, 30, 5));
    assert_eq!(pane.lines.len(), 3);
    let log = pane.log.unwrap();
    assert_eq!(log.area, rect(10, 7, 30, 15));
    assert_eq!(log.lines[1], plain("Loading failed-step logs..."));
    // Without space for it there is none.
    assert_eq!(list.jobs_pane_at(rect(10, 2, 30, 5), at(NOW)).log, None);
    assert_eq!(list.jobs_pane_at(rect(10, 2, 30, 5), at(NOW)).area, rect(10, 2, 30, 5));
    // One row is enough, and then nothing is cut off.
    let lines: Vec<String> = (0..9).map(|i| format!("line {i}")).collect();
    list.workflow_runs[0].failed_step_log = FailedStepLogState::Loaded(FailedStepLogTail {
        failed_step: FailedStepRef {
            job_id: 70,
            job_name: "build".to_string(),
            step_name: "test".to_string(),
        },
        lines,
    });
    let log = list.jobs_pane_at(rect(0, 0, 30, 6), at(NOW)).log.unwrap();
    assert_eq!(log.area, rect(0, 5, 30, 1));
    assert_eq!(log.lines.len(), 10);
    // As many lines as fit are shown, from the end.
    let log = list.jobs_pane_at(rect(0, 0, 30, 10), at(NOW)).log.unwrap();
    assert_eq!(log.area, rect(0, 5, 30, 5));
    assert_eq!(log.lines, vec![plain("line 6"), plain("line 7"), plain("line 8")]);
}

#[test]
fn panes_of_every_height_are_divided() {
    let list = list(vec![run(5, "main", JobsState::Loaded(failed_jobs()))]);
    for y in [0, 3, 60000] {
        for height in 6..300 {
            let pane = list.jobs_pane_at(rect(0, y, 9, height), at(NOW));
            assert_eq!(pane.area, rect(0, y, 9, 5));
            assert_eq!(pane.log.unwrap().area, rect(0, y + 5, 9, height - 5));
        }
    }
    let pane = list.jobs_pane_at(rect(0, 65533, 9, 40), at(NOW));
    assert_eq!(pane.area, rect(0, 65533, 9, 2));
    assert_eq!(pane.log.unwrap().area, rect(0, 65535, 9, 0));
    let pane = list.jobs_pane_at(rect(0, 65500, 9, 40), at(NOW));
    assert_eq!(pane.area, rect(0, 65500, 9, 5));
    assert_eq!(pane.log.unwrap().area, rect(0, 65505, 9, 30));
}

#[test]
fn keys_are_explained() {
    let white = Style { fg: Some(Color::White), bold: false };
    let none = Style { fg: None, bold: false };
    let Line::Spans(spans) = key_help() else {
        panic!("one style");
    };
    assert_eq!(spans.len(), 8);
    assert_eq!(spans[0], Span { text: "j/k".to_string(), style: white });
    assert_eq!(spans[7], Span { text: " quit".to_string(), style: none });
    let text: String = spans.into_iter().map(|s| s.text).collect();
    assert_eq!(text, "j/k up/down  space toggle job pane  enter open browser  q quit");
}

#[test]
fn rows_of_one_line_are_never_cut_off() {
    let runs = (0..5).map(|id| run(id, "main", JobsState::NotLoaded)).collect();
    let list = list(runs);
    for height in 0..12 {
        let TableBody::Rows { rows, .. } = list.table_body_at(height, at(NOW)) else {
            panic!("a message");
        };
        assert_eq!(rows.len(), 5);
        assert!(rows.iter().all(|r| r.height == 1));
    }
}

#[test]
fn columns_follow_from_widths() {
    let three = |time, branch| {
        vec![Constraint::Length(time), Constraint::Length(branch), Constraint::Min(20)]
    };
    assert_eq!(columns_for(&vec![4, 6], &vec![(9, 3), (2, 7)]), three(10, 8));
    assert_eq!(columns_for(&vec![4, 6], &vec![(3, 40), (2, 7)]), three(5, 26));
    assert_eq!(columns_for(&vec![4, 6], &vec![(3, 25)]), three(5, 26));
    // Headers alone have no limit.
    assert_eq!(columns_for(&vec![4, 30], &vec![]), three(5, 31));
    assert_eq!(columns_for(&vec![4, 30], &vec![(1, 1)]), three(5, 26));
    assert_eq!(columns_for(&vec![4], &vec![]), vec![Constraint::Length(5), Constraint::Min(20)]);
    assert_eq!(columns_for(&vec![], &vec![]), vec![Constraint::Min(20)]);
    assert_eq!(columns_for(&vec![65536, 65534], &vec![]), three(1, 65535));
}
