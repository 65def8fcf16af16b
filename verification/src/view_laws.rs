//! Nothing is left out of what is seen of a value.

use crate::fetched::{fetched_view, FetchedRun};
use crate::keys::{Action, ActionView};
use crate::line::{lines_view, Line, LineView, Span};
use crate::list::{
    job_table_view, log_request_view, LoadingState, LoadingStateView, LogRequest, Requests,
    WorkflowRunsListState,
};
use crate::log_tail::texts;
use crate::repo::GitHubRepo;
use crate::run::{
    jobs_view, runs_view, steps_view, FailedStepLogState, FailedStepLogStateView, FailedStepRef,
    Job, JobsState, JobsStateView, RunRow, Step, WorkflowRun,
};
use crate::screen::{headers_view, rows_view, JobsPane, TableBody, TableBodyView, VisibleRow};
use crate::status::{optional_text, StatusDisplay};
use vstd::prelude::*;

verus! {

/// Steps and jobs are seen with all that they hold, and their lists in order.
pub proof fn jobs_are_seen_whole(step: Step, job: Job, steps: Seq<Step>, jobs: Seq<Job>, i: int)
    ensures
        step@.name == step.name@,
        step@.status == step.status,
        step@.conclusion == step.conclusion,
        step@.started_at == step.started_at,
        step@.completed_at == step.completed_at,
        job@.id == job.id,
        job@.name == job.name@,
        job@.status == job.status,
        job@.conclusion == job.conclusion,
        job@.started_at == job.started_at,
        job@.completed_at == job.completed_at,
        job@.steps == steps_view(job.steps@),
        steps_view(steps).len() == steps.len(),
        0 <= i < steps.len() ==> steps_view(steps)[i] == steps[i]@,
        jobs_view(jobs).len() == jobs.len(),
        0 <= i < jobs.len() ==> jobs_view(jobs)[i] == jobs[i]@,
{
}

/// Runs, fetched or known, are seen with all that they hold, and their lists in order.
pub proof fn runs_are_seen_whole(
    run: WorkflowRun,
    fetched: FetchedRun,
    runs: Seq<WorkflowRun>,
    others: Seq<FetchedRun>,
    i: int,
)
    ensures
        run@.id == run.id,
        run@.name == run.name@,
        run@.commit == run.commit@,
        run@.branch == run.branch@,
        run@.status == run.status@,
        run@.conclusion == optional_text(run.conclusion),
        run@.jobs == run.jobs@,
        run@.failed_step_log == run.failed_step_log@,
        run@.created_at == run.created_at,
        run@.html_url == run.html_url@,
        fetched@.id == fetched.id,
        fetched@.name == fetched.name@,
        fetched@.commit == fetched.commit@,
        fetched@.branch == fetched.branch@,
        fetched@.status == fetched.status@,
        fetched@.conclusion == optional_text(fetched.conclusion),
        fetched@.created_at == fetched.created_at,
        fetched@.html_url == fetched.html_url@,
        runs_view(runs).len() == runs.len(),
        0 <= i < runs.len() ==> runs_view(runs)[i] == runs[i]@,
        fetched_view(others).len() == others.len(),
        0 <= i < others.len() ==> fetched_view(others)[i] == others[i]@,
{
}

/// What is known of jobs and logs is seen as it is.
pub proof fn states_are_seen_whole(
    jobs: Vec<Job>,
    message: String,
    step: FailedStepRef,
    log: FailedStepLogState,
)
    ensures
        JobsState::NotLoaded@ == JobsStateView::NotLoaded,
        JobsState::Loading@ == JobsStateView::Loading,
        JobsState::Loaded(jobs)@ == JobsStateView::Loaded(jobs_view(jobs@)),
        JobsState::Reloading(jobs)@ == JobsStateView::Reloading(jobs_view(jobs@)),
        JobsState::LoadingError(message)@ == JobsStateView::LoadingError(message@),
        step@.job_id == step.job_id,
        step@.job_name == step.job_name@,
        step@.step_name == step.step_name@,
        log is NotAvailable ==> log@ == FailedStepLogStateView::NotAvailable,
        log is NotLoaded ==> log@ == FailedStepLogStateView::NotLoaded,
        log matches FailedStepLogState::Loading(of) ==> log@ == FailedStepLogStateView::Loading(of@),
        log matches FailedStepLogState::Loaded(tail) ==> log@ == FailedStepLogStateView::Loaded(
            tail.failed_step@,
            texts(tail.lines@),
        ),
        log matches FailedStepLogState::LoadingError(of, why) ==> log@
            == FailedStepLogStateView::LoadingError(of@, why@),
{
}

/// Texts are seen as they are, in lists and where there may be none.
pub proof fn texts_are_seen_whole(list: Seq<String>, headers: Seq<&str>, text: String, i: int)
    ensures
        texts(list).len() == list.len(),
        0 <= i < list.len() ==> texts(list)[i] == list[i]@,
        headers_view(headers).len() == headers.len(),
        0 <= i < headers.len() ==> headers_view(headers)[i] == headers[i]@,
        optional_text(Some(text)) == Some(text@),
        optional_text(None) is None,
{
}

/// Lines and rows are seen with all their pieces and styles, in order.
pub proof fn lines_are_seen_whole(
    line: Line,
    span: Span,
    row: RunRow,
    visible: VisibleRow,
    lines: Seq<Line>,
    rows: Seq<RunRow>,
    shown: StatusDisplay,
    i: int,
)
    ensures
        span@.text == span.text@,
        span@.style == span.style,
        line matches Line::Plain { text, style } ==> line@ == (LineView::Plain {
            text: text@,
            style,
        }),
        line matches Line::Spans(spans) ==> (line@ matches LineView::Spans(pieces) && pieces.len()
            == spans@.len() && (0 <= i < spans@.len() ==> pieces[i] == spans@[i]@)),
        row@.time == row.time@,
        row@.branch == row.branch@,
        row@.details_lines == lines_view(row.details_lines@),
        visible@.row == visible.row@,
        visible@.height == visible.height,
        lines_view(lines).len() == lines.len(),
        0 <= i < lines.len() ==> lines_view(lines)[i] == lines[i]@,
        rows_view(rows).len() == rows.len(),
        0 <= i < rows.len() ==> rows_view(rows)[i] == rows[i]@,
        shown@.0 == shown.symbol@,
        shown@.1 == shown.color,
{
}

/// The list is seen with all that it holds.
pub proof fn lists_are_seen_whole(list: WorkflowRunsListState, state: LoadingState, run_id: u64)
    ensures
        list@.runs == runs_view(list.workflow_runs@),
        list@.loading == list.loading_state@,
        list@.table == list.table_state,
        list@.throbber_index == list.throbber_index,
        list@.completed_jobs.contains_key(run_id) == list.completed_workflow_jobs@.contains_key(
            run_id,
        ),
        list.completed_workflow_jobs@.contains_key(run_id) ==> list@.completed_jobs[run_id]
            == jobs_view(list.completed_workflow_jobs@[run_id]@),
        list@.completed_jobs == job_table_view(list.completed_workflow_jobs@),
        list@.data_updated == list.data_updated,
        list@.pane_shown == list.show_job_breakdown_pane,
        state is Idle <==> state@ is Idle,
        state is Loading <==> state@ is Loading,
        state is Loaded <==> state@ is Loaded,
        state matches LoadingState::Error(message) ==> state@ == LoadingStateView::Error(message@),
{
}

/// Requests and actions are seen with all that they ask for.
pub proof fn requests_are_seen_whole(log: LogRequest, requests: Requests, action: Action)
    ensures
        log@.run_id == log.run_id,
        log@.failed_step == log.failed_step@,
        log_request_view(Some(log)) == Some(log@),
        log_request_view(None) is None,
        requests@.jobs == requests.jobs,
        requests@.log == log_request_view(requests.log),
        action is Nothing <==> action@ is Nothing,
        action is Quit <==> action@ is Quit,
        action matches Action::Fetch(r) ==> action@ == ActionView::Fetch(r@),
        action matches Action::Open(url) ==> action@ == ActionView::Open(url@),
{
}

/// Panes and repositories are seen with all that they hold.
pub proof fn panes_are_seen_whole(body: TableBody, pane: JobsPane, repo: GitHubRepo, i: int)
    ensures
        body matches TableBody::Message(message) ==> body@ == TableBodyView::Message(message@),
        body matches TableBody::Rows { widths, rows } ==> (body@ matches TableBodyView::Rows {
            widths: seen,
            rows: lines,
        } && seen == widths@ && lines.len() == rows@.len() && (0 <= i < rows@.len() ==> lines[i]
            == rows@[i]@)),
        pane@.area == pane.area,
        pane@.lines == lines_view(pane.lines@),
        pane@.log is Some <==> pane.log is Some,
        pane.log matches Some(log) ==> pane@.log->0.area == log.area && pane@.log->0.lines
            == lines_view(log.lines@),
        repo@.owner == repo.owner@,
        repo@.name == repo.name@,
{
}

} // verus!
