//! Workflow runs, with their jobs and steps, and the lines that show them.

use crate::line::{
    lemma_lines_view_push, lines_view, one_line, plain_line, title_line, Line, LineView, Span,
    SpanView, Style,
};
use crate::log_tail::texts;
use crate::status::{
    get_job_status_symbol, get_run_status_symbol, job_status_symbol, optional_text,
    run_status_symbol, Color, Conclusion, Status, StatusDisplay,
};
use crate::text::{decimal, decimal_text, joined};
use crate::time::{
    duration_words, format_duration, format_relative_time_at, is_clock_time, relative_time,
    utc_now, Timestamp,
};
use vstd::prelude::*;

verus! {

/// A step of a job.
#[derive(Debug, PartialEq, Eq)]
pub struct Step {
    pub name: String,
    pub status: Status,
    pub conclusion: Option<Conclusion>,
    pub started_at: Option<Timestamp>,
    pub completed_at: Option<Timestamp>,
}

/// A job of a run.
#[derive(Debug, PartialEq, Eq)]
pub struct Job {
    pub id: u64,
    pub name: String,
    pub status: Status,
    pub conclusion: Option<Conclusion>,
    pub started_at: Timestamp,
    pub completed_at: Option<Timestamp>,
    pub steps: Vec<Step>,
}

/// What is known of the jobs of a run. `Reloading` holds the jobs known so far.
#[derive(Debug, PartialEq, Eq)]
pub enum JobsState {
    NotLoaded,
    Loading,
    Loaded(Vec<Job>),
    Reloading(Vec<Job>),
    LoadingError(String),
}

/// A step that has failed, by its name and by the job that it belongs to.
#[derive(Debug, PartialEq, Eq)]
pub struct FailedStepRef {
    pub job_id: u64,
    pub job_name: String,
    pub step_name: String,
}

/// The end of the log of a failed step.
#[derive(Debug, PartialEq, Eq)]
pub struct FailedStepLogTail {
    pub failed_step: FailedStepRef,
    pub lines: Vec<String>,
}

/// What is known of the log of the first failed step of a run.
#[derive(Debug, PartialEq, Eq)]
pub enum FailedStepLogState {
    NotAvailable,
    NotLoaded,
    Loading(FailedStepRef),
    Loaded(FailedStepLogTail),
    LoadingError(FailedStepRef, String),
}

/// A run of a workflow.
#[derive(Debug, PartialEq, Eq)]
pub struct WorkflowRun {
    pub id: u64,
    pub name: String,
    pub commit: String,
    pub branch: String,
    pub status: String,
    pub conclusion: Option<String>,
    pub jobs: JobsState,
    pub failed_step_log: FailedStepLogState,
    pub created_at: Timestamp,
    pub html_url: String,
}

/// What a `Step` holds.
pub struct StepView {
    pub name: Seq<char>,
    pub status: Status,
    pub conclusion: Option<Conclusion>,
    pub started_at: Option<Timestamp>,
    pub completed_at: Option<Timestamp>,
}

/// What a `Job` holds.
pub struct JobView {
    pub id: u64,
    pub name: Seq<char>,
    pub status: Status,
    pub conclusion: Option<Conclusion>,
    pub started_at: Timestamp,
    pub completed_at: Option<Timestamp>,
    pub steps: Seq<StepView>,
}

/// What a `JobsState` holds.
pub enum JobsStateView {
    NotLoaded,
    Loading,
    Loaded(Seq<JobView>),
    Reloading(Seq<JobView>),
    LoadingError(Seq<char>),
}

/// What a `FailedStepRef` holds.
pub struct FailedStepRefView {
    pub job_id: u64,
    pub job_name: Seq<char>,
    pub step_name: Seq<char>,
}

/// What a `FailedStepLogState` holds.
pub enum FailedStepLogStateView {
    NotAvailable,
    NotLoaded,
    Loading(FailedStepRefView),
    Loaded(FailedStepRefView, Seq<Seq<char>>),
    LoadingError(FailedStepRefView, Seq<char>),
}

/// What a `WorkflowRun` holds.
pub struct WorkflowRunView {
    pub id: u64,
    pub name: Seq<char>,
    pub commit: Seq<char>,
    pub branch: Seq<char>,
    pub status: Seq<char>,
    pub conclusion: Option<Seq<char>>,
    pub jobs: JobsStateView,
    pub failed_step_log: FailedStepLogStateView,
    pub created_at: Timestamp,
    pub html_url: Seq<char>,
}

impl View for Step {
    type V = StepView;

    open spec fn view(&self) -> StepView {
        StepView {
            name: self.name@,
            status: self.status,
            conclusion: self.conclusion,
            started_at: self.started_at,
            completed_at: self.completed_at,
        }
    }
}

/// What a list of steps holds.
pub open spec fn steps_view(steps: Seq<Step>) -> Seq<StepView> {
    steps.map_values(|s: Step| s@)
}

impl View for Job {
    type V = JobView;

    open spec fn view(&self) -> JobView {
        JobView {
            id: self.id,
            name: self.name@,
            status: self.status,
            conclusion: self.conclusion,
            started_at: self.started_at,
            completed_at: self.completed_at,
            steps: steps_view(self.steps@),
        }
    }
}

/// What a list of jobs holds.
pub open spec fn jobs_view(jobs: Seq<Job>) -> Seq<JobView> {
    jobs.map_values(|j: Job| j@)
}

impl View for JobsState {
    type V = JobsStateView;

    open spec fn view(&self) -> JobsStateView {
        match self {
            JobsState::NotLoaded => JobsStateView::NotLoaded,
            JobsState::Loading => JobsStateView::Loading,
            JobsState::Loaded(jobs) => JobsStateView::Loaded(jobs_view(jobs@)),
            JobsState::Reloading(jobs) => JobsStateView::Reloading(jobs_view(jobs@)),
            JobsState::LoadingError(message) => JobsStateView::LoadingError(message@),
        }
    }
}

impl View for FailedStepRef {
    type V = FailedStepRefView;

    open spec fn view(&self) -> FailedStepRefView {
        FailedStepRefView {
            job_id: self.job_id,
            job_name: self.job_name@,
            step_name: self.step_name@,
        }
    }
}

impl View for FailedStepLogState {
    type V = FailedStepLogStateView;

    open spec fn view(&self) -> FailedStepLogStateView {
        match self {
            FailedStepLogState::NotAvailable => FailedStepLogStateView::NotAvailable,
            FailedStepLogState::NotLoaded => FailedStepLogStateView::NotLoaded,
            FailedStepLogState::Loading(step) => FailedStepLogStateView::Loading(step@),
            FailedStepLogState::Loaded(tail) => FailedStepLogStateView::Loaded(
                tail.failed_step@,
                texts(tail.lines@),
            ),
            FailedStepLogState::LoadingError(step, message) => FailedStepLogStateView::LoadingError(
                step@,
                message@,
            ),
        }
    }
}

impl View for WorkflowRun {
    type V = WorkflowRunView;

    open spec fn view(&self) -> WorkflowRunView {
        WorkflowRunView {
            id: self.id,
            name: self.name@,
            commit: self.commit@,
            branch: self.branch@,
            status: self.status@,
            conclusion: optional_text(self.conclusion),
            jobs: self.jobs@,
            failed_step_log: self.failed_step_log@,
            created_at: self.created_at,
            html_url: self.html_url@,
        }
    }
}

/// What a list of runs holds.
pub open spec fn runs_view(runs: Seq<WorkflowRun>) -> Seq<WorkflowRunView> {
    runs.map_values(|r: WorkflowRun| r@)
}

impl Clone for Step {
    fn clone(&self) -> (r: Self)
        ensures
            r@ == self@,
    {
        Step {
            name: self.name.clone(),
            status: self.status,
            conclusion: self.conclusion,
            started_at: self.started_at,
            completed_at: self.completed_at,
        }
    }
}

impl Clone for Job {
    fn clone(&self) -> (r: Self)
        ensures
            r@ == self@,
    {
        let mut steps: Vec<Step> = Vec::new();
        let mut i: usize = 0;
        while i < self.steps.len()
            invariant
                i <= self.steps.len(),
                steps_view(steps@) == steps_view(self.steps@).take(i as int),
            decreases self.steps.len() - i,
        {
            let ghost before = steps@;
            steps.push(self.steps[i].clone());
            assert(steps_view(steps@) =~= steps_view(before).push(self.steps@[i as int]@));
            i = i + 1;
            assert(steps_view(steps@) =~= steps_view(self.steps@).take(i as int));
        }
        assert(steps_view(steps@) =~= steps_view(self.steps@));
        Job {
            id: self.id,
            name: self.name.clone(),
            status: self.status,
            conclusion: self.conclusion,
            started_at: self.started_at,
            completed_at: self.completed_at,
            steps,
        }
    }
}

/// Copies a list of jobs.
pub fn copy_jobs(jobs: &Vec<Job>) -> (r: Vec<Job>)
    ensures
        jobs_view(r@) == jobs_view(jobs@),
{
    let mut r: Vec<Job> = Vec::new();
    let mut i: usize = 0;
    while i < jobs.len()
        invariant
            i <= jobs.len(),
            jobs_view(r@) == jobs_view(jobs@).take(i as int),
        decreases jobs.len() - i,
    {
        let ghost before = r@;
        r.push(jobs[i].clone());
        assert(jobs_view(r@) =~= jobs_view(before).push(jobs@[i as int]@));
        i = i + 1;
        assert(jobs_view(r@) =~= jobs_view(jobs@).take(i as int));
    }
    assert(jobs_view(r@) =~= jobs_view(jobs@));
    r
}

impl Clone for JobsState {
    fn clone(&self) -> (r: Self)
        ensures
            r@ == self@,
    {
        match self {
            JobsState::NotLoaded => JobsState::NotLoaded,
            JobsState::Loading => JobsState::Loading,
            JobsState::Loaded(jobs) => JobsState::Loaded(copy_jobs(jobs)),
            JobsState::Reloading(jobs) => JobsState::Reloading(copy_jobs(jobs)),
            JobsState::LoadingError(message) => JobsState::LoadingError(message.clone()),
        }
    }
}

impl Clone for FailedStepRef {
    fn clone(&self) -> (r: Self)
        ensures
            r@ == self@,
    {
        FailedStepRef {
            job_id: self.job_id,
            job_name: self.job_name.clone(),
            step_name: self.step_name.clone(),
        }
    }
}

impl FailedStepRef {
    /// Whether two references lead to the same step.
    pub fn same_as(&self, other: &FailedStepRef) -> (r: bool)
        ensures
            r == (self@ == other@),
    {
        self.job_id == other.job_id && self.job_name == other.job_name && self.step_name
            == other.step_name
    }
}

fn copy_texts(list: &Vec<String>) -> (r: Vec<String>)
    ensures
        texts(r@) == texts(list@),
{
    let mut r: Vec<String> = Vec::new();
    let mut i: usize = 0;
    while i < list.len()
        invariant
            i <= list.len(),
            texts(r@) == texts(list@).take(i as int),
        decreases list.len() - i,
    {
        let ghost before = r@;
        r.push(list[i].clone());
        assert(texts(r@) =~= texts(before).push(list@[i as int]@));
        i = i + 1;
        assert(texts(r@) =~= texts(list@).take(i as int));
    }
    assert(texts(r@) =~= texts(list@));
    r
}

impl Clone for FailedStepLogTail {
    fn clone(&self) -> (r: Self)
        ensures
            r.failed_step@ == self.failed_step@,
            texts(r.lines@) == texts(self.lines@),
    {
        FailedStepLogTail {
            failed_step: self.failed_step.clone(),
            lines: copy_texts(&self.lines),
        }
    }
}

impl Clone for FailedStepLogState {
    fn clone(&self) -> (r: Self)
        ensures
            r@ == self@,
    {
        match self {
            FailedStepLogState::NotAvailable => FailedStepLogState::NotAvailable,
            FailedStepLogState::NotLoaded => FailedStepLogState::NotLoaded,
            FailedStepLogState::Loading(step) => FailedStepLogState::Loading(step.clone()),
            FailedStepLogState::Loaded(tail) => FailedStepLogState::Loaded(tail.clone()),
            FailedStepLogState::LoadingError(step, message) => FailedStepLogState::LoadingError(
                step.clone(),
                message.clone(),
            ),
        }
    }
}

impl Clone for WorkflowRun {
    fn clone(&self) -> (r: Self)
        ensures
            r@ == self@,
    {
        WorkflowRun {
            id: self.id,
            name: self.name.clone(),
            commit: self.commit.clone(),
            branch: self.branch.clone(),
            status: self.status.clone(),
            conclusion: match &self.conclusion {
                Some(conclusion) => Some(conclusion.clone()),
                None => None,
            },
            jobs: self.jobs.clone(),
            failed_step_log: self.failed_step_log.clone(),
            created_at: self.created_at,
            html_url: self.html_url.clone(),
        }
    }
}

/// A step ended so that its log is of interest.
pub open spec fn is_failed(conclusion: Option<Conclusion>) -> bool {
    ||| conclusion == Some(Conclusion::Failure)
    ||| conclusion == Some(Conclusion::TimedOut)
    ||| conclusion == Some(Conclusion::ActionRequired)
}

/// The index of the first failed step, from `from` on.
pub open spec fn first_failed_index(steps: Seq<StepView>, from: int) -> Option<int>
    decreases steps.len() - from,
{
    if from < 0 || from >= steps.len() {
        None
    } else if is_failed(steps[from].conclusion) {
        Some(from)
    } else {
        first_failed_index(steps, from + 1)
    }
}

/// The first failed step of the first job, from `from` on, that has one.
pub open spec fn first_failed_from(jobs: Seq<JobView>, from: int) -> Option<FailedStepRefView>
    decreases jobs.len() - from,
{
    if from < 0 || from >= jobs.len() {
        None
    } else {
        match first_failed_index(jobs[from].steps, 0) {
            Some(i) => Some(
                FailedStepRefView {
                    job_id: jobs[from].id,
                    job_name: jobs[from].name,
                    step_name: jobs[from].steps[i].name,
                },
            ),
            None => first_failed_from(jobs, from + 1),
        }
    }
}

impl JobsStateView {
    /// The jobs that are known, if any are.
    pub open spec fn known(self) -> Option<Seq<JobView>> {
        match self {
            JobsStateView::Loaded(jobs) | JobsStateView::Reloading(jobs) => Some(jobs),
            _ => None,
        }
    }
}

impl WorkflowRunView {
    /// The first failed step of the run, as far as its jobs are known.
    pub open spec fn first_failed_step(self) -> Option<FailedStepRefView> {
        match self.jobs.known() {
            Some(jobs) => first_failed_from(jobs, 0),
            None => None,
        }
    }
}

/// How long a job has run: until now, where it is still running.
pub open spec fn job_time(job: JobView, now: Timestamp) -> Seq<char> {
    if job.status == Status::InProgress {
        duration_words(job.started_at, now)
    } else {
        match job.completed_at {
            Some(completed) => duration_words(job.started_at, completed),
            None => seq![],
        }
    }
}

/// How long a step has run: until now, where it is still running.
pub open spec fn step_time(step: StepView, now: Timestamp) -> Seq<char> {
    match step.started_at {
        None => seq![],
        Some(started) => if step.status == Status::InProgress {
            duration_words(started, now)
        } else {
            match step.completed_at {
                Some(completed) => duration_words(started, completed),
                None => seq![],
            }
        },
    }
}

/// A line of the job tree: the branches in grey, then the text in a colour, then the suffix in grey.
pub open spec fn tree_line(
    prefix: Seq<char>,
    text: Seq<char>,
    suffix: Seq<char>,
    color: Color,
) -> LineView {
    LineView::Spans(
        seq![
            SpanView { text: prefix, style: Style::in_color(Color::DarkGray) },
            SpanView { text, style: Style::in_color(color) },
            SpanView { text: " "@ + suffix, style: Style::in_color(Color::DarkGray) },
        ],
    )
}

/// The line of a job. The branch of the last one leads no further.
pub open spec fn job_tree_line(job: JobView, last: bool, now: Timestamp) -> LineView {
    let (symbol, color) = job_status_symbol(job.status, job.conclusion);
    tree_line(
        if last {
            "└─ "@
        } else {
            "├─ "@
        },
        symbol + " "@ + job.name,
        job_time(job, now),
        color,
    )
}

/// The line of a step, below that of its job.
pub open spec fn step_tree_line(
    step: StepView,
    last_job: bool,
    last_step: bool,
    now: Timestamp,
) -> LineView {
    let (symbol, color) = job_status_symbol(step.status, step.conclusion);
    tree_line(
        if last_job {
            if last_step {
                "   └─ "@
            } else {
                "   ├─ "@
            }
        } else if last_step {
            "│  └─ "@
        } else {
            "│  ├─ "@
        },
        symbol + " "@ + step.name,
        step_time(step, now),
        color,
    )
}

/// The lines of the steps of a job.
pub open spec fn step_tree(job: JobView, last_job: bool, now: Timestamp) -> Seq<LineView> {
    Seq::new(
        job.steps.len(),
        |k: int| step_tree_line(job.steps[k], last_job, k == job.steps.len() - 1, now),
    )
}

/// The lines of the first `n` jobs and their steps.
pub open spec fn job_tree(jobs: Seq<JobView>, n: int, now: Timestamp) -> Seq<LineView>
    decreases n,
{
    if n <= 0 {
        seq![]
    } else {
        let last = n == jobs.len();
        job_tree(jobs, n - 1, now).push(job_tree_line(jobs[n - 1], last, now)) + step_tree(
            jobs[n - 1],
            last,
            now,
        )
    }
}

impl WorkflowRunView {
    /// The lines that show the jobs of the run: what is being waited for, or the run with its jobs
    /// and their steps as a tree.
    pub open spec fn breakdown(self, now: Timestamp) -> Seq<LineView> {
        match self.jobs {
            JobsStateView::NotLoaded => seq![plain_line("Loading not started"@)],
            JobsStateView::Loading => seq![plain_line("Loading jobs..."@)],
            JobsStateView::LoadingError(message) => seq![
                plain_line("Error loading jobs: "@ + message),
            ],
            JobsStateView::Loaded(jobs) | JobsStateView::Reloading(jobs) => if jobs.len() == 0 {
                seq![plain_line("No jobs in this run"@)]
            } else {
                seq![title_line(self.name + " ("@ + decimal(self.id as nat) + ")"@)] + job_tree(
                    jobs,
                    jobs.len() as int,
                    now,
                )
            },
        }
    }

    /// The lines that show the log of the failed step.
    pub open spec fn failed_log(self) -> Seq<LineView> {
        match self.failed_step_log {
            FailedStepLogStateView::NotAvailable => seq![
                plain_line("No failed step in selected run"@),
            ],
            FailedStepLogStateView::NotLoaded => seq![plain_line("Log tail not loaded"@)],
            FailedStepLogStateView::Loading(step) => seq![
                failed_step_title(step),
                plain_line("Loading failed-step logs..."@),
            ],
            FailedStepLogStateView::LoadingError(step, message) => seq![
                failed_step_title(step),
                plain_line("Error loading logs: "@ + message),
            ],
            FailedStepLogStateView::Loaded(step, lines) => if lines.len() == 0 {
                seq![failed_step_title(step), plain_line("No log lines found for failed step"@)]
            } else {
                seq![failed_step_title(step)] + lines.map_values(|l: Seq<char>| plain_line(l))
            },
        }
    }
}

/// The title above the log of a failed step.
pub open spec fn failed_step_title(step: FailedStepRefView) -> LineView {
    title_line(step.job_name + " / "@ + step.step_name)
}

/// A row of the table of runs.
#[derive(Debug, PartialEq, Eq)]
pub struct RunRow {
    pub time: String,
    pub branch: String,
    pub details_lines: Vec<Line>,
}

/// What a `RunRow` shows.
pub struct RunRowView {
    pub time: Seq<char>,
    pub branch: Seq<char>,
    pub details_lines: Seq<LineView>,
}

impl View for RunRow {
    type V = RunRowView;

    open spec fn view(&self) -> RunRowView {
        RunRowView {
            time: self.time@,
            branch: self.branch@,
            details_lines: lines_view(self.details_lines@),
        }
    }
}

impl WorkflowRunView {
    /// The row of the run: its age, its branch, and one line with its symbol, name and commit.
    pub open spec fn row(self, now: Timestamp) -> RunRowView {
        let (symbol, color) = run_status_symbol(self.status, self.conclusion);
        RunRowView {
            time: relative_time(now, self.created_at),
            branch: self.branch,
            details_lines: seq![
                LineView::Plain {
                    text: symbol + " "@ + self.name + " - "@ + self.commit,
                    style: Style::in_color(color),
                },
            ],
        }
    }
}

fn is_failed_conclusion(conclusion: &Option<Conclusion>) -> (r: bool)
    ensures
        r == is_failed(*conclusion),
{
    match conclusion {
        Some(Conclusion::Failure) => true,
        Some(Conclusion::TimedOut) => true,
        Some(Conclusion::ActionRequired) => true,
        _ => false,
    }
}

fn find_failed_step(steps: &Vec<Step>) -> (r: Option<usize>)
    ensures
        match r {
            Some(i) => i < steps.len() && first_failed_index(steps_view(steps@), 0) == Some(
                i as int,
            ),
            None => first_failed_index(steps_view(steps@), 0) is None,
        },
{
    let ghost view = steps_view(steps@);
    let mut i: usize = 0;
    while i < steps.len()
        invariant
            i <= steps.len(),
            view == steps_view(steps@),
            first_failed_index(view, 0) == first_failed_index(view, i as int),
        decreases steps.len() - i,
    {
        if is_failed_conclusion(&steps[i].conclusion) {
            return Some(i);
        }
        i = i + 1;
    }
    None
}

fn find_failed_job(jobs: &Vec<Job>) -> (r: Option<FailedStepRef>)
    ensures
        match r {
            Some(step) => first_failed_from(jobs_view(jobs@), 0) == Some(step@),
            None => first_failed_from(jobs_view(jobs@), 0) is None,
        },
{
    let ghost view = jobs_view(jobs@);
    let mut i: usize = 0;
    while i < jobs.len()
        invariant
            i <= jobs.len(),
            view == jobs_view(jobs@),
            first_failed_from(view, 0) == first_failed_from(view, i as int),
        decreases jobs.len() - i,
    {
        let job: &Job = &jobs[i];
        if let Some(k) = find_failed_step(&job.steps) {
            return Some(
                FailedStepRef {
                    job_id: job.id,
                    job_name: job.name.clone(),
                    step_name: job.steps[k].name.clone(),
                },
            );
        }
        i = i + 1;
    }
    None
}

fn three_texts(a: &str, b: &str, c: &str) -> (r: String)
    ensures
        r@ == a@ + b@ + c@,
{
    let front: String = joined(a, b);
    joined(front.as_str(), c)
}

fn failed_step_line(step: &FailedStepRef) -> (r: Line)
    ensures
        r@ == failed_step_title(step@),
{
    Line::title(three_texts(step.job_name.as_str(), " / ", step.step_name.as_str()))
}

fn two_lines(a: Line, b: Line) -> (r: Vec<Line>)
    ensures
        lines_view(r@) == seq![a@, b@],
{
    let mut r: Vec<Line> = one_line(a);
    proof {
        lemma_lines_view_push(r@, b);
    }
    r.push(b);
    assert(seq![a@].push(b@) =~= seq![a@, b@]);
    r
}

fn job_duration(job: &Job, now: Timestamp) -> (r: String)
    ensures
        r@ == job_time(job@, now),
{
    match job.status {
        Status::InProgress => format_duration(job.started_at, now),
        _ => match job.completed_at {
            Some(completed) => format_duration(job.started_at, completed),
            None => String::new(),
        },
    }
}

fn step_duration(step: &Step, now: Timestamp) -> (r: String)
    ensures
        r@ == step_time(step@, now),
{
    match (step.status, step.started_at, step.completed_at) {
        (Status::InProgress, Some(started), _) => format_duration(started, now),
        (_, Some(started), Some(completed)) => format_duration(started, completed),
        _ => String::new(),
    }
}

fn job_tree_text(job: &Job, last: bool, now: Timestamp) -> (r: Line)
    ensures
        r@ == job_tree_line(job@, last, now),
{
    let prefix: &str = if last {
        "└─ "
    } else {
        "├─ "
    };
    let status: StatusDisplay = get_job_status_symbol(&job.status, &job.conclusion);
    WorkflowRun::job_line(
        prefix.to_owned(),
        three_texts(status.symbol, " ", job.name.as_str()),
        job_duration(job, now),
        status.color,
    )
}

fn step_tree_text(step: &Step, last_job: bool, last_step: bool, now: Timestamp) -> (r: Line)
    ensures
        r@ == step_tree_line(step@, last_job, last_step, now),
{
    let prefix: &str = if last_job {
        if last_step {
            "   └─ "
        } else {
            "   ├─ "
        }
    } else if last_step {
        "│  └─ "
    } else {
        "│  ├─ "
    };
    let status: StatusDisplay = get_job_status_symbol(&step.status, &step.conclusion);
    WorkflowRun::job_line(
        prefix.to_owned(),
        three_texts(status.symbol, " ", step.name.as_str()),
        step_duration(step, now),
        status.color,
    )
}

fn push_job_tree(lines: &mut Vec<Line>, job: &Job, last: bool, now: Timestamp)
    ensures
        lines_view(final(lines)@) == lines_view(old(lines)@).push(job_tree_line(job@, last, now))
            + step_tree(job@, last, now),
{
    let ghost start = lines_view(lines@).push(job_tree_line(job@, last, now));
    let job_text: Line = job_tree_text(job, last, now);
    proof {
        lemma_lines_view_push(lines@, job_text);
    }
    lines.push(job_text);
    let ghost whole = step_tree(job@, last, now);
    assert(start + whole.take(0) =~= start);
    let mut k: usize = 0;
    while k < job.steps.len()
        invariant
            k <= job.steps.len(),
            whole == step_tree(job@, last, now),
            lines_view(lines@) == start + whole.take(k as int),
        decreases job.steps.len() - k,
    {
        let step: Line = step_tree_text(&job.steps[k], last, k == job.steps.len() - 1, now);
        proof {
            lemma_lines_view_push(lines@, step);
            assert(step@ == whole[k as int]);
            assert(start + whole.take(k + 1) =~= (start + whole.take(k as int)).push(
                whole[k as int],
            ));
        }
        lines.push(step);
        k = k + 1;
    }
    assert(whole.take(k as int) =~= whole);
}

impl WorkflowRun {
    /// The row that shows the run in the table.
    pub fn to_row_at(&self, now: Timestamp) -> (r: RunRow)
        ensures
            r@ == self@.row(now),
            r.details_lines.len() == 1,
    {
        let status: StatusDisplay = get_run_status_symbol(self.status.as_str(), &self.conclusion);
        let symbol_and_name: String = three_texts(status.symbol, " ", self.name.as_str());
        let text: String = three_texts(symbol_and_name.as_str(), " - ", self.commit.as_str());
        let details: Line = Line::Plain {
            text,
            style: Style { fg: Some(status.color), bold: false },
        };
        let details_lines: Vec<Line> = one_line(details);
        assert(lines_view(details_lines@) =~= self@.row(now).details_lines);
        assert(lines_view(details_lines@).len() == 1);
        RunRow {
            time: format_relative_time_at(now, self.created_at),
            branch: self.branch.clone(),
            details_lines,
        }
    }

    /// The row that shows the run in the table, at the time of the system clock.
    pub fn to_row(&self) -> (r: RunRow)
        ensures
            exists|now: Timestamp|
                is_clock_time(now) && r@ == #[trigger] self@.row(now),
    {
        let now: Timestamp = utc_now();
        self.to_row_at(now)
    }

    /// The lines that show the jobs of the run.
    pub fn job_breakdown_lines_at(&self, now: Timestamp) -> (r: Vec<Line>)
        ensures
            lines_view(r@) == self@.breakdown(now),
    {
        match &self.jobs {
            JobsState::NotLoaded => one_line(Line::plain("Loading not started".to_owned())),
            JobsState::Loading => one_line(Line::plain("Loading jobs...".to_owned())),
            JobsState::LoadingError(message) => one_line(
                Line::plain(joined("Error loading jobs: ", message.as_str())),
            ),
            JobsState::Loaded(jobs) => self.known_jobs_lines(jobs, now),
            JobsState::Reloading(jobs) => self.known_jobs_lines(jobs, now),
        }
    }

    fn known_jobs_lines(&self, jobs: &Vec<Job>, now: Timestamp) -> (r: Vec<Line>)
        ensures
            jobs.len() == 0 ==> lines_view(r@) == seq![plain_line("No jobs in this run"@)],
            jobs.len() > 0 ==> lines_view(r@) == seq![
                title_line(self.name@ + " ("@ + decimal(self.id as nat) + ")"@),
            ] + job_tree(jobs_view(jobs@), jobs@.len() as int, now),
    {
        if jobs.is_empty() {
            return one_line(Line::plain("No jobs in this run".to_owned()));
        }
        let name_and_id: String = three_texts(
            self.name.as_str(),
            " (",
            decimal_text(self.id).as_str(),
        );
        let title: Line = Line::title(joined(name_and_id.as_str(), ")"));
        let ghost head = seq![title@];
        let ghost view = jobs_view(jobs@);
        let mut lines: Vec<Line> = one_line(title);
        assert(head + job_tree(view, 0, now) =~= head);
        let mut i: usize = 0;
        while i < jobs.len()
            invariant
                i <= jobs.len(),
                view == jobs_view(jobs@),
                lines_view(lines@) == head + job_tree(view, i as int, now),
            decreases jobs.len() - i,
        {
            let last: bool = i == jobs.len() - 1;
            push_job_tree(&mut lines, &jobs[i], last, now);
            assert(view[i as int] == jobs@[i as int]@);
            i = i + 1;
            assert(lines_view(lines@) =~= head + job_tree(view, i as int, now));
        }
        lines
    }

    /// The lines that show the jobs of the run, at the time of the system clock.
    pub fn job_breakdown_lines(&self) -> (r: Vec<Line>)
        ensures
            exists|now: Timestamp|
                is_clock_time(now) && lines_view(r@) == #[trigger] self@.breakdown(now),
    {
        let now: Timestamp = utc_now();
        self.job_breakdown_lines_at(now)
    }

    /// Whether a step of the run is known to have failed.
    pub fn has_failed_step(&self) -> (r: bool)
        ensures
            r == self@.first_failed_step() is Some,
    {
        self.first_failed_step().is_some()
    }

    /// The first step of the run that is known to have failed.
    pub fn first_failed_step(&self) -> (r: Option<FailedStepRef>)
        ensures
            match r {
                Some(step) => self@.first_failed_step() == Some(step@),
                None => self@.first_failed_step() is None,
            },
    {
        match &self.jobs {
            JobsState::Loaded(jobs) => find_failed_job(jobs),
            JobsState::Reloading(jobs) => find_failed_job(jobs),
            _ => None,
        }
    }

    /// The lines that show the log of the failed step.
    pub fn failed_step_log_lines(&self) -> (r: Vec<Line>)
        ensures
            lines_view(r@) == self@.failed_log(),
    {
        match &self.failed_step_log {
            FailedStepLogState::NotAvailable => one_line(
                Line::plain("No failed step in selected run".to_owned()),
            ),
            FailedStepLogState::NotLoaded => one_line(
                Line::plain("Log tail not loaded".to_owned()),
            ),
            FailedStepLogState::Loading(step) => two_lines(
                failed_step_line(step),
                Line::plain("Loading failed-step logs...".to_owned()),
            ),
            FailedStepLogState::LoadingError(step, message) => two_lines(
                failed_step_line(step),
                Line::plain(joined("Error loading logs: ", message.as_str())),
            ),
            FailedStepLogState::Loaded(tail) => {
                let title: Line = failed_step_line(&tail.failed_step);
                if tail.lines.is_empty() {
                    return two_lines(
                        title,
                        Line::plain("No log lines found for failed step".to_owned()),
                    );
                }
                let ghost head = seq![title@];
                let ghost whole = texts(tail.lines@).map_values(|l: Seq<char>| plain_line(l));
                let mut lines: Vec<Line> = one_line(title);
                assert(head + whole.take(0) =~= head);
                let mut i: usize = 0;
                while i < tail.lines.len()
                    invariant
                        i <= tail.lines.len(),
                        whole == texts(tail.lines@).map_values(|l: Seq<char>| plain_line(l)),
                        lines_view(lines@) == head + whole.take(i as int),
                    decreases tail.lines.len() - i,
                {
                    let line: Line = Line::plain(tail.lines[i].clone());
                    proof {
                        lemma_lines_view_push(lines@, line);
                        assert(head + whole.take(i + 1) =~= (head + whole.take(i as int)).push(
                            whole[i as int],
                        ));
                    }
                    lines.push(line);
                    i = i + 1;
                }
                assert(whole.take(i as int) =~= whole);
                lines
            },
        }
    }

    /// A line of the job tree: the branches in grey, then the text in a colour, then a space and the
    /// suffix in grey.
    pub fn job_line(prefix: String, text: String, suffix: String, color: Color) -> (r: Line)
        ensures
            r@ == tree_line(prefix@, text@, suffix@, color),
    {
        let grey: Style = Style { fg: Some(Color::DarkGray), bold: false };
        let mut spans: Vec<Span> = Vec::new();
        spans.push(Span { text: prefix, style: grey });
        spans.push(Span { text, style: Style { fg: Some(color), bold: false } });
        spans.push(Span { text: joined(" ", suffix.as_str()), style: grey });
        assert(spans@.map_values(|s: Span| s@) =~= seq![
            SpanView { text: prefix@, style: Style::in_color(Color::DarkGray) },
            SpanView { text: text@, style: Style::in_color(color) },
            SpanView { text: " "@ + suffix@, style: Style::in_color(Color::DarkGray) },
        ]);
        Line::Spans(spans)
    }
}

} // verus!
