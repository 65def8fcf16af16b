//! The list of runs: what is known of them, what is being loaded, and what is to be loaded next.

use crate::log_tail::texts;
use crate::run::{
    copy_jobs, jobs_view, runs_view, FailedStepLogState, FailedStepLogStateView, FailedStepLogTail,
    FailedStepRef, FailedStepRefView, Job, JobView, JobsState, JobsStateView, WorkflowRun,
    WorkflowRunView,
};
use crate::table::TablePosition;
use crate::text::same_text;
use std::collections::HashMap;
use vstd::prelude::*;

verus! {

/// How loading the runs is going.
#[derive(Debug, PartialEq, Eq)]
pub enum LoadingState {
    Idle,
    Loading,
    Loaded,
    Error(String),
}

/// What a `LoadingState` holds.
pub enum LoadingStateView {
    Idle,
    Loading,
    Loaded,
    Error(Seq<char>),
}

impl View for LoadingState {
    type V = LoadingStateView;

    open spec fn view(&self) -> LoadingStateView {
        match self {
            LoadingState::Idle => LoadingStateView::Idle,
            LoadingState::Loading => LoadingStateView::Loading,
            LoadingState::Loaded => LoadingStateView::Loaded,
            LoadingState::Error(message) => LoadingStateView::Error(message@),
        }
    }
}

impl Clone for LoadingState {
    fn clone(&self) -> (r: Self)
        ensures
            r@ == self@,
    {
        match self {
            LoadingState::Idle => LoadingState::Idle,
            LoadingState::Loading => LoadingState::Loading,
            LoadingState::Loaded => LoadingState::Loaded,
            LoadingState::Error(message) => LoadingState::Error(message.clone()),
        }
    }
}

impl Default for LoadingState {
    fn default() -> (r: Self)
        ensures
            r@ == LoadingStateView::Idle,
    {
        LoadingState::Idle
    }
}

/// The list of runs, and everything that is shown with it.
#[derive(Debug)]
pub struct WorkflowRunsListState {
    pub workflow_runs: Vec<WorkflowRun>,
    pub loading_state: LoadingState,
    pub table_state: TablePosition,
    pub throbber_index: i8,
    pub completed_workflow_jobs: HashMap<u64, Vec<Job>>,
    pub data_updated: bool,
    pub show_job_breakdown_pane: bool,
}

/// What a `WorkflowRunsListState` holds.
pub struct ListView {
    pub runs: Seq<WorkflowRunView>,
    pub loading: LoadingStateView,
    pub table: TablePosition,
    pub throbber_index: i8,
    pub completed_jobs: Map<u64, Seq<JobView>>,
    pub data_updated: bool,
    pub pane_shown: bool,
}

/// What a table of jobs by the numbers of their runs holds.
pub open spec fn job_table_view(table: Map<u64, Vec<Job>>) -> Map<u64, Seq<JobView>> {
    table.map_values(|jobs: Vec<Job>| jobs_view(jobs@))
}

impl View for WorkflowRunsListState {
    type V = ListView;

    open spec fn view(&self) -> ListView {
        ListView {
            runs: runs_view(self.workflow_runs@),
            loading: self.loading_state@,
            table: self.table_state,
            throbber_index: self.throbber_index,
            completed_jobs: job_table_view(self.completed_workflow_jobs@),
            data_updated: self.data_updated,
            pane_shown: self.show_job_breakdown_pane,
        }
    }
}

/// The jobs of a run are to be fetched. `is_completed` tells that they will not change any more.
#[derive(Debug, PartialEq, Eq)]
pub struct JobsRequest {
    pub run_id: u64,
    pub is_completed: bool,
}

/// The log of a failed step of a run is to be fetched.
#[derive(Debug, PartialEq, Eq)]
pub struct LogRequest {
    pub run_id: u64,
    pub failed_step: FailedStepRef,
}

/// What is to be fetched.
#[derive(Debug, PartialEq, Eq)]
pub struct Requests {
    pub jobs: Option<JobsRequest>,
    pub log: Option<LogRequest>,
}

/// What a `LogRequest` asks for.
pub struct LogRequestView {
    pub run_id: u64,
    pub failed_step: FailedStepRefView,
}

/// What `Requests` ask for.
pub struct RequestsView {
    pub jobs: Option<JobsRequest>,
    pub log: Option<LogRequestView>,
}

impl View for LogRequest {
    type V = LogRequestView;

    open spec fn view(&self) -> LogRequestView {
        LogRequestView { run_id: self.run_id, failed_step: self.failed_step@ }
    }
}

/// What an optional `LogRequest` asks for.
pub open spec fn log_request_view(request: Option<LogRequest>) -> Option<LogRequestView> {
    match request {
        Some(request) => Some(request@),
        None => None,
    }
}

impl View for Requests {
    type V = RequestsView;

    open spec fn view(&self) -> RequestsView {
        RequestsView { jobs: self.jobs, log: log_request_view(self.log) }
    }
}

/// Nothing is to be fetched.
pub open spec fn no_requests() -> RequestsView {
    RequestsView { jobs: None, log: None }
}

impl WorkflowRunView {
    /// The jobs of the run are to be fetched: they are not known, or they may have changed.
    pub open spec fn wants_jobs(self) -> bool {
        match self.jobs {
            JobsStateView::Loading | JobsStateView::Reloading(_) => false,
            JobsStateView::NotLoaded | JobsStateView::LoadingError(_) => true,
            JobsStateView::Loaded(_) => self.status == "in_progress"@,
        }
    }

    /// The run while its jobs are being fetched. Jobs that are known stay so.
    pub open spec fn fetching_jobs(self) -> WorkflowRunView {
        WorkflowRunView {
            jobs: match self.jobs {
                JobsStateView::Loaded(jobs) => JobsStateView::Reloading(jobs),
                _ => JobsStateView::Loading,
            },
            ..self
        }
    }

    /// The log of `step` is to be fetched: neither it nor an error is there, nor is it on its way.
    pub open spec fn wants_log(self, step: FailedStepRefView) -> bool {
        match self.failed_step_log {
            FailedStepLogStateView::Loading(current) => current != step,
            FailedStepLogStateView::Loaded(current, _) => current != step,
            FailedStepLogStateView::LoadingError(current, _) => current != step,
            FailedStepLogStateView::NotLoaded | FailedStepLogStateView::NotAvailable => true,
        }
    }

    /// The run with another state of its jobs.
    pub open spec fn with_jobs(self, jobs: JobsStateView) -> WorkflowRunView {
        WorkflowRunView { jobs, ..self }
    }

    /// The run with another state of its log.
    pub open spec fn with_log(self, failed_step_log: FailedStepLogStateView) -> WorkflowRunView {
        WorkflowRunView { failed_step_log, ..self }
    }
}

/// The index of the first run, from `from` on, that has a number.
pub open spec fn run_index(runs: Seq<WorkflowRunView>, id: u64, from: int) -> Option<int>
    decreases runs.len() - from,
{
    if from < 0 || from >= runs.len() {
        None
    } else if runs[from].id == id {
        Some(from)
    } else {
        run_index(runs, id, from + 1)
    }
}

impl ListView {
    /// The index of the selected run, where a run stands there.
    pub open spec fn selected_index(self) -> Option<int> {
        match self.table.selected {
            Some(i) if i < self.runs.len() => Some(i as int),
            _ => None,
        }
    }

    /// The list with another run at an index.
    pub open spec fn with_run(self, i: int, run: WorkflowRunView) -> ListView {
        ListView { runs: self.runs.update(i, run), ..self }
    }

    /// The list with news to show.
    pub open spec fn updated(self) -> ListView {
        ListView { data_updated: true, ..self }
    }

    /// Asking for the jobs of the selected run: the list afterwards, and what is to be fetched.
    pub open spec fn ask_for_jobs(self) -> (ListView, Option<JobsRequest>) {
        match self.selected_index() {
            Some(i) if self.runs[i].wants_jobs() => (
                self.with_run(i, self.runs[i].fetching_jobs()),
                Some(
                    JobsRequest {
                        run_id: self.runs[i].id,
                        is_completed: self.runs[i].status == "completed"@,
                    },
                ),
            ),
            _ => (self, None),
        }
    }

    /// Asking for the log of the first failed step of the selected run: the list afterwards, and
    /// what is to be fetched. A run without a failed step has no such log.
    pub open spec fn ask_for_log(self) -> (ListView, Option<LogRequestView>) {
        match self.selected_index() {
            None => (self, None),
            Some(i) => {
                let run = self.runs[i];
                match run.first_failed_step() {
                    None => if run.failed_step_log == FailedStepLogStateView::NotAvailable {
                        (self, None)
                    } else {
                        (
                            self.with_run(
                                i,
                                run.with_log(FailedStepLogStateView::NotAvailable),
                            ).updated(),
                            None,
                        )
                    },
                    Some(step) => if run.wants_log(step) {
                        (
                            self.with_run(
                                i,
                                run.with_log(FailedStepLogStateView::Loading(step)),
                            ).updated(),
                            Some(LogRequestView { run_id: run.id, failed_step: step }),
                        )
                    } else {
                        (self, None)
                    },
                }
            },
        }
    }

    /// Asking for the jobs of the selected run, then for the log of its failed step.
    pub open spec fn ask(self) -> (ListView, RequestsView) {
        let (asked, jobs) = self.ask_for_jobs();
        let (after, log) = asked.ask_for_log();
        (after, RequestsView { jobs, log })
    }

    /// Asking for what the pane shows, where it is shown.
    pub open spec fn ask_if_shown(self) -> (ListView, RequestsView) {
        if self.pane_shown {
            self.ask()
        } else {
            (self, no_requests())
        }
    }

    /// The list after runs have been loaded and what the selected one lacks has been asked for, and
    /// what is to be fetched.
    pub open spec fn after_load(self, runs: Seq<WorkflowRunView>) -> (ListView, RequestsView) {
        self.loaded(runs).ask()
    }

    /// The list after the throbber has had its turn: it moves while runs are being loaded.
    pub open spec fn after_throb(self) -> ListView {
        if self.loading is Loading {
            ListView {
                throbber_index: next_throbber_index(self.throbber_index),
                data_updated: true,
                ..self
            }
        } else {
            self
        }
    }

    /// The screen is at rest, so many nanoseconds after the last event.
    pub open spec fn rests(self, since_interaction_nanos: int) -> bool {
        !self.data_updated && since_interaction_nanos > 200_000_000
    }

    /// The list with another position in the table.
    pub open spec fn at(self, table: TablePosition) -> ListView {
        ListView { table, ..self }
    }

    /// The list with the pane of jobs shown or hidden, before anything is asked for.
    pub open spec fn toggled(self) -> ListView {
        ListView { pane_shown: !self.pane_shown, data_updated: true, ..self }
    }

    /// The list that keeps jobs that have been fetched, where they will not change any more.
    pub open spec fn keeping(self, run_id: u64, is_completed: bool, jobs: Seq<JobView>) -> ListView {
        if is_completed {
            ListView { completed_jobs: self.completed_jobs.insert(run_id, jobs), ..self }
        } else {
            self
        }
    }

    /// The list after runs have been loaded, before anything is asked for. The first run of a list
    /// that was empty is selected.
    pub open spec fn loaded(self, runs: Seq<WorkflowRunView>) -> ListView {
        ListView {
            runs,
            loading: LoadingStateView::Loaded,
            table: if self.runs.len() == 0 && runs.len() > 0 {
                TablePosition { offset: self.table.offset, selected: Some(0) }
            } else {
                self.table
            },
            data_updated: true,
            ..self
        }
    }
}

/// The position one row further down.
pub open spec fn one_down(table: TablePosition) -> TablePosition {
    TablePosition {
        offset: table.offset,
        selected: Some(
            if table.row() == usize::MAX {
                usize::MAX
            } else {
                (table.row() + 1) as usize
            },
        ),
    }
}

/// The position one row further up.
pub open spec fn one_up(table: TablePosition) -> TablePosition {
    TablePosition {
        offset: table.offset,
        selected: Some(
            if table.row() == 0 {
                0
            } else {
                (table.row() - 1) as usize
            },
        ),
    }
}

/// The next index of the throbber. After the largest comes 0.
pub open spec fn next_throbber_index(index: i8) -> i8 {
    if index == i8::MAX {
        0
    } else {
        (index + 1) as i8
    }
}

impl ListView {
    /// A list of no runs, with the pane of jobs hidden.
    pub open spec fn empty() -> ListView {
        ListView {
            runs: seq![],
            loading: LoadingStateView::Idle,
            table: TablePosition { offset: 0, selected: None },
            throbber_index: 0,
            completed_jobs: Map::empty(),
            data_updated: false,
            pane_shown: false,
        }
    }
}

impl Default for WorkflowRunsListState {
    fn default() -> (r: Self)
        ensures
            r@ == ListView::empty(),
    {
        let r: Self = WorkflowRunsListState {
            workflow_runs: Vec::new(),
            loading_state: LoadingState::default(),
            table_state: TablePosition::new(),
            throbber_index: 0,
            completed_workflow_jobs: HashMap::new(),
            data_updated: false,
            show_job_breakdown_pane: false,
        };
        assert(r@.runs =~= seq![]);
        assert(r@.completed_jobs =~= Map::empty());
        r
    }
}

impl WorkflowRunsListState {
    /// A list of no runs, with the pane of jobs shown.
    pub fn new() -> (r: Self)
        ensures
            r@ == (ListView { pane_shown: true, ..ListView::empty() }),
    {
        let mut r: Self = WorkflowRunsListState::default();
        r.show_job_breakdown_pane = true;
        r
    }

    fn set_run_jobs(&mut self, i: usize, jobs: JobsState)
        requires
            i < old(self).workflow_runs.len(),
        ensures
            final(self)@ == old(self)@.with_run(
                i as int,
                old(self)@.runs[i as int].with_jobs(jobs@),
            ),
    {
        self.workflow_runs[i].jobs = jobs;
        assert(self@.runs =~= old(self)@.runs.update(
            i as int,
            old(self)@.runs[i as int].with_jobs(jobs@),
        ));
    }

    fn set_run_log(&mut self, i: usize, log: FailedStepLogState)
        requires
            i < old(self).workflow_runs.len(),
        ensures
            final(self)@ == old(self)@.with_run(
                i as int,
                old(self)@.runs[i as int].with_log(log@),
            ),
    {
        self.workflow_runs[i].failed_step_log = log;
        assert(self@.runs =~= old(self)@.runs.update(
            i as int,
            old(self)@.runs[i as int].with_log(log@),
        ));
    }

    /// Whether there is news to show.
    pub fn has_data_updates(&self) -> (r: bool)
        ensures
            r == self@.data_updated,
    {
        self.data_updated
    }

    /// Notes whether there is news to show.
    pub fn set_data_updated(&mut self, data_updated: bool)
        ensures
            final(self)@ == (ListView { data_updated, ..old(self)@ }),
    {
        self.data_updated = data_updated;
    }

    /// Notes how loading the runs is going.
    pub fn set_loading_state(&mut self, loading_state: LoadingState)
        ensures
            final(self)@ == (ListView { loading: loading_state@, ..old(self)@ }),
    {
        self.loading_state = loading_state;
    }

    /// Notes that the runs could not be loaded.
    pub fn on_err(&mut self, message: String)
        ensures
            final(self)@ == (ListView {
                loading: LoadingStateView::Error(message@),
                ..old(self)@
            }),
    {
        self.set_loading_state(LoadingState::Error(message));
    }

    /// Moves the throbber on while runs are being loaded.
    pub fn update_throbber(&mut self)
        ensures
            final(self)@ == (if old(self)@.loading == LoadingStateView::Loading {
                ListView {
                    throbber_index: next_throbber_index(old(self)@.throbber_index),
                    data_updated: true,
                    ..old(self)@
                }
            } else {
                old(self)@
            }),
            final(self)@ == old(self)@.after_throb(),
    {
        match self.loading_state {
            LoadingState::Loading => {
                self.throbber_index = if self.throbber_index == i8::MAX {
                    0
                } else {
                    self.throbber_index + 1
                };
                self.data_updated = true;
            },
            _ => {},
        }
    }

    fn selected_run_index(&self) -> (r: Option<usize>)
        ensures
            match r {
                Some(i) => i < self.workflow_runs.len() && self@.selected_index() == Some(i as int),
                None => self@.selected_index() is None,
            },
    {
        match self.table_state.selected {
            Some(i) => if i < self.workflow_runs.len() {
                Some(i)
            } else {
                None
            },
            None => None,
        }
    }

    /// Asks for the jobs of the selected run, where they are not known or may have changed.
    pub fn ensure_selected_workflow_jobs(&mut self) -> (r: Option<JobsRequest>)
        ensures
            (final(self)@, r) == old(self)@.ask_for_jobs(),
    {
        let i: usize = match self.selected_run_index() {
            Some(i) => i,
            None => {
                return None;
            },
        };
        let run: &WorkflowRun = &self.workflow_runs[i];
        let jobs: JobsState = match &run.jobs {
            JobsState::Loading => {
                return None;
            },
            JobsState::Reloading(_) => {
                return None;
            },
            JobsState::NotLoaded => JobsState::Loading,
            JobsState::LoadingError(_) => JobsState::Loading,
            JobsState::Loaded(jobs) => {
                if !same_text(run.status.as_str(), "in_progress") {
                    return None;
                }
                JobsState::Reloading(copy_jobs(jobs))
            },
        };
        let request: JobsRequest = JobsRequest {
            run_id: run.id,
            is_completed: same_text(run.status.as_str(), "completed"),
        };
        self.set_run_jobs(i, jobs);
        Some(request)
    }

    /// Asks for the log of the first failed step of the selected run, unless it is there, is on its
    /// way, or could not be had.
    pub fn ensure_selected_failed_step_log(&mut self) -> (r: Option<LogRequest>)
        ensures
            (final(self)@, log_request_view(r)) == old(self)@.ask_for_log(),
    {
        let i: usize = match self.selected_run_index() {
            Some(i) => i,
            None => {
                return None;
            },
        };
        let run: &WorkflowRun = &self.workflow_runs[i];
        let run_id: u64 = run.id;
        let failed_step: FailedStepRef = match run.first_failed_step() {
            Some(step) => step,
            None => {
                let has_none: bool = match run.failed_step_log {
                    FailedStepLogState::NotAvailable => true,
                    _ => false,
                };
                if !has_none {
                    self.set_run_log(i, FailedStepLogState::NotAvailable);
                    self.data_updated = true;
                }
                return None;
            },
        };
        let should_fetch: bool = match &run.failed_step_log {
            FailedStepLogState::Loading(current) => !current.same_as(&failed_step),
            FailedStepLogState::Loaded(current) => !current.failed_step.same_as(&failed_step),
            FailedStepLogState::LoadingError(current, _) => !current.same_as(&failed_step),
            FailedStepLogState::NotLoaded => true,
            FailedStepLogState::NotAvailable => true,
        };
        if !should_fetch {
            return None;
        }
        self.set_run_log(i, FailedStepLogState::Loading(failed_step.clone()));
        self.data_updated = true;
        Some(LogRequest { run_id, failed_step })
    }

    fn ask(&mut self) -> (r: Requests)
        ensures
            (final(self)@, r@) == old(self)@.ask(),
    {
        let jobs: Option<JobsRequest> = self.ensure_selected_workflow_jobs();
        let log: Option<LogRequest> = self.ensure_selected_failed_step_log();
        Requests { jobs, log }
    }

    fn ask_if_shown(&mut self) -> (r: Requests)
        ensures
            (final(self)@, r@) == old(self)@.ask_if_shown(),
    {
        if self.show_job_breakdown_pane {
            self.ask()
        } else {
            Requests { jobs: None, log: None }
        }
    }

    /// Takes up runs that have been loaded, and asks for what the selected one lacks.
    pub fn on_load(&mut self, runs: Vec<WorkflowRun>) -> (r: Requests)
        ensures
            (final(self)@, r@) == old(self)@.loaded(runs_view(runs@)).ask(),
            (final(self)@, r@) == old(self)@.after_load(runs_view(runs@)),
    {
        self.loading_state = LoadingState::Loaded;
        let was_empty: bool = self.workflow_runs.is_empty();
        self.workflow_runs = runs;
        self.data_updated = true;
        if !self.workflow_runs.is_empty() && was_empty {
            self.table_state = self.table_state.select(Some(0));
        }
        self.ask()
    }

    /// Selects the next run, and asks for what it lacks where the pane of jobs is shown.
    pub fn scroll_down(&mut self) -> (r: Requests)
        ensures
            (final(self)@, r@) == old(self)@.at(one_down(old(self)@.table)).ask_if_shown(),
    {
        self.table_state = self.table_state.scroll_down_by(1);
        self.ask_if_shown()
    }

    /// Selects the run before, and asks for what it lacks where the pane of jobs is shown.
    pub fn scroll_up(&mut self) -> (r: Requests)
        ensures
            (final(self)@, r@) == old(self)@.at(one_up(old(self)@.table)).ask_if_shown(),
    {
        self.table_state = self.table_state.scroll_up_by(1);
        self.ask_if_shown()
    }

    /// Shows or hides the pane of jobs, and asks for what the selected run lacks where it is shown.
    pub fn toggle_job_breakdown_pane(&mut self) -> (r: Requests)
        ensures
            (final(self)@, r@) == old(self)@.toggled().ask_if_shown(),
    {
        self.show_job_breakdown_pane = !self.show_job_breakdown_pane;
        self.data_updated = true;
        self.ask_if_shown()
    }

    /// Takes up the position that drawing the table has left.
    pub fn table_drawn(&mut self, table_state: TablePosition)
        ensures
            final(self)@ == old(self)@.at(table_state),
    {
        self.table_state = table_state;
    }

    /// The address of the selected run.
    pub fn selected_workflow_url(&self) -> (r: Option<String>)
        ensures
            match r {
                Some(url) => self@.selected_index() is Some
                    && url@ == self@.runs[self@.selected_index()->0].html_url,
                None => self@.selected_index() is None,
            },
    {
        match self.selected_run_index() {
            Some(i) => Some(self.workflow_runs[i].html_url.clone()),
            None => None,
        }
    }

    /// The jobs of a run that has been completed, where they have been fetched before.
    pub fn cached_workflow_jobs(&self, run_id: u64) -> (r: Option<Vec<Job>>)
        ensures
            match r {
                Some(jobs) => self@.completed_jobs.contains_key(run_id)
                    && self@.completed_jobs[run_id] == jobs_view(jobs@),
                None => !self@.completed_jobs.contains_key(run_id),
            },
    {
        broadcast use vstd::std_specs::hash::group_hash_axioms;

        match self.completed_workflow_jobs.get(&run_id) {
            Some(jobs) => Some(copy_jobs(jobs)),
            None => None,
        }
    }

    /// Keeps jobs that have been fetched, where they will not change any more.
    pub fn keep_workflow_jobs(&mut self, run_id: u64, is_completed: bool, jobs: &Vec<Job>)
        ensures
            final(self)@ == old(self)@.keeping(run_id, is_completed, jobs_view(jobs@)),
    {
        broadcast use vstd::std_specs::hash::group_hash_axioms;

        if is_completed {
            let ghost before = self.completed_workflow_jobs@;
            self.completed_workflow_jobs.insert(run_id, copy_jobs(jobs));
            assert(self@.completed_jobs =~= job_table_view(before).insert(
                run_id,
                jobs_view(jobs@),
            ));
        }
    }

    fn find_run(&self, run_id: u64) -> (r: Option<usize>)
        ensures
            match r {
                Some(i) => i < self.workflow_runs.len() && run_index(self@.runs, run_id, 0) == Some(
                    i as int,
                ),
                None => run_index(self@.runs, run_id, 0) is None,
            },
    {
        let ghost view = self@.runs;
        let mut i: usize = 0;
        while i < self.workflow_runs.len()
            invariant
                i <= self.workflow_runs.len(),
                view == runs_view(self.workflow_runs@),
                run_index(view, run_id, 0) == run_index(view, run_id, i as int),
            decreases self.workflow_runs.len() - i,
        {
            if self.workflow_runs[i].id == run_id {
                return Some(i);
            }
            i = i + 1;
        }
        None
    }

    /// Takes up the jobs of a run, or the reason why they could not be fetched, and asks for the log
    /// that the selected run may now lack. A run that is no longer listed is passed over.
    pub fn on_jobs(&mut self, run_id: u64, outcome: Result<Vec<Job>, String>) -> (r: Option<
        LogRequest,
    >)
        ensures
            (final(self)@, log_request_view(r)) == old(self)@.with_fetched_jobs(
                run_id,
                jobs_outcome(outcome),
            ),
    {
        let i: usize = match self.find_run(run_id) {
            Some(i) => i,
            None => {
                return None;
            },
        };
        let jobs: JobsState = match outcome {
            Ok(jobs) => JobsState::Loaded(jobs),
            Err(message) => JobsState::LoadingError(message),
        };
        self.set_run_jobs(i, jobs);
        self.data_updated = true;
        self.ensure_selected_failed_step_log()
    }

    /// Takes up the log of a failed step, or the reason why it could not be fetched. A run that is no
    /// longer listed is passed over.
    pub fn on_failed_step_log(
        &mut self,
        run_id: u64,
        failed_step: FailedStepRef,
        outcome: Result<Vec<String>, String>,
    )
        ensures
            final(self)@ == old(self)@.with_fetched_log(
                run_id,
                log_outcome(failed_step@, outcome),
            ),
    {
        let log: FailedStepLogState = match outcome {
            Ok(lines) => FailedStepLogState::Loaded(FailedStepLogTail { failed_step, lines }),
            Err(message) => FailedStepLogState::LoadingError(failed_step, message),
        };
        match self.find_run(run_id) {
            Some(i) => {
                self.set_run_log(i, log);
                self.data_updated = true;
            },
            None => {},
        }
    }
}

/// What is known of the jobs of a run once fetching them has ended.
pub open spec fn jobs_outcome(outcome: Result<Vec<Job>, String>) -> JobsStateView {
    match outcome {
        Ok(jobs) => JobsStateView::Loaded(jobs_view(jobs@)),
        Err(message) => JobsStateView::LoadingError(message@),
    }
}

/// What is known of the log of a step once fetching it has ended.
pub open spec fn log_outcome(
    step: FailedStepRefView,
    outcome: Result<Vec<String>, String>,
) -> FailedStepLogStateView {
    match outcome {
        Ok(lines) => FailedStepLogStateView::Loaded(step, texts(lines@)),
        Err(message) => FailedStepLogStateView::LoadingError(step, message@),
    }
}

impl ListView {
    /// The list after fetching the jobs of a run has ended, and what is to be fetched next.
    pub open spec fn with_fetched_jobs(self, run_id: u64, jobs: JobsStateView) -> (
        ListView,
        Option<LogRequestView>,
    ) {
        match run_index(self.runs, run_id, 0) {
            Some(i) => self.with_run(i, self.runs[i].with_jobs(jobs)).updated().ask_for_log(),
            None => (self, None),
        }
    }

    /// The list after fetching the log of a failed step has ended.
    pub open spec fn with_fetched_log(self, run_id: u64, log: FailedStepLogStateView) -> ListView {
        match run_index(self.runs, run_id, 0) {
            Some(i) => self.with_run(i, self.runs[i].with_log(log)).updated(),
            None => self,
        }
    }
}

} // verus!
