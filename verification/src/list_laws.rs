//! What holds of the list of runs whatever happens to it.

use crate::line::plain_line;
use crate::list::{
    jobs_outcome, log_outcome, next_throbber_index, no_requests, one_down, one_up, run_index,
    JobsRequest, ListView, LoadingStateView, LogRequestView,
};
use crate::run::{
    failed_step_title, FailedStepLogStateView, FailedStepRefView, Job, JobView, JobsStateView,
    WorkflowRunView,
};
use crate::table::TablePosition;
use vstd::prelude::*;

verus! {

/// Two lists differ in nothing but what is known of the jobs and the logs of their runs, and in
/// whether there is news to show.
pub open spec fn same_but_for_details(a: ListView, b: ListView) -> bool {
    &&& a.runs.len() == b.runs.len()
    &&& forall|k: int|
        0 <= k < a.runs.len() ==> b.runs[k] == (#[trigger] a.runs[k]).with_jobs(
            b.runs[k].jobs,
        ).with_log(b.runs[k].failed_step_log)
    &&& a.loading == b.loading
    &&& a.table == b.table
    &&& a.throbber_index == b.throbber_index
    &&& a.completed_jobs == b.completed_jobs
    &&& a.pane_shown == b.pane_shown
}

/// Asking for the jobs and the log of the selected run changes nothing but what is known of the jobs
/// and the log of that run, and news is not withdrawn by it.
pub proof fn asking_touches_the_selected_run_only(list: ListView)
    ensures
        same_but_for_details(list, list.ask().0),
        forall|k: int|
            0 <= k < list.runs.len() && list.selected_index() != Some(k) ==> list.ask().0.runs[k]
                == list.runs[k],
        list.data_updated ==> list.ask().0.data_updated,
{
}

/// Fetching the jobs of a run does not hide the jobs that are known of it.
pub proof fn fetching_keeps_known_jobs(run: WorkflowRunView)
    ensures
        run.wants_jobs() ==> run.fetching_jobs().jobs.known() == run.jobs.known(),
        run.wants_jobs() ==> run.fetching_jobs().first_failed_step() == run.first_failed_step(),
{
}

/// What has been asked for is not asked for again: asking a second time asks for nothing, and
/// changes nothing.
pub proof fn asking_twice_asks_once(list: ListView)
    ensures
        list.ask().0.ask() == (list.ask().0, no_requests()),
{
    let (asked, _) = list.ask_for_jobs();
    let (after, _) = asked.ask_for_log();
    if list.selected_index() is Some {
        let i = list.selected_index()->0;
        assert(asked.selected_index() == Some(i));
        assert(after.selected_index() == Some(i));
        assert(after.runs[i].jobs == asked.runs[i].jobs);
        assert(!after.runs[i].wants_jobs());
        assert(after.ask_for_jobs() == (after, None::<JobsRequest>));
        assert(after.runs[i].first_failed_step() == asked.runs[i].first_failed_step());
    }
}

/// The jobs of a run that is not in progress are fetched once: when they are loaded, they are not
/// asked for again.
pub proof fn settled_jobs_are_not_fetched_again(list: ListView, i: int)
    requires
        list.selected_index() == Some(i),
        list.runs[i].jobs is Loaded,
        list.runs[i].status != "in_progress"@,
    ensures
        list.ask_for_jobs() == (list, None::<JobsRequest>),
{
}

/// While the jobs of a run are on their way they are not asked for again.
pub proof fn jobs_on_their_way_are_not_asked_for(list: ListView, i: int)
    requires
        list.selected_index() == Some(i),
        list.runs[i].jobs is Loading || list.runs[i].jobs is Reloading,
    ensures
        list.ask_for_jobs() == (list, None::<JobsRequest>),
{
}

/// Whatever is asked for belongs to the selected run, and its log to the first failed step of it.
pub proof fn requests_are_for_the_selected_run(list: ListView)
    ensures
        list.ask().1.jobs matches Some(request) ==> list.selected_index() is Some
            && request.run_id == list.runs[list.selected_index()->0].id,
        list.ask().1.log matches Some(request) ==> list.selected_index() is Some
            && request.run_id == list.runs[list.selected_index()->0].id && Some(
            request.failed_step,
        ) == list.runs[list.selected_index()->0].first_failed_step(),
{
    if list.selected_index() is Some {
        fetching_keeps_known_jobs(list.runs[list.selected_index()->0]);
    }
}

/// After asking, the jobs of the selected run are known or on their way, and its log is that of its
/// first failed step, is on its way, or could not be had. A run without a failed step has no log.
pub proof fn asking_leaves_nothing_out(list: ListView, i: int)
    requires
        list.selected_index() == Some(i),
    ensures
        ({
            let run = list.ask().0.runs[i];
            &&& run.jobs is Loading || run.jobs is Loaded || run.jobs is Reloading
            &&& match run.first_failed_step() {
                None => run.failed_step_log == FailedStepLogStateView::NotAvailable,
                Some(step) => match run.failed_step_log {
                    FailedStepLogStateView::Loading(current) => current == step,
                    FailedStepLogStateView::Loaded(current, _) => current == step,
                    FailedStepLogStateView::LoadingError(current, _) => current == step,
                    _ => false,
                },
            }
        }),
{
    let (asked, _) = list.ask_for_jobs();
    let (after, _) = asked.ask_for_log();
    assert(asked.selected_index() == Some(i));
    assert(after.runs[i].jobs == asked.runs[i].jobs);
    assert(after.runs[i].first_failed_step() == asked.runs[i].first_failed_step());
}

/// While the pane of jobs is hidden nothing is asked for by moving through the list.
pub proof fn nothing_is_asked_for_a_hidden_pane(list: ListView, table: TablePosition)
    requires
        !list.pane_shown,
    ensures
        list.at(table).ask_if_shown() == (list.at(table), no_requests()),
{
}

/// Hiding and showing the pane of jobs, or showing and hiding it, leaves it as it was.
pub proof fn toggling_twice_restores_the_pane(list: ListView)
    ensures
        ({
            let once = list.toggled().ask_if_shown().0;
            let twice = once.toggled().ask_if_shown().0;
            twice.pane_shown == list.pane_shown && same_but_for_details(list, twice)
        }),
{
    let once = list.toggled().ask_if_shown().0;
    asking_touches_the_selected_run_only(list.toggled());
    asking_touches_the_selected_run_only(once.toggled());
}

/// One row down and one row up leads back to the same row, except from the largest number.
pub proof fn down_and_up_returns(table: TablePosition)
    requires
        table.row() < usize::MAX,
    ensures
        one_up(one_down(table)).row() == table.row(),
        one_up(one_down(table)).offset == table.offset,
{
}

/// One row up never leads before the first row.
pub proof fn up_stops_at_the_first_row(table: TablePosition)
    ensures
        one_up(table).row() <= table.row(),
        table.row() == 0 ==> one_up(table).row() == 0,
{
}

/// Loading runs into a list that had some keeps the selection; loading some into one that had none
/// selects the first of them.
pub proof fn loading_selects_the_first_run_once(list: ListView, runs: Seq<WorkflowRunView>)
    ensures
        list.runs.len() > 0 ==> list.loaded(runs).ask().0.table == list.table,
        list.runs.len() == 0 && runs.len() > 0 ==> list.loaded(runs).ask().0.selected_index()
            == Some(0int),
        list.loaded(runs).ask().0.data_updated,
{
    asking_touches_the_selected_run_only(list.loaded(runs));
}

/// Jobs that are kept for completed runs stay, whatever else happens to the list.
pub proof fn kept_jobs_stay(
    list: ListView,
    runs: Seq<WorkflowRunView>,
    table: TablePosition,
    run_id: u64,
    jobs: JobsStateView,
    log: FailedStepLogStateView,
)
    ensures
        list.loaded(runs).ask().0.completed_jobs == list.completed_jobs,
        list.at(table).ask_if_shown().0.completed_jobs == list.completed_jobs,
        list.toggled().ask_if_shown().0.completed_jobs == list.completed_jobs,
        list.ask_for_jobs().0.completed_jobs == list.completed_jobs,
        list.ask_for_log().0.completed_jobs == list.completed_jobs,
        list.with_fetched_jobs(run_id, jobs).0.completed_jobs == list.completed_jobs,
        list.with_fetched_log(run_id, log).completed_jobs == list.completed_jobs,
{
}

/// Jobs of a completed run that are kept are given back for that run, and those of other runs are
/// not touched. Jobs of a run that is not completed are not kept.
pub proof fn kept_jobs_are_given_back(list: ListView, run_id: u64, jobs: Seq<JobView>, other: u64)
    ensures
        list.keeping(run_id, true, jobs).completed_jobs.contains_key(run_id),
        list.keeping(run_id, true, jobs).completed_jobs[run_id] == jobs,
        other != run_id ==> list.keeping(run_id, true, jobs).completed_jobs.contains_key(other)
            == list.completed_jobs.contains_key(other),
        other != run_id ==> list.keeping(run_id, true, jobs).completed_jobs[other]
            == list.completed_jobs[other],
        list.keeping(run_id, false, jobs) == list,
{
}

proof fn lemma_run_index(runs: Seq<WorkflowRunView>, id: u64, from: int)
    requires
        0 <= from,
    ensures
        match run_index(runs, id, from) {
            Some(i) => from <= i < runs.len() && runs[i].id == id && forall|k: int|
                from <= k < i ==> runs[k].id != id,
            None => forall|k: int| from <= k < runs.len() ==> runs[k].id != id,
        },
    decreases runs.len() - from,
{
    if from < runs.len() && runs[from].id != id {
        lemma_run_index(runs, id, from + 1);
    }
}

/// Fetched jobs are taken up by the first run of that number, and by no other.
pub proof fn fetched_jobs_reach_their_run(
    list: ListView,
    run_id: u64,
    jobs: JobsStateView,
    i: int,
)
    requires
        0 <= i < list.runs.len(),
        list.runs[i].id == run_id,
        forall|k: int| 0 <= k < i ==> list.runs[k].id != run_id,
    ensures
        list.with_fetched_jobs(run_id, jobs).0.runs[i].jobs == jobs,
        list.with_fetched_jobs(run_id, jobs).0.data_updated,
        forall|k: int|
            0 <= k < list.runs.len() && k != i ==> list.with_fetched_jobs(run_id, jobs).0.runs[k].jobs
                == list.runs[k].jobs,
{
    lemma_run_index(list.runs, run_id, 0);
    let next = list.with_run(i, list.runs[i].with_jobs(jobs)).updated();
    assert(run_index(list.runs, run_id, 0) == Some(i));
    assert(next.runs[i].jobs == jobs);
}

/// What fetching a log gave is taken up by the first run of that number. The other runs stay as they
/// are.
pub proof fn fetched_logs_reach_their_run(list: ListView, i: int, log: FailedStepLogStateView)
    requires
        0 <= i < list.runs.len(),
        forall|k: int| 0 <= k < i ==> list.runs[k].id != list.runs[i].id,
    ensures
        ({
            let after = list.with_fetched_log(list.runs[i].id, log);
            &&& after.runs == list.runs.update(i, list.runs[i].with_log(log))
            &&& after.data_updated
        }),
{
    lemma_run_index(list.runs, list.runs[i].id, 0);
}

/// A run whose log has been fetched shows its lines below a title that names the step.
pub proof fn fetched_logs_are_shown(
    run: WorkflowRunView,
    step: FailedStepRefView,
    lines: Seq<Seq<char>>,
)
    ensures
        ({
            let shown = run.with_log(FailedStepLogStateView::Loaded(step, lines)).failed_log();
            &&& shown[0] == failed_step_title(step)
            &&& lines.len() > 0 ==> shown.len() == 1 + lines.len()
            &&& forall|k: int|
                0 <= k < lines.len() ==> #[trigger] shown[k + 1] == plain_line(lines[k])
            &&& lines.len() == 0 ==> shown.len() == 2
        }),
{
}

/// What is fetched for a run that is no longer listed changes nothing.
pub proof fn answers_for_unlisted_runs_are_passed_over(
    list: ListView,
    run_id: u64,
    jobs: JobsStateView,
    log: FailedStepLogStateView,
)
    requires
        forall|k: int| 0 <= k < list.runs.len() ==> list.runs[k].id != run_id,
    ensures
        list.with_fetched_jobs(run_id, jobs) == (list, None::<LogRequestView>),
        list.with_fetched_log(run_id, log) == list,
{
    lemma_run_index(list.runs, run_id, 0);
}

/// Once fetching the log of the first failed step of the selected run has ended, well or not, that
/// log is not asked for again while the step stays the first.
pub proof fn an_answered_log_is_not_asked_for_again(
    list: ListView,
    i: int,
    step: FailedStepRefView,
    outcome: Result<Vec<String>, String>,
)
    requires
        list.selected_index() == Some(i),
        list.runs[i].first_failed_step() == Some(step),
        forall|k: int| 0 <= k < i ==> list.runs[k].id != list.runs[i].id,
    ensures
        ({
            let after = list.with_fetched_log(list.runs[i].id, log_outcome(step, outcome));
            after.ask_for_log() == (after, None::<LogRequestView>)
        }),
{
    lemma_run_index(list.runs, list.runs[i].id, 0);
    let after = list.with_fetched_log(list.runs[i].id, log_outcome(step, outcome));
    assert(after.selected_index() == Some(i));
    assert(after.runs[i].first_failed_step() == Some(step));
}

/// The index of the throbber never becomes negative.
pub proof fn throbber_index_stays_in_range(index: i8)
    requires
        index >= 0,
    ensures
        next_throbber_index(index) >= 0,
{
}

/// Two runs agree in everything but what is known of their jobs and their logs.
pub open spec fn same_run(a: WorkflowRunView, b: WorkflowRunView) -> bool {
    &&& a.id == b.id
    &&& a.name == b.name
    &&& a.commit == b.commit
    &&& a.branch == b.branch
    &&& a.status == b.status
    &&& a.conclusion == b.conclusion
    &&& a.created_at == b.created_at
    &&& a.html_url == b.html_url
}

/// Two lists agree in everything but the run at an index, and whether there is news to show; and
/// those two runs agree in everything but their jobs and their logs.
pub open spec fn same_but_at(a: ListView, b: ListView, i: int) -> bool {
    &&& a.runs.len() == b.runs.len()
    &&& forall|k: int| 0 <= k < a.runs.len() && k != i ==> #[trigger] b.runs[k] == a.runs[k]
    &&& same_run(a.runs[i], b.runs[i])
    &&& a.loading == b.loading
    &&& a.table.offset == b.table.offset
    &&& a.table.selected == b.table.selected
    &&& a.throbber_index == b.throbber_index
    &&& a.completed_jobs == b.completed_jobs
    &&& a.pane_shown == b.pane_shown
}

/// The selected run is the one at the selected row, where there is one.
pub proof fn the_selected_run_stands_at_the_selected_row(list: ListView, i: int)
    ensures
        list.selected_index() == Some(i) <==> (list.table.selected matches Some(row) && row == i
            && i < list.runs.len()),
        list.selected_index() is None <==> (list.table.selected matches Some(row) ==> row
            >= list.runs.len()),
{
}

/// The jobs of the selected run are asked for exactly where they were never loaded, could not be
/// loaded, or are loaded but may change because the run is in progress. They are then on their way,
/// and those that are known stay. The request is for that run, and tells whether it is completed.
pub proof fn jobs_are_asked_for_exactly_where_they_lack(list: ListView, i: int)
    requires
        list.selected_index() == Some(i),
    ensures
        ({
            let run = list.runs[i];
            let (after, request) = list.ask_for_jobs();
            let wanted = run.jobs is NotLoaded || run.jobs is LoadingError || (run.jobs is Loaded
                && run.status == "in_progress"@);
            &&& request is Some <==> wanted
            &&& !wanted ==> after == list
            &&& request matches Some(r) ==> r.run_id == run.id && (r.is_completed <==> run.status
                == "completed"@)
            &&& same_but_at(list, after, i)
            &&& after.runs[i].failed_step_log == run.failed_step_log
            &&& after.data_updated == list.data_updated
            &&& wanted && run.jobs is Loaded ==> after.runs[i].jobs == JobsStateView::Reloading(
                run.jobs->Loaded_0,
            )
            &&& wanted && !(run.jobs is Loaded) ==> after.runs[i].jobs == JobsStateView::Loading
        }),
{
}

/// The log of the first failed step of the selected run is asked for exactly where it is not there, is
/// not on its way, and was not tried in vain. It is then on its way. A run without a failed step has
/// no log. Whatever changes is news.
pub proof fn logs_are_asked_for_exactly_where_they_lack(list: ListView, i: int)
    requires
        list.selected_index() == Some(i),
    ensures
        ({
            let run = list.runs[i];
            let (after, request) = list.ask_for_log();
            let failed = run.first_failed_step();
            let settled = match run.failed_step_log {
                FailedStepLogStateView::Loading(step) => Some(step) == failed,
                FailedStepLogStateView::Loaded(step, _) => Some(step) == failed,
                FailedStepLogStateView::LoadingError(step, _) => Some(step) == failed,
                FailedStepLogStateView::NotAvailable => failed is None,
                FailedStepLogStateView::NotLoaded => false,
            };
            &&& request is Some <==> failed is Some && !settled
            &&& request matches Some(r) ==> r.run_id == run.id && Some(r.failed_step) == failed
            &&& settled ==> after == list
            &&& same_but_at(list, after, i)
            &&& after.runs[i].jobs == run.jobs
            &&& !settled ==> after.data_updated
            &&& !settled && failed is Some ==> after.runs[i].failed_step_log
                == FailedStepLogStateView::Loading(failed->0)
            &&& failed is None ==> after.runs[i].failed_step_log
                == FailedStepLogStateView::NotAvailable
        }),
{
}

/// Without a selected run nothing is asked for, and nothing changes.
pub proof fn nothing_is_asked_for_without_a_selection(list: ListView)
    requires
        list.selected_index() is None,
    ensures
        list.ask_for_jobs() == (list, None::<JobsRequest>),
        list.ask_for_log() == (list, None::<LogRequestView>),
        list.ask() == (list, no_requests()),
{
}

/// Asking for both asks for the jobs as asking for them alone does, and for the log as asking for it
/// alone does. Where the pane is shown, both are asked for.
pub proof fn asking_for_both_asks_for_each(list: ListView)
    ensures
        list.ask().1.jobs == list.ask_for_jobs().1,
        list.ask().1.log == list.ask_for_log().1,
        list.selected_index() matches Some(i) ==> {
            &&& list.ask().0.runs[i].jobs == list.ask_for_jobs().0.runs[i].jobs
            &&& list.ask().0.runs[i].failed_step_log == list.ask_for_log().0.runs[i].failed_step_log
        },
        list.pane_shown ==> list.ask_if_shown() == list.ask(),
        !list.pane_shown ==> list.ask_if_shown().0 == list,
        !list.pane_shown ==> list.ask_if_shown().1.jobs is None,
        !list.pane_shown ==> list.ask_if_shown().1.log is None,
{
    if let Some(i) = list.selected_index() {
        fetching_keeps_known_jobs(list.runs[i]);
        let asked = list.ask_for_jobs().0;
        assert(asked.selected_index() == Some(i));
        assert(asked.runs[i].first_failed_step() == list.runs[i].first_failed_step());
        assert(asked.runs[i].failed_step_log == list.runs[i].failed_step_log);
    }
}

/// Loading takes up the runs as they come, in their order, and is then done. The selection stays,
/// but for a list that was empty and is no longer: its first run is then selected. Nothing else is
/// touched.
pub proof fn loading_takes_up_the_runs(list: ListView, runs: Seq<WorkflowRunView>)
    ensures
        ({
            let after = list.loaded(runs);
            let first = list.runs.len() == 0 && runs.len() > 0;
            &&& after.runs == runs
            &&& after.loading == LoadingStateView::Loaded
            &&& after.data_updated
            &&& after.table.offset == list.table.offset
            &&& first ==> after.table.selected == Some(0usize)
            &&& !first ==> after.table.selected == list.table.selected
            &&& after.throbber_index == list.throbber_index
            &&& after.completed_jobs == list.completed_jobs
            &&& after.pane_shown == list.pane_shown
        }),
{
}

/// Showing or hiding the pane is news, and touches nothing else.
pub proof fn toggling_touches_the_pane_only(list: ListView)
    ensures
        ({
            let after = list.toggled();
            &&& after.pane_shown != list.pane_shown
            &&& after.data_updated
            &&& after.runs == list.runs
            &&& after.loading == list.loading
            &&& after.table == list.table
            &&& after.throbber_index == list.throbber_index
            &&& after.completed_jobs == list.completed_jobs
        }),
{
}

/// One row down is the next row, and one row up the row before, as far as there are any. Where no row
/// is selected, they count from the first. The rows that are shown stay the same.
pub proof fn moves_are_by_one_row(offset: usize, row: usize)
    ensures
        ({
            let none = TablePosition { offset, selected: None };
            let here = TablePosition { offset, selected: Some(row) };
            &&& one_down(none) == (TablePosition { offset, selected: Some(1) })
            &&& one_up(none) == (TablePosition { offset, selected: Some(0) })
            &&& one_down(here).offset == offset && one_up(here).offset == offset
            &&& row < usize::MAX ==> one_down(here).selected == Some((row + 1) as usize)
            &&& row == usize::MAX ==> one_down(here).selected == Some(row)
            &&& row > 0 ==> one_up(here).selected == Some((row - 1) as usize)
            &&& row == 0 ==> one_up(here).selected == Some(0usize)
        }),
{
}

/// The throbber moves on by one, and begins anew after the largest index.
pub proof fn throbbers_move_by_one(index: i8)
    ensures
        index < 127 ==> next_throbber_index(index) == index + 1,
        index == 127 ==> next_throbber_index(index) == 0,
{
}

/// Jobs that were fetched are loaded as they are, and an error keeps its message. The same goes for the
/// lines of a log, which stay with the step that they were fetched for.
pub proof fn outcomes_are_kept(
    jobs: Vec<Job>,
    lines: Vec<String>,
    message: String,
    step: FailedStepRefView,
    k: int,
)
    ensures
        jobs_outcome(Ok(jobs)) matches JobsStateView::Loaded(known) && known.len() == jobs@.len()
            && (0 <= k < jobs@.len() ==> known[k] == jobs@[k]@),
        jobs_outcome(Err(message)) == JobsStateView::LoadingError(message@),
        log_outcome(step, Ok(lines)) matches FailedStepLogStateView::Loaded(of, known) && of == step
            && known.len() == lines@.len() && (0 <= k < lines@.len() ==> known[k] == lines@[k]@),
        log_outcome(step, Err(message)) == FailedStepLogStateView::LoadingError(step, message@),
{
}

/// Jobs that are fetched for the selected run bring the log of its first failed step on its way, unless
/// that log is there already, is on its way, or was tried in vain.
pub proof fn fetched_jobs_bring_the_log(list: ListView, i: int, jobs: Seq<JobView>)
    requires
        list.selected_index() == Some(i),
        forall|k: int| 0 <= k < i ==> list.runs[k].id != list.runs[i].id,
    ensures
        ({
            let (after, request) = list.with_fetched_jobs(
                list.runs[i].id,
                JobsStateView::Loaded(jobs),
            );
            let failed = after.runs[i].first_failed_step();
            let of_step = match list.runs[i].failed_step_log {
                FailedStepLogStateView::Loading(step) => Some(step),
                FailedStepLogStateView::Loaded(step, _) => Some(step),
                FailedStepLogStateView::LoadingError(step, _) => Some(step),
                _ => None,
            };
            &&& after.runs[i].jobs == JobsStateView::Loaded(jobs)
            &&& same_but_at(list, after, i)
            &&& after.data_updated
            &&& request is Some <==> failed is Some && of_step != failed
            &&& request matches Some(r) ==> r.run_id == list.runs[i].id && Some(r.failed_step)
                == failed && after.runs[i].failed_step_log == FailedStepLogStateView::Loading(
                r.failed_step,
            )
            &&& failed is None ==> after.runs[i].failed_step_log
                == FailedStepLogStateView::NotAvailable
            &&& failed is Some && of_step == failed ==> after.runs[i].failed_step_log
                == list.runs[i].failed_step_log
        }),
{
    lemma_run_index(list.runs, list.runs[i].id, 0);
    assert(run_index(list.runs, list.runs[i].id, 0) == Some(i));
    let next = list.with_run(
        i,
        list.runs[i].with_jobs(JobsStateView::Loaded(jobs)),
    ).updated();
    assert(next.selected_index() == Some(i));
    logs_are_asked_for_exactly_where_they_lack(next, i);
}

/// Loading takes up the runs, selects the first where the list was empty, and asks for what the selected
/// run lacks, whether the pane is shown or not.
pub proof fn loading_asks_for_the_selected_run(list: ListView, runs: Seq<WorkflowRunView>, i: int)
    requires
        0 <= i < runs.len(),
        if list.runs.len() == 0 {
            i == 0
        } else {
            list.table.selected matches Some(row) && row == i
        },
    ensures
        ({
            let (after, requests) = list.after_load(runs);
            let run = runs[i];
            &&& after.selected_index() == Some(i)
            &&& after.loading is Loaded
            &&& after.data_updated
            &&& after.pane_shown == list.pane_shown
            &&& after.completed_jobs == list.completed_jobs
            &&& after.runs.len() == runs.len()
            &&& forall|k: int| 0 <= k < runs.len() && k != i ==> #[trigger] after.runs[k] == runs[k]
            &&& same_run(after.runs[i], run)
            &&& requests.jobs is Some <==> run.jobs is NotLoaded || run.jobs is LoadingError || (
            run.jobs is Loaded && run.status == "in_progress"@)
            &&& requests.jobs matches Some(r) ==> r.run_id == run.id && (r.is_completed
                <==> run.status == "completed"@)
            &&& requests.log matches Some(r) ==> r.run_id == run.id && Some(r.failed_step)
                == run.first_failed_step()
            &&& run.failed_step_log is NotLoaded ==> (requests.log is Some
                <==> run.first_failed_step() is Some)
        }),
{
    let loaded = list.loaded(runs);
    assert(loaded.selected_index() == Some(i));
    jobs_are_asked_for_exactly_where_they_lack(loaded, i);
    logs_are_asked_for_exactly_where_they_lack(loaded, i);
    asking_for_both_asks_for_each(loaded);
    asking_touches_the_selected_run_only(loaded);
}

/// The throbber moves, and that is news, exactly while runs are being loaded. Nothing else is touched.
pub proof fn throbbers_move_while_loading(list: ListView)
    ensures
        ({
            let after = list.after_throb();
            let loading = list.loading == LoadingStateView::Loading;
            &&& !loading ==> after == list
            &&& loading ==> after.data_updated && after.throbber_index != list.throbber_index
            &&& loading && list.throbber_index < 127 ==> after.throbber_index == list.throbber_index
                + 1
            &&& loading && list.throbber_index == 127 ==> after.throbber_index == 0
            &&& after.runs == list.runs
            &&& after.loading == list.loading
            &&& after.table == list.table
            &&& after.completed_jobs == list.completed_jobs
            &&& after.pane_shown == list.pane_shown
        }),
{
}

/// A screen with news to show is not at rest, nor is one within a fifth of a second of the last event;
/// any other is.
pub proof fn screens_rest_after_a_fifth_of_a_second(list: ListView, nanos: int)
    ensures
        list.data_updated ==> !list.rests(nanos),
        5 * nanos <= 1_000_000_000 ==> !list.rests(nanos),
        !list.data_updated && 5 * nanos > 1_000_000_000 ==> list.rests(nanos),
{
}

} // verus!
