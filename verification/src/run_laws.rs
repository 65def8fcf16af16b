//! What holds of runs, their jobs and their steps.

use crate::line::{LineView, Style};
use crate::run::{
    first_failed_from, first_failed_index, is_failed, job_time, job_tree, job_tree_line, step_time,
    step_tree_line, tree_line,
    FailedStepLogStateView, FailedStepRefView, JobView, JobsStateView, StepView, WorkflowRunView,
};
use crate::status::{job_status_symbol, run_status_symbol, Color, Conclusion, Status};
use crate::text::decimal;
use crate::time::{duration_words, relative_time, Timestamp};
use vstd::prelude::*;

verus! {

proof fn lemma_first_failed_index(steps: Seq<StepView>, from: int)
    requires
        0 <= from,
    ensures
        match first_failed_index(steps, from) {
            Some(i) => from <= i < steps.len() && is_failed(steps[i].conclusion) && forall|k: int|
                from <= k < i ==> !is_failed(#[trigger] steps[k].conclusion),
            None => forall|k: int|
                from <= k < steps.len() ==> !is_failed(#[trigger] steps[k].conclusion),
        },
    decreases steps.len() - from,
{
    if from < steps.len() && !is_failed(steps[from].conclusion) {
        lemma_first_failed_index(steps, from + 1);
    }
}

/// A step of a job has failed.
pub open spec fn has_failure(job: JobView) -> bool {
    exists|k: int| 0 <= k < job.steps.len() && is_failed(#[trigger] job.steps[k].conclusion)
}

/// Where a step is found to have failed, it is one that did, no step before it in its job did, and
/// no job before that one has a step that did.
pub open spec fn is_first_failure(
    jobs: Seq<JobView>,
    from: int,
    step: FailedStepRefView,
    at: (int, int),
) -> bool {
    &&& from <= at.0 < jobs.len()
    &&& 0 <= at.1 < jobs[at.0].steps.len()
    &&& is_failed(jobs[at.0].steps[at.1].conclusion)
    &&& step.job_id == jobs[at.0].id
    &&& step.job_name == jobs[at.0].name
    &&& step.step_name == jobs[at.0].steps[at.1].name
    &&& forall|j: int| from <= j < at.0 ==> !has_failure(#[trigger] jobs[j])
    &&& forall|k: int| 0 <= k < at.1 ==> !is_failed(#[trigger] jobs[at.0].steps[k].conclusion)
}

proof fn lemma_first_failed_from(jobs: Seq<JobView>, from: int) -> (at: (int, int))
    requires
        0 <= from,
    ensures
        match first_failed_from(jobs, from) {
            Some(step) => is_first_failure(jobs, from, step, at),
            None => forall|j: int| from <= j < jobs.len() ==> !has_failure(#[trigger] jobs[j]),
        },
    decreases jobs.len() - from,
{
    if from >= jobs.len() {
        (0, 0)
    } else {
        lemma_first_failed_index(jobs[from].steps, 0);
        match first_failed_index(jobs[from].steps, 0) {
            Some(k) => (from, k),
            None => {
                assert(!has_failure(jobs[from]));
                lemma_first_failed_from(jobs, from + 1)
            },
        }
    }
}

/// The first failed step of a run is the first of the first job that has one. There is none exactly
/// where no known job has a failed step.
pub proof fn first_failed_step_is_the_first(run: WorkflowRunView) -> (at: (int, int))
    ensures
        match (run.jobs.known(), run.first_failed_step()) {
            (Some(jobs), Some(step)) => is_first_failure(jobs, 0, step, at),
            (Some(jobs), None) => forall|j: int|
                0 <= j < jobs.len() ==> !has_failure(#[trigger] jobs[j]),
            (None, step) => step is None,
        },
{
    match run.jobs.known() {
        Some(jobs) => lemma_first_failed_from(jobs, 0),
        None => (0, 0),
    }
}

/// The lines that the first `n` jobs take up: one for each job, and one for each of its steps.
pub open spec fn tree_size(jobs: Seq<JobView>, n: int) -> nat
    decreases n,
{
    if n <= 0 {
        0
    } else {
        tree_size(jobs, n - 1) + 1 + jobs[n - 1].steps.len()
    }
}

proof fn lemma_tree_size(jobs: Seq<JobView>, n: int, now: Timestamp)
    ensures
        job_tree(jobs, n, now).len() == tree_size(jobs, n),
    decreases n,
{
    if n > 0 {
        lemma_tree_size(jobs, n - 1, now);
    }
}

/// Each known job of a run has its line, after those of the jobs before it and their steps, and
/// each of its steps has its line below. The branch of the last one of either leads no further.
pub proof fn every_step_has_its_line(
    jobs: Seq<JobView>,
    n: int,
    now: Timestamp,
    i: int,
    k: int,
)
    requires
        0 <= i < n <= jobs.len(),
    ensures
        job_tree(jobs, n, now).len() == tree_size(jobs, n),
        tree_size(jobs, i) + jobs[i].steps.len() < tree_size(jobs, n),
        job_tree(jobs, n, now)[tree_size(jobs, i) as int] == job_tree_line(
            jobs[i],
            i == jobs.len() - 1,
            now,
        ),
        0 <= k < jobs[i].steps.len() ==> job_tree(jobs, n, now)[tree_size(jobs, i) + 1 + k]
            == step_tree_line(
            jobs[i].steps[k],
            i == jobs.len() - 1,
            k == jobs[i].steps.len() - 1,
            now,
        ),
    decreases n,
{
    lemma_tree_size(jobs, n, now);
    lemma_tree_size(jobs, n - 1, now);
    if i < n - 1 {
        every_step_has_its_line(jobs, n - 1, now, i, k);
    }
}

/// The pane of jobs always has something to show, and the tree of known jobs stands below one title.
pub proof fn breakdown_is_never_empty(run: WorkflowRunView, now: Timestamp)
    ensures
        run.breakdown(now).len() >= 1,
        run.jobs.known() matches Some(jobs) ==> jobs.len() > 0 ==> run.breakdown(now).len()
            == 1 + tree_size(jobs, jobs.len() as int),
        run.jobs.known() matches Some(jobs) ==> jobs.len() > 0 ==> run.breakdown(now).skip(1)
            == job_tree(jobs, jobs.len() as int, now),
{
    if let Some(jobs) = run.jobs.known() {
        lemma_tree_size(jobs, jobs.len() as int, now);
        if jobs.len() > 0 {
            assert(run.breakdown(now).skip(1) =~= job_tree(jobs, jobs.len() as int, now));
        }
    }
}

/// So does the pane of the log of the failed step.
pub proof fn failed_log_is_never_empty(run: WorkflowRunView)
    ensures
        run.failed_log().len() >= 1,
{
}

/// The three pieces of a line of the tree: branches and duration in dark grey, and between them the
/// text in its colour.
pub open spec fn has_pieces(
    line: LineView,
    branches: Seq<char>,
    text: Seq<char>,
    color: Color,
    duration: Seq<char>,
) -> bool {
    match line {
        LineView::Plain { .. } => false,
        LineView::Spans(pieces) => {
            &&& pieces.len() == 3
            &&& pieces[0].text == branches
            &&& pieces[0].style.fg == Some(Color::DarkGray) && !pieces[0].style.bold
            &&& pieces[1].text == text
            &&& pieces[1].style.fg == Some(color) && !pieces[1].style.bold
            &&& pieces[2].text == " "@ + duration
            &&& pieces[2].style.fg == Some(Color::DarkGray) && !pieces[2].style.bold
        },
    }
}

proof fn lemma_tree_line(
    branches: Seq<char>,
    text: Seq<char>,
    duration: Seq<char>,
    color: Color,
)
    ensures
        has_pieces(tree_line(branches, text, duration, color), branches, text, color, duration),
{
}

/// Where the lines of a job and of one of its steps stand among those of their run.
proof fn lemma_lines_of_job(run: WorkflowRunView, jobs: Seq<JobView>, now: Timestamp, i: int, k: int)
    requires
        run.jobs.known() == Some(jobs),
        0 <= i < jobs.len(),
    ensures
        run.breakdown(now)[1 + tree_size(jobs, i) as int] == job_tree_line(
            jobs[i],
            i == jobs.len() - 1,
            now,
        ),
        0 <= k < jobs[i].steps.len() ==> run.breakdown(now)[2 + tree_size(jobs, i) + k]
            == step_tree_line(
            jobs[i].steps[k],
            i == jobs.len() - 1,
            k == jobs[i].steps.len() - 1,
            now,
        ),
{
    every_step_has_its_line(jobs, jobs.len() as int, now, i, k);
    breakdown_is_never_empty(run, now);
    let tree = job_tree(jobs, jobs.len() as int, now);
    let whole = run.breakdown(now);
    let at = tree_size(jobs, i) as int;
    assert(whole.skip(1) == tree);
    assert(whole[1 + at] == tree[at]);
    if 0 <= k < jobs[i].steps.len() {
        assert(whole[1 + (at + 1 + k)] == tree[at + 1 + k]);
    }
}

/// The line of a job shows the symbol of its own state and end, in the colour of that symbol, then a
/// space and its own name. How long it took stands behind: until now for one in progress, else until
/// it was completed, and nothing where it was not.
pub proof fn job_lines_show_their_job(
    run: WorkflowRunView,
    jobs: Seq<JobView>,
    now: Timestamp,
    i: int,
)
    requires
        run.jobs.known() == Some(jobs),
        0 <= i < jobs.len(),
    ensures
        ({
            let line = run.breakdown(now)[1 + tree_size(jobs, i) as int];
            let job = jobs[i];
            let (symbol, color) = job_status_symbol(job.status, job.conclusion);
            has_pieces(
                line,
                if i == jobs.len() - 1 {
                    "└─ "@
                } else {
                    "├─ "@
                },
                symbol + " "@ + job.name,
                color,
                if job.status == Status::InProgress {
                    duration_words(job.started_at, now)
                } else if job.completed_at is Some {
                    duration_words(job.started_at, job.completed_at->0)
                } else {
                    seq![]
                },
            )
        }),
{
    lemma_lines_of_job(run, jobs, now, i, 0);
    let job = jobs[i];
    let (symbol, color) = job_status_symbol(job.status, job.conclusion);
    lemma_tree_line(
        if i == jobs.len() - 1 {
            "└─ "@
        } else {
            "├─ "@
        },
        symbol + " "@ + job.name,
        job_time(job, now),
        color,
    );
}

/// The line of a step shows the symbol of its own state and end, in the colour of that symbol, then a
/// space and its own name. How long it took stands behind: until now for one in progress, else until
/// it was completed, and nothing where it was not, or never began.
pub proof fn step_lines_show_their_step(
    run: WorkflowRunView,
    jobs: Seq<JobView>,
    now: Timestamp,
    i: int,
    k: int,
)
    requires
        run.jobs.known() == Some(jobs),
        0 <= i < jobs.len(),
        0 <= k < jobs[i].steps.len(),
    ensures
        ({
            let line = run.breakdown(now)[2 + tree_size(jobs, i) + k];
            let step = jobs[i].steps[k];
            let (symbol, color) = job_status_symbol(step.status, step.conclusion);
            let last_step = k == jobs[i].steps.len() - 1;
            has_pieces(
                line,
                if i == jobs.len() - 1 && last_step {
                    "   └─ "@
                } else if i == jobs.len() - 1 {
                    "   ├─ "@
                } else if last_step {
                    "│  └─ "@
                } else {
                    "│  ├─ "@
                },
                symbol + " "@ + step.name,
                color,
                if step.started_at is None {
                    seq![]
                } else if step.status == Status::InProgress {
                    duration_words(step.started_at->0, now)
                } else if step.completed_at is Some {
                    duration_words(step.started_at->0, step.completed_at->0)
                } else {
                    seq![]
                },
            )
        }),
{
    lemma_lines_of_job(run, jobs, now, i, k);
    let step = jobs[i].steps[k];
    let (symbol, color) = job_status_symbol(step.status, step.conclusion);
    lemma_tree_line(
        if i == jobs.len() - 1 {
            if k == jobs[i].steps.len() - 1 {
                "   └─ "@
            } else {
                "   ├─ "@
            }
        } else if k == jobs[i].steps.len() - 1 {
            "│  └─ "@
        } else {
            "│  ├─ "@
        },
        symbol + " "@ + step.name,
        step_time(step, now),
        color,
    );
}

/// A completed step is shown with the warning sign in red exactly where it failed or timed out, and
/// with the tick in green exactly where it succeeded.
pub proof fn failed_steps_look_failed(step: StepView, last_job: bool, last_step: bool, now: Timestamp)
    requires
        step.status == Status::Completed,
    ensures
        ({
            let shown = step_tree_line(step, last_job, last_step, now)->Spans_0[1];
            let failed = step.conclusion == Some(Conclusion::Failure) || step.conclusion == Some(
                Conclusion::TimedOut,
            );
            let succeeded = step.conclusion == Some(Conclusion::Success);
            &&& failed <==> shown.style.fg == Some(Color::Red)
            &&& failed ==> shown.text == "⚠"@ + " "@ + step.name
            &&& succeeded ==> shown.text == "✔"@ + " "@ + step.name && shown.style.fg == Some(
                Color::Green,
            )
            &&& shown.text == "✔"@ + " "@ + step.name ==> succeeded
        }),
{
    reveal_strlit("⚠");
    reveal_strlit("✔");
    reveal_strlit("∅");
    reveal_strlit("⏭");
    reveal_strlit("⏺");
    let shown = step_tree_line(step, last_job, last_step, now)->Spans_0[1];
    assert(shown.text[0] == job_status_symbol(step.status, step.conclusion).0[0]);
    assert(("✔"@ + " "@ + step.name)[0] == '✔');
}

/// Above the tree stands the name of the run with its number in brackets, white and bold. Jobs that
/// are being loaded anew are shown as those that are loaded. Where no jobs are known, one plain line
/// says why, and holds the message of an error in full.
pub proof fn breakdowns_begin_with_their_run(
    run: WorkflowRunView,
    jobs: Seq<JobView>,
    message: Seq<char>,
    now: Timestamp,
)
    ensures
        jobs.len() > 0 ==> run.with_jobs(JobsStateView::Loaded(jobs)).breakdown(now)[0] == (
        LineView::Plain {
            text: run.name + " ("@ + decimal(run.id as nat) + ")"@,
            style: Style { fg: Some(Color::White), bold: true },
        }),
        run.with_jobs(JobsStateView::Reloading(jobs)).breakdown(now) == run.with_jobs(
            JobsStateView::Loaded(jobs),
        ).breakdown(now),
        run.with_jobs(JobsStateView::LoadingError(message)).breakdown(now) == seq![
            LineView::Plain {
                text: "Error loading jobs: "@ + message,
                style: Style { fg: None, bold: false },
            },
        ],
        run.with_jobs(JobsStateView::NotLoaded).breakdown(now) == seq![
            LineView::Plain {
                text: "Loading not started"@,
                style: Style { fg: None, bold: false },
            },
        ],
        run.with_jobs(JobsStateView::Loading).breakdown(now) == seq![
            LineView::Plain { text: "Loading jobs..."@, style: Style { fg: None, bold: false } },
        ],
        run.with_jobs(JobsStateView::Loaded(seq![])).breakdown(now) == seq![
            LineView::Plain {
                text: "No jobs in this run"@,
                style: Style { fg: None, bold: false },
            },
        ],
{
}

/// Jobs are known where they are loaded, or are being loaded anew, and only there.
pub proof fn known_jobs_are_those_loaded(jobs: Seq<JobView>, message: Seq<char>)
    ensures
        JobsStateView::Loaded(jobs).known() == Some(jobs),
        JobsStateView::Reloading(jobs).known() == Some(jobs),
        JobsStateView::NotLoaded.known() is None,
        JobsStateView::Loading.known() is None,
        JobsStateView::LoadingError(message).known() is None,
{
}

/// A step has failed where it ended in a failure, by running out of time, or by waiting for someone
/// to act, and only there.
pub proof fn failures_are_three_ends(conclusion: Option<Conclusion>)
    ensures
        is_failed(conclusion) <==> (conclusion matches Some(end) && (end == Conclusion::Failure
            || end == Conclusion::TimedOut || end == Conclusion::ActionRequired)),
{
}

/// The first failed step of a run, where one is found, names the job and the step that it stands in:
/// it ended as a failure, and no step before it did, in its job or in one before.
pub proof fn no_failure_comes_before_the_first(
    run: WorkflowRunView,
    jobs: Seq<JobView>,
    j: int,
    k: int,
) -> (at: (int, int))
    requires
        run.jobs.known() == Some(jobs),
        0 <= j < jobs.len(),
        0 <= k < jobs[j].steps.len(),
        jobs[j].steps[k].conclusion == Some(Conclusion::Failure) || jobs[j].steps[k].conclusion
            == Some(Conclusion::TimedOut) || jobs[j].steps[k].conclusion == Some(
            Conclusion::ActionRequired,
        ),
    ensures
        run.first_failed_step() == Some(
            FailedStepRefView {
                job_id: jobs[at.0].id,
                job_name: jobs[at.0].name,
                step_name: jobs[at.0].steps[at.1].name,
            },
        ),
        0 <= at.0 < j || (at.0 == j && 0 <= at.1 <= k),
        0 <= at.1 < jobs[at.0].steps.len(),
        is_failed(jobs[at.0].steps[at.1].conclusion),
{
    let at = first_failed_step_is_the_first(run);
    assert(is_failed(jobs[j].steps[k].conclusion));
    assert(has_failure(jobs[j]));
    at
}

/// The log of a failed step stands below a title, white and bold, that names the job and the step.
/// What is not there is told, and the message of an error is shown in full. No line but the title has
/// a style.
pub proof fn failed_logs_are_shown_below_their_step(
    run: WorkflowRunView,
    step: FailedStepRefView,
    lines: Seq<Seq<char>>,
    message: Seq<char>,
    k: int,
)
    ensures
        ({
            let title = LineView::Plain {
                text: step.job_name + " / "@ + step.step_name,
                style: Style { fg: Some(Color::White), bold: true },
            };
            let none = Style { fg: None, bold: false };
            let shown = run.with_log(FailedStepLogStateView::Loaded(step, lines)).failed_log();
            &&& shown[0] == title
            &&& lines.len() > 0 ==> shown.len() == 1 + lines.len()
            &&& 0 <= k < lines.len() ==> shown[1 + k] == (LineView::Plain {
                text: lines[k],
                style: none,
            })
            &&& lines.len() == 0 ==> shown == seq![
                title,
                LineView::Plain { text: "No log lines found for failed step"@, style: none },
            ]
            &&& run.with_log(FailedStepLogStateView::LoadingError(step, message)).failed_log()
                == seq![
                title,
                LineView::Plain { text: "Error loading logs: "@ + message, style: none },
            ]
            &&& run.with_log(FailedStepLogStateView::Loading(step)).failed_log() == seq![
                title,
                LineView::Plain { text: "Loading failed-step logs..."@, style: none },
            ]
            &&& run.with_log(FailedStepLogStateView::NotLoaded).failed_log() == seq![
                LineView::Plain { text: "Log tail not loaded"@, style: none },
            ]
            &&& run.with_log(FailedStepLogStateView::NotAvailable).failed_log() == seq![
                LineView::Plain { text: "No failed step in selected run"@, style: none },
            ]
        }),
{
}

/// The row of a run shows how long ago it was made, its branch, and on one line the symbol of its
/// state and end, its name and its commit, in the colour of the symbol.
pub proof fn rows_show_their_run(run: WorkflowRunView, now: Timestamp)
    ensures
        ({
            let row = run.row(now);
            let (symbol, color) = run_status_symbol(run.status, run.conclusion);
            &&& row.time == relative_time(now, run.created_at)
            &&& row.branch == run.branch
            &&& row.details_lines.len() == 1
            &&& row.details_lines[0] == (LineView::Plain {
                text: symbol + " "@ + run.name + " - "@ + run.commit,
                style: Style { fg: Some(color), bold: false },
            })
        }),
{
}

} // verus!
