//! Runs as they are fetched, before anything is known of their jobs.

use crate::run::{
    runs_view, FailedStepLogState, FailedStepLogStateView, JobsState, JobsStateView, WorkflowRun,
    WorkflowRunView,
};
use crate::status::optional_text;
use crate::time::Timestamp;
use vstd::prelude::*;

verus! {

/// A run as it is fetched.
#[derive(Debug, PartialEq, Eq)]
pub struct FetchedRun {
    pub id: u64,
    pub name: String,
    pub commit: String,
    pub branch: String,
    pub status: String,
    pub conclusion: Option<String>,
    pub created_at: Timestamp,
    pub html_url: String,
}

/// What a `FetchedRun` holds.
pub struct FetchedRunView {
    pub id: u64,
    pub name: Seq<char>,
    pub commit: Seq<char>,
    pub branch: Seq<char>,
    pub status: Seq<char>,
    pub conclusion: Option<Seq<char>>,
    pub created_at: Timestamp,
    pub html_url: Seq<char>,
}

impl View for FetchedRun {
    type V = FetchedRunView;

    open spec fn view(&self) -> FetchedRunView {
        FetchedRunView {
            id: self.id,
            name: self.name@,
            commit: self.commit@,
            branch: self.branch@,
            status: self.status@,
            conclusion: optional_text(self.conclusion),
            created_at: self.created_at,
            html_url: self.html_url@,
        }
    }
}

/// What a list of fetched runs holds.
pub open spec fn fetched_view(runs: Seq<FetchedRun>) -> Seq<FetchedRunView> {
    runs.map_values(|r: FetchedRun| r@)
}

/// The runs of all branches together, in the order of the branches.
pub open spec fn all_runs(branches: Seq<Vec<FetchedRun>>) -> Seq<FetchedRunView>
    decreases branches.len(),
{
    if branches.len() == 0 {
        seq![]
    } else {
        all_runs(branches.drop_last()) + fetched_view(branches.last()@)
    }
}

/// The runs stand in the order of their numbers, the largest first.
pub open spec fn newest_first(runs: Seq<FetchedRunView>) -> bool {
    forall|i: int, j: int| 0 <= i <= j < runs.len() ==> runs[i].id >= runs[j].id
}

/// The last of the known runs that has a number.
pub open spec fn last_known(known: Seq<WorkflowRunView>, id: u64) -> Option<WorkflowRunView>
    decreases known.len(),
{
    if known.len() == 0 {
        None
    } else if known.last().id == id {
        Some(known.last())
    } else {
        last_known(known.drop_last(), id)
    }
}

/// A fetched run, with what is known of the jobs and the log of the run of that number.
pub open spec fn with_known_details(
    run: FetchedRunView,
    known: Seq<WorkflowRunView>,
) -> WorkflowRunView {
    WorkflowRunView {
        id: run.id,
        name: run.name,
        commit: run.commit,
        branch: run.branch,
        status: run.status,
        conclusion: run.conclusion,
        jobs: match last_known(known, run.id) {
            Some(old) => old.jobs,
            None => JobsStateView::NotLoaded,
        },
        failed_step_log: match last_known(known, run.id) {
            Some(old) => old.failed_step_log,
            None => FailedStepLogStateView::NotLoaded,
        },
        created_at: run.created_at,
        html_url: run.html_url,
    }
}

fn find_last_known(known: &Vec<WorkflowRun>, id: u64) -> (r: Option<usize>)
    ensures
        match r {
            Some(i) => i < known.len() && last_known(runs_view(known@), id) == Some(
                known@[i as int]@,
            ),
            None => last_known(runs_view(known@), id) is None,
        },
{
    let ghost view = runs_view(known@);
    let mut n: usize = known.len();
    assert(view.take(n as int) =~= view);
    while n > 0
        invariant
            n <= known.len(),
            view == runs_view(known@),
            last_known(view, id) == last_known(view.take(n as int), id),
        decreases n,
    {
        assert(view.take(n as int).drop_last() =~= view.take(n - 1));
        if known[n - 1].id == id {
            return Some(n - 1);
        }
        n = n - 1;
    }
    None
}

/// Fills fetched runs with what is known of their jobs and logs.
pub fn detailed_runs(fetched: Vec<FetchedRun>, known: &Vec<WorkflowRun>) -> (r: Vec<WorkflowRun>)
    ensures
        runs_view(r@) == fetched_view(fetched@).map_values(
            |run: FetchedRunView| with_known_details(run, runs_view(known@)),
        ),
{
    let ghost whole = fetched_view(fetched@).map_values(
        |run: FetchedRunView| with_known_details(run, runs_view(known@)),
    );
    let mut r: Vec<WorkflowRun> = Vec::new();
    for run in it: fetched
        invariant
            it.seq() == fetched@,
            whole == fetched_view(fetched@).map_values(
                |run: FetchedRunView| with_known_details(run, runs_view(known@)),
            ),
            runs_view(r@) == whole.take(it.index()),
    {
        let ghost i = it.index();
        assert(fetched_view(fetched@)[i] == run@);
        let (jobs, failed_step_log): (JobsState, FailedStepLogState) = match find_last_known(
            known,
            run.id,
        ) {
            Some(k) => (known[k].jobs.clone(), known[k].failed_step_log.clone()),
            None => (JobsState::NotLoaded, FailedStepLogState::NotLoaded),
        };
        let ghost before = r@;
        r.push(
            WorkflowRun {
                id: run.id,
                name: run.name,
                commit: run.commit,
                branch: run.branch,
                status: run.status,
                conclusion: run.conclusion,
                jobs,
                failed_step_log,
                created_at: run.created_at,
                html_url: run.html_url,
            },
        );
        assert(r@.last()@ == whole[i]);
        assert(runs_view(r@) =~= runs_view(before).push(whole[i]));
        assert(whole.take(i + 1) =~= whole.take(i).push(whole[i]));
    }
    assert(whole.take(whole.len() as int) =~= whole);
    r
}

fn insert_newest_first(sorted: &mut Vec<FetchedRun>, run: FetchedRun)
    requires
        newest_first(fetched_view(old(sorted)@)),
    ensures
        newest_first(fetched_view(final(sorted)@)),
        fetched_view(final(sorted)@).to_multiset() == fetched_view(
            old(sorted)@,
        ).to_multiset().insert(run@),
{
    let ghost view = fetched_view(sorted@);
    let ghost new = run@;
    let mut at: usize = sorted.len();
    while at > 0 && sorted[at - 1].id < run.id
        invariant
            at <= sorted.len(),
            view == fetched_view(sorted@),
            newest_first(view),
            forall|k: int| at <= k < view.len() ==> view[k].id < run.id,
        decreases at,
    {
        assert(view[at - 1] == sorted@[at - 1]@);
        at = at - 1;
    }
    proof {
        if at > 0 {
            assert(view[at - 1] == sorted@[at - 1]@);
        }
        vstd::seq_lib::to_multiset_insert(view, at as int, new);
    }
    sorted.insert(at, run);
    assert(fetched_view(sorted@) =~= view.insert(at as int, new));
    assert forall|i: int, j: int| 0 <= i <= j < view.len() + 1 implies view.insert(
        at as int,
        new,
    )[i].id >= view.insert(at as int, new)[j].id by {
        if i < at && at > 0 {
            assert(view[i].id >= view[at - 1].id);
        }
    }
}

/// Puts the runs of several branches together, the one with the largest number first.
pub fn merged_runs(branches: Vec<Vec<FetchedRun>>) -> (r: Vec<FetchedRun>)
    ensures
        newest_first(fetched_view(r@)),
        fetched_view(r@).to_multiset() == all_runs(branches@).to_multiset(),
{
    let mut r: Vec<FetchedRun> = Vec::new();
    assert(fetched_view(r@) =~= seq![]);
    assert(branches@.take(0) =~= seq![]);
    for branch in it: branches
        invariant
            it.seq() == branches@,
            newest_first(fetched_view(r@)),
            fetched_view(r@).to_multiset() == all_runs(
                branches@.take(it.index()),
            ).to_multiset(),
    {
        let ghost done = all_runs(branches@.take(it.index()));
        let ghost view = fetched_view(branch@);
        assert(branches@.take(it.index() + 1).drop_last() =~= branches@.take(it.index()));
        assert(done + view.take(0) =~= done);
        for run in inner: branch
            invariant
                inner.seq() == branch@,
                view == fetched_view(branch@),
                newest_first(fetched_view(r@)),
                fetched_view(r@).to_multiset() == (done + view.take(inner.index())).to_multiset(),
        {
            assert(done + view.take(inner.index() + 1) =~= (done + view.take(
                inner.index(),
            )).push(run@));
            proof {
                vstd::seq_lib::to_multiset_build(done + view.take(inner.index()), run@);
            }
            insert_newest_first(&mut r, run);
        }
        assert(view.take(view.len() as int) =~= view);
    }
    assert(branches@.take(branches@.len() as int) =~= branches@);
    r
}

/// A run that was known keeps what was known of its jobs and its log when it is fetched again.
pub proof fn fetching_again_keeps_details(
    run: FetchedRunView,
    known: Seq<WorkflowRunView>,
    i: int,
)
    requires
        0 <= i < known.len(),
        known[i].id == run.id,
        forall|k: int| i < k < known.len() ==> known[k].id != run.id,
    ensures
        with_known_details(run, known).jobs == known[i].jobs,
        with_known_details(run, known).failed_step_log == known[i].failed_step_log,
    decreases known.len(),
{
    if i < known.len() - 1 {
        assert(known.last() == known[known.len() - 1]);
        fetching_again_keeps_details(run, known.drop_last(), i);
    }
}

/// A run that is not known begins with nothing loaded.
pub proof fn new_runs_begin_unloaded(run: FetchedRunView, known: Seq<WorkflowRunView>)
    requires
        forall|k: int| 0 <= k < known.len() ==> known[k].id != run.id,
    ensures
        with_known_details(run, known).jobs == JobsStateView::NotLoaded,
        with_known_details(run, known).failed_step_log == FailedStepLogStateView::NotLoaded,
    decreases known.len(),
{
    if known.len() > 0 {
        assert(known.last() == known[known.len() - 1]);
        new_runs_begin_unloaded(run, known.drop_last());
    }
}

/// A fetched run keeps everything that it was fetched with, whatever was known before. Only its jobs
/// and its log come from what was known.
pub proof fn fetched_runs_keep_what_was_fetched(run: FetchedRunView, known: Seq<WorkflowRunView>)
    ensures
        ({
            let detailed = with_known_details(run, known);
            &&& detailed.id == run.id
            &&& detailed.name == run.name
            &&& detailed.commit == run.commit
            &&& detailed.branch == run.branch
            &&& detailed.status == run.status
            &&& detailed.conclusion == run.conclusion
            &&& detailed.created_at == run.created_at
            &&& detailed.html_url == run.html_url
        }),
{
}

/// Branches that are put together have the runs of the one, then those of the other, and a branch
/// alone has its own: no run is lost, none is made up, and none is counted twice.
pub proof fn all_runs_are_those_of_the_branches(
    a: Seq<Vec<FetchedRun>>,
    b: Seq<Vec<FetchedRun>>,
    branch: Vec<FetchedRun>,
)
    ensures
        all_runs(a + b) == all_runs(a) + all_runs(b),
        all_runs(seq![branch]).len() == branch@.len(),
        forall|i: int|
            0 <= i < branch@.len() ==> #[trigger] all_runs(seq![branch])[i] == branch@[i]@,
        all_runs(seq![]).len() == 0,
    decreases b.len(),
{
    assert(seq![branch].drop_last() =~= seq![]);
    assert(all_runs(seq![branch].drop_last()) =~= seq![]);
    assert(all_runs(seq![branch]) =~= fetched_view(branch@));
    if b.len() == 0 {
        assert(a + b =~= a);
        assert(all_runs(a) + all_runs(b) =~= all_runs(a));
    } else {
        all_runs_are_those_of_the_branches(a, b.drop_last(), branch);
        assert((a + b).drop_last() =~= a + b.drop_last());
        assert(all_runs(a + b) =~= all_runs(a) + all_runs(b));
    }
}

/// In a list with the newest first no run has a larger number than the one before it; and a list in
/// which none has is such a list.
pub proof fn newest_first_means_falling_numbers(runs: Seq<FetchedRunView>, i: int)
    ensures
        newest_first(runs) && 0 < i < runs.len() ==> runs[i].id <= runs[i - 1].id,
        (forall|k: int| 0 < k < runs.len() ==> (#[trigger] runs[k]).id <= runs[k - 1].id)
            ==> newest_first(runs),
{
    if forall|k: int| 0 < k < runs.len() ==> (#[trigger] runs[k]).id <= runs[k - 1].id {
        assert forall|a: int, b: int| 0 <= a <= b < runs.len() implies runs[a].id >= runs[b].id by {
            lemma_falling(runs, a, b);
        }
    }
}

proof fn lemma_falling(runs: Seq<FetchedRunView>, a: int, b: int)
    requires
        forall|k: int| 0 < k < runs.len() ==> (#[trigger] runs[k]).id <= runs[k - 1].id,
        0 <= a <= b < runs.len(),
    ensures
        runs[a].id >= runs[b].id,
    decreases b - a,
{
    if a < b {
        lemma_falling(runs, a, b - 1);
        assert(runs[b].id <= runs[b - 1].id);
    }
}

} // verus!
