//! What holds of the screen, whatever the list is.

use crate::line::{LineView, SpanView, Style};
use crate::list::{ListView, LoadingStateView};
use crate::log_tail::last_lines;
use crate::run::{FailedStepLogStateView, JobsStateView, RunRowView, WorkflowRunView};
use crate::screen::{
    column_widths, columns, columns_fit, display_width, header_texts, header_widths,
    key_help_spans, largest, row_widths, single_lines_are_never_cut_off, space_for_rows,
    throbber_glyph, used_height, visible_height, Constraint, JobsPaneView, Rect, TableBodyView,
};
use crate::status::Color;
use crate::time::Timestamp;
use vstd::prelude::*;

verus! {

/// The largest of some widths is no smaller than any of them, and is one of them.
pub proof fn largest_is_the_maximum(least: usize, widths: Seq<usize>) -> (at: int)
    ensures
        largest(least, widths) >= least,
        forall|i: int| 0 <= i < widths.len() ==> #[trigger] widths[i] <= largest(least, widths),
        largest(least, widths) == least || (0 <= at < widths.len() && widths[at] == largest(
            least,
            widths,
        )),
    decreases widths.len(),
{
    if widths.len() == 0 {
        0
    } else {
        let front = widths.drop_last();
        let at = largest_is_the_maximum(least, front);
        assert forall|i: int| 0 <= i < widths.len() implies #[trigger] widths[i] <= largest(
            least,
            widths,
        ) by {
            if i < front.len() {
                assert(front[i] == widths[i]);
            }
        }
        if largest(least, front) < widths.last() {
            widths.len() - 1
        } else {
            at
        }
    }
}

/// The column of ages is as wide as the widest of its header and the ages, and one cell more. That of
/// branches is as wide as the widest of its header and the branches, but at most 25 cells, and one cell
/// more. The last column has at least 20 cells.
pub proof fn columns_hold_their_texts(
    headers: Seq<usize>,
    rows: Seq<(usize, usize)>,
) -> (r: (usize, usize, int, int))
    requires
        headers.len() >= 2,
        rows.len() > 0,
        headers[0] < 65535,
        forall|i: int| 0 <= i < rows.len() ==> (#[trigger] rows[i]).0 < 65535,
    ensures
        ({
            let (time, branch, t, b) = r;
            &&& columns(headers, rows).len() == 3
            &&& columns(headers, rows)[0] == Constraint::Length((time + 1) as u16)
            &&& columns(headers, rows)[1] == Constraint::Length(
                (if branch > 25 {
                    26
                } else {
                    branch + 1
                }) as u16,
            )
            &&& columns(headers, rows)[2] == Constraint::Min(20)
            &&& time >= headers[0] && branch >= headers[1]
            &&& forall|i: int| 0 <= i < rows.len() ==> (#[trigger] rows[i]).0 <= time && rows[i].1
                <= branch
            &&& time == headers[0] || (0 <= t < rows.len() && rows[t].0 == time)
            &&& branch == headers[1] || (0 <= b < rows.len() && rows[b].1 == branch)
        }),
{
    let ages = rows.map_values(|r: (usize, usize)| r.0);
    let names = rows.map_values(|r: (usize, usize)| r.1);
    let t = largest_is_the_maximum(headers[0], ages);
    let b = largest_is_the_maximum(headers[1], names);
    let time = largest(headers[0], ages);
    let branch = largest(headers[1], names);
    assert forall|i: int| 0 <= i < rows.len() implies (#[trigger] rows[i]).0 <= time && rows[i].1
        <= branch by {
        assert(ages[i] <= time);
        assert(names[i] <= branch);
    }
    if 0 <= t < ages.len() {
        assert(ages[t] == rows[t].0);
    }
    if 0 <= b < names.len() {
        assert(names[b] == rows[b].1);
    }
    (time, branch, t, b)
}

/// Without rows the columns are as wide as their headers, and one cell more, without a limit. There is
/// no column for a header that is not there but the last.
pub proof fn columns_without_rows_hold_their_headers(time: usize, branch: usize)
    requires
        time < 65535,
        branch < 65535,
    ensures
        columns(seq![time, branch], seq![]) == seq![
            Constraint::Length((time + 1) as u16),
            Constraint::Length((branch + 1) as u16),
            Constraint::Min(20),
        ],
        columns(seq![time], seq![]) == seq![
            Constraint::Length((time + 1) as u16),
            Constraint::Min(20),
        ],
        columns(seq![], seq![]) == seq![Constraint::Min(20)],
{
    let none = Seq::<(usize, usize)>::empty();
    assert(none.map_values(|r: (usize, usize)| r.0) =~= seq![]);
    assert(none.map_values(|r: (usize, usize)| r.1) =~= seq![]);
    assert(columns(seq![time, branch], seq![]) =~= seq![
        Constraint::Length((time + 1) as u16),
        Constraint::Length((branch + 1) as u16),
        Constraint::Min(20),
    ]);
    assert(columns(seq![time], seq![]) =~= seq![
        Constraint::Length((time + 1) as u16),
        Constraint::Min(20),
    ]);
    assert(columns(seq![], seq![]) =~= seq![Constraint::Min(20)]);
}

/// What is measured of a table: its first two headers, and of every row the age and the branch.
pub proof fn measures_are_those_of_the_texts(
    headers: Seq<Seq<char>>,
    rows: Seq<RunRowView>,
    i: int,
)
    ensures
        column_widths(headers, rows) == columns(header_widths(headers), row_widths(rows)),
        row_widths(rows).len() == rows.len(),
        0 <= i < rows.len() ==> row_widths(rows)[i].0 == display_width(rows[i].time),
        0 <= i < rows.len() ==> row_widths(rows)[i].1 == display_width(rows[i].branch),
        headers.len() <= 2 ==> header_widths(headers).len() == headers.len(),
        headers.len() > 2 ==> header_widths(headers).len() == 2,
        0 <= i < 2 && i < headers.len() ==> header_widths(headers)[i] == display_width(headers[i]),
{
}

/// The lines of the rows from `offset` up to, and without, `i`.
pub open spec fn lines_between(heights: Seq<usize>, offset: int, i: int) -> int
    decreases i,
{
    if i <= 0 || i <= offset {
        0
    } else {
        lines_between(heights, offset, i - 1) + heights[i - 1]
    }
}

/// A row that is scrolled past, or that fits below those before it, has all its lines. The one that
/// does not fit any more has those that are left, and rows below the space have theirs.
pub proof fn rows_have_their_lines_as_far_as_they_fit(
    heights: Seq<usize>,
    offset: int,
    space: int,
    i: int,
)
    requires
        0 <= offset,
        0 <= i < heights.len(),
    ensures
        ({
            let above = lines_between(heights, offset, i);
            let shown = visible_height(heights, offset, space, i);
            &&& i < offset ==> shown == heights[i]
            &&& above + heights[i] <= space ==> shown == heights[i]
            &&& above >= space ==> shown == heights[i]
            &&& i >= offset && above < space && above + heights[i] > space ==> shown == space - above
        }),
{
    lemma_used_height(heights, offset, space, i);
}

proof fn lemma_used_height(heights: Seq<usize>, offset: int, space: int, i: int)
    requires
        0 <= offset,
        0 <= i <= heights.len(),
    ensures
        ({
            let used = used_height(heights, offset, space, i);
            let above = lines_between(heights, offset, i);
            &&& used == above || (used >= space && above >= space)
        }),
    decreases i,
{
    if i > 0 {
        lemma_used_height(heights, offset, space, i - 1);
    }
}

/// The header and the border take up three lines of a pane.
pub proof fn headers_and_borders_take_three_lines(pane_height: u16)
    ensures
        space_for_rows(pane_height) + 3 == pane_height,
{
}

/// The pane of runs has 62 of 100 columns, to the nearest one, and the pane of jobs has the rest, at
/// its right. While the latter is hidden, the former has all.
pub proof fn panes_divide_the_columns(list: ListView, area: Rect)
    requires
        area.x + area.width <= u16::MAX,
    ensures
        ({
            let (runs, jobs) = list.panes(area);
            &&& jobs is Some <==> list.pane_shown
            &&& !list.pane_shown ==> runs == area
            &&& jobs matches Some(jobs) ==> {
                &&& 62 * area.width - 50 < 100 * runs.width <= 62 * area.width + 50
                &&& runs.x == area.x && jobs.x == runs.x + runs.width
                &&& runs.width + jobs.width == area.width
                &&& runs.y == area.y && runs.height == area.height
                &&& jobs.y == area.y && jobs.height == area.height
            }
        }),
{
}

/// While runs are being loaded the throbber stands in the title, after a failure a word that says so,
/// and else nothing.
pub proof fn titles_tell_how_loading_goes(list: ListView, message: Seq<char>)
    ensures
        list.loading is Loading ==> list.title_status() == Some(
            seq![throbber_glyph(list.throbber_index as int)],
        ),
        list.loading is Error ==> list.title_status() == Some("Error"@),
        list.loading is Idle || list.loading is Loaded ==> list.title_status() is None,
        (ListView { loading: LoadingStateView::Error(message), ..list }).empty_message() == message,
{
}

/// Where there are no runs, a message stands in their pane: that of the error, where loading failed.
/// Else every run has its row, in the order of the list, and each is one line high, however high the
/// pane is and whichever rows are shown.
pub proof fn every_run_has_its_row(list: ListView, pane_height: u16, now: Timestamp, i: int)
    ensures
        list.runs.len() == 0 ==> list.table_body(pane_height, now) == TableBodyView::Message(
            match list.loading {
                LoadingStateView::Error(message) => message,
                LoadingStateView::Loading => "Loading workflow runs from GitHub..."@,
                LoadingStateView::Idle => "No workflow runs found."@,
                LoadingStateView::Loaded => "No workflow runs available."@,
            },
        ),
        list.runs.len() > 0 ==> (list.table_body(pane_height, now) matches TableBodyView::Rows {
            widths,
            rows,
        } && rows.len() == list.runs.len() && widths == column_widths(
            header_texts(),
            list.rows(now),
        ) && (0 <= i < rows.len() ==> rows[i].row == list.runs[i].row(now) && rows[i].height == 1)),
        list.rows(now).len() == list.runs.len(),
        0 <= i < list.runs.len() ==> list.rows(now)[i] == list.runs[i].row(now),
{
    if 0 <= i < list.runs.len() {
        single_lines_are_never_cut_off(
            list.runs.len(),
            list.table.offset as int,
            space_for_rows(pane_height),
            i,
        );
    }
}

/// The headers of the table.
pub proof fn headers_are_three()
    ensures
        header_texts().len() == 3,
        header_texts()[0] == "Time"@,
        header_texts()[1] == "Branch"@,
        header_texts()[2] == "Run"@,
{
}

/// The last lines of a text are all of them, or so many from the end.
pub proof fn last_lines_come_from_the_end(lines: Seq<LineView>, n: nat, k: int)
    ensures
        lines.len() <= n ==> last_lines(lines, n) == lines,
        lines.len() > n ==> last_lines(lines, n).len() == n,
        lines.len() > n && 0 <= k < n ==> last_lines(lines, n)[n - 1 - k] == lines[lines.len() - 1
            - k],
{
}

/// The pane of jobs shows the selected run and no other: the lines are the breakdown of that run. The log
/// stands below exactly where a step of it failed and the jobs with their border leave a row, and its
/// lines are the last ones of the log of that run, as many as fit within the border.
pub proof fn the_pane_shows_the_selected_run(list: ListView, area: Rect, now: Timestamp, i: int)
    requires
        list.table.selected matches Some(row) && row == i,
        0 <= i < list.runs.len(),
        list.runs[i].breakdown(now).len() <= 65535,
        area.y + area.height <= u16::MAX,
    ensures
        ({
            let run = list.runs[i];
            let pane = list.jobs_pane(area, now);
            let jobs = run.breakdown(now);
            let lines = run.failed_log();
            &&& pane.lines == jobs
            &&& pane.log is Some <==> run.first_failed_step() is Some && jobs.len() + 2
                < area.height
            &&& pane.log is None ==> pane.area == area
            &&& pane.log matches Some(log) ==> {
                &&& pane.area == (Rect { height: (jobs.len() + 2) as u16, ..area })
                &&& log.area == (Rect {
                    y: (area.y + jobs.len() + 2) as u16,
                    height: (area.height - jobs.len() - 2) as u16,
                    ..area
                })
                &&& log.area.height <= 2 || lines.len() <= log.area.height - 2 ==> log.lines
                    == lines
                &&& log.area.height > 2 && lines.len() > log.area.height - 2 ==> log.lines
                    == lines.skip(lines.len() - (log.area.height - 2))
            }
        }),
{
    let count = list.runs[i].breakdown(now).len();
    assert(list.selected_index() == Some(i));
    assert(count as usize as u16 == count);
}

/// Lists that agree on the selected run show the same in the pane of jobs, whatever their other runs
/// are, and at whichever row it stands.
pub proof fn other_runs_do_not_show_in_the_pane(
    one: ListView,
    other: ListView,
    i: int,
    j: int,
    area: Rect,
    now: Timestamp,
)
    requires
        one.table.selected matches Some(row) && row == i,
        0 <= i < one.runs.len(),
        other.table.selected matches Some(row) && row == j,
        0 <= j < other.runs.len(),
        one.runs[i] == other.runs[j],
    ensures
        one.jobs_lines(now) == other.jobs_lines(now),
        one.jobs_lines(now) == one.runs[i].breakdown(now),
        one.jobs_pane(area, now) == other.jobs_pane(area, now),
        one.jobs_pane(area, now).lines == one.runs[i].breakdown(now),
{
    assert(one.selected_index() == Some(i));
    assert(other.selected_index() == Some(j));
}

/// Without a selected run the pane of jobs says so, and no log stands below.
pub proof fn no_selection_is_told(list: ListView, area: Rect, now: Timestamp)
    requires
        list.table.selected matches Some(row) ==> row >= list.runs.len(),
    ensures
        list.jobs_pane(area, now) == (JobsPaneView {
            area,
            lines: seq![
                LineView::Plain {
                    text: "No workflow selected"@,
                    style: Style { fg: None, bold: false },
                },
            ],
            log: None,
        }),
        list.selected_index() is None,
{
}

/// What is known of the jobs and the log of a run shows in no row, and its log shows in no line of its
/// jobs.
pub proof fn rows_do_not_depend_on_details(
    run: WorkflowRunView,
    jobs: JobsStateView,
    log: FailedStepLogStateView,
    now: Timestamp,
)
    ensures
        run.with_jobs(jobs).row(now) == run.row(now),
        run.with_log(log).row(now) == run.row(now),
        run.with_log(log).breakdown(now) == run.breakdown(now),
{
}

/// In the line that explains the keys, the keys are white and what they do is plain, and each key stands
/// before what it does.
pub proof fn keys_are_white(i: int)
    requires
        0 <= i < 8,
    ensures
        key_help_spans().len() == 8,
        !key_help_spans()[i].style.bold,
        i % 2 == 0 ==> key_help_spans()[i].style.fg == Some(Color::White),
        i % 2 == 1 ==> key_help_spans()[i].style.fg is None,
        key_help_spans().map_values(|s: SpanView| s.text) == seq![
            "j/k"@,
            " up/down  "@,
            "space"@,
            " toggle job pane  "@,
            "enter"@,
            " open browser  "@,
            "q"@,
            " quit"@,
        ],
{
    assert(key_help_spans().map_values(|s: SpanView| s.text) =~= seq![
        "j/k"@,
        " up/down  "@,
        "space"@,
        " toggle job pane  "@,
        "enter"@,
        " open browser  "@,
        "q"@,
        " quit"@,
    ]);
}

/// Columns whose texts are all narrower than 65535 cells fit. A column of ages with a text of just that
/// width does not, nor does one of branches with such a header and no rows.
pub proof fn narrow_columns_fit(headers: Seq<usize>, rows: Seq<(usize, usize)>, i: int)
    requires
        headers.len() >= 2,
        headers[0] <= 65535,
        headers[1] <= 65535,
        forall|k: int| 0 <= k < rows.len() ==> (#[trigger] rows[k]).0 <= 65535,
    ensures
        headers[0] < 65535 && headers[1] < 65535 && (forall|k: int|
            0 <= k < rows.len() ==> (#[trigger] rows[k]).0 < 65535) ==> columns_fit(headers, rows),
        headers[0] == 65535 ==> !columns_fit(headers, rows),
        0 <= i < rows.len() && rows[i].0 == 65535 ==> !columns_fit(headers, rows),
        headers[1] == 65535 && rows.len() == 0 ==> !columns_fit(headers, rows),
{
    let ages = rows.map_values(|r: (usize, usize)| r.0);
    let names = rows.map_values(|r: (usize, usize)| r.1);
    let t = largest_is_the_maximum(headers[0], ages);
    let b = largest_is_the_maximum(headers[1], names);
    if 0 <= t < ages.len() {
        assert(ages[t] == rows[t].0);
    }
    if 0 <= i < rows.len() {
        assert(ages[i] == rows[i].0);
        assert(ages[i] <= largest(headers[0], ages));
    }
}

} // verus!
