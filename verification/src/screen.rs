//! What is shown where: the panes of the screen and what stands in them.

use crate::line::{lines_view, one_line, plain_line, Line, LineView, Span, SpanView, Style};
use crate::list::{ListView, LoadingState, LoadingStateView, WorkflowRunsListState};
use crate::log_tail::last_lines;
use crate::run::{RunRow, RunRowView, WorkflowRun, WorkflowRunView};
use crate::status::Color;
use crate::text::{is_printable_ascii, is_white_space, trim_end, trimmed_end};
use crate::time::{is_clock_time, relative_time_is_short, utc_now, Timestamp};
use vstd::prelude::*;

verus! {

/// An area of the screen, in cells.
#[derive(Clone, Copy, Debug, PartialEq, Eq)]
pub struct Rect {
    pub x: u16,
    pub y: u16,
    pub width: u16,
    pub height: u16,
}

/// How wide a column is to be: so many cells, or at least so many.
#[derive(Clone, Copy, Debug, PartialEq, Eq)]
pub enum Constraint {
    Length(u16),
    Min(u16),
}

/// The number of cells that `unicode_width::UnicodeWidthStr::width` counts for a text.
pub uninterp spec fn display_width(s: Seq<char>) -> usize;

/// `unicode_width::UnicodeWidthStr::width` counts the cells that a text takes up. A printable
/// character of ASCII takes up one.
#[verifier::external_body]
fn text_width(s: &str) -> (r: usize)
    ensures
        r == display_width(s@),
        is_printable_ascii(s@) ==> r == s@.len(),
{
    unicode_width::UnicodeWidthStr::width(s)
}

/// The largest of some widths, or `least` where none is larger.
pub open spec fn largest(least: usize, widths: Seq<usize>) -> usize
    decreases widths.len(),
{
    if widths.len() == 0 {
        least
    } else {
        let before = largest(least, widths.drop_last());
        if before < widths.last() {
            widths.last()
        } else {
            before
        }
    }
}

/// The width of the column of ages, from the widths of the headers and of the age and the branch of
/// each row.
pub open spec fn time_width(headers: Seq<usize>, rows: Seq<(usize, usize)>) -> usize {
    largest(headers[0], rows.map_values(|r: (usize, usize)| r.0))
}

/// The width of the column of branches. Where there are rows it is at most 25.
pub open spec fn branch_width(headers: Seq<usize>, rows: Seq<(usize, usize)>) -> usize {
    let width = largest(headers[1], rows.map_values(|r: (usize, usize)| r.1));
    if rows.len() > 0 && width > 25 {
        25
    } else {
        width
    }
}

/// A column for texts of some width, with a cell of space. Widths count as numbers of 16 bits.
pub open spec fn column_for(width: usize) -> Constraint {
    Constraint::Length((width as u16 + 1) as u16)
}

/// The columns, from the widths of what stands in them: those for the ages and the branches, as far
/// as they have headers, then a last one that takes what is left.
pub open spec fn columns(headers: Seq<usize>, rows: Seq<(usize, usize)>) -> Seq<Constraint> {
    (if headers.len() == 0 {
        seq![]
    } else if headers.len() == 1 {
        seq![column_for(time_width(headers, rows))]
    } else {
        seq![column_for(time_width(headers, rows)), column_for(branch_width(headers, rows))]
    }).push(Constraint::Min(20))
}

/// The widths of the columns, with their cells of space, are numbers of 16 bits.
pub open spec fn columns_fit(headers: Seq<usize>, rows: Seq<(usize, usize)>) -> bool {
    &&& headers.len() >= 1 ==> time_width(headers, rows) as u16 != u16::MAX
    &&& headers.len() >= 2 ==> branch_width(headers, rows) as u16 != u16::MAX
}

fn widest_time(least: usize, rows: &Vec<(usize, usize)>) -> (r: usize)
    ensures
        r == largest(least, rows@.map_values(|r: (usize, usize)| r.0)),
{
    let ghost ages = rows@.map_values(|r: (usize, usize)| r.0);
    let mut widest: usize = least;
    let mut i: usize = 0;
    assert(ages.take(0) =~= seq![]);
    while i < rows.len()
        invariant
            i <= rows.len(),
            ages == rows@.map_values(|r: (usize, usize)| r.0),
            widest == largest(least, ages.take(i as int)),
        decreases rows.len() - i,
    {
        assert(ages.take(i + 1).drop_last() =~= ages.take(i as int));
        if widest < rows[i].0 {
            widest = rows[i].0;
        }
        i = i + 1;
    }
    assert(ages.take(i as int) =~= ages);
    widest
}

fn widest_branch(least: usize, rows: &Vec<(usize, usize)>) -> (r: usize)
    ensures
        r == ({
            let width = largest(least, rows@.map_values(|r: (usize, usize)| r.1));
            if rows.len() > 0 && width > 25 {
                25
            } else {
                width
            }
        }),
{
    let ghost names = rows@.map_values(|r: (usize, usize)| r.1);
    let mut widest: usize = least;
    let mut i: usize = 0;
    assert(names.take(0) =~= seq![]);
    while i < rows.len()
        invariant
            i <= rows.len(),
            names == rows@.map_values(|r: (usize, usize)| r.1),
            ({
                let width = largest(least, names.take(i as int));
                widest == (if i > 0 && width > 25 {
                    25
                } else {
                    width
                })
            }),
        decreases rows.len() - i,
    {
        assert(names.take(i + 1).drop_last() =~= names.take(i as int));
        if widest < rows[i].1 {
            widest = rows[i].1;
        }
        if widest > 25 {
            widest = 25;
        }
        i = i + 1;
    }
    assert(names.take(i as int) =~= names);
    widest
}

/// Decides how wide the columns of a table are, from the widths of its headers and of the age and the
/// branch of each row.
pub fn columns_for(headers: &Vec<usize>, rows: &Vec<(usize, usize)>) -> (r: Vec<Constraint>)
    requires
        rows.len() > 0 ==> headers.len() >= 2,
        columns_fit(headers@, rows@),
    ensures
        r@ == columns(headers@, rows@),
{
    let mut r: Vec<Constraint> = Vec::new();
    if headers.len() >= 1 {
        let time: u16 = #[verifier::truncate] (widest_time(headers[0], rows) as u16);
        r.push(Constraint::Length(time + 1));
    }
    if headers.len() >= 2 {
        let branch: u16 = #[verifier::truncate] (widest_branch(headers[1], rows) as u16);
        r.push(Constraint::Length(branch + 1));
    }
    r.push(Constraint::Min(20));
    assert(r@ =~= columns(headers@, rows@));
    r
}

/// What a list of rows shows.
pub open spec fn rows_view(rows: Seq<RunRow>) -> Seq<RunRowView> {
    rows.map_values(|r: RunRow| r@)
}

/// The texts of some headers.
pub open spec fn headers_view(headers: Seq<&str>) -> Seq<Seq<char>> {
    headers.map_values(|h: &str| h@)
}

/// The widths of the headers above the ages and the branches, as far as there are any.
pub open spec fn header_widths(headers: Seq<Seq<char>>) -> Seq<usize> {
    Seq::new(
        if headers.len() > 2 {
            2
        } else {
            headers.len()
        },
        |i: int| display_width(headers[i]),
    )
}

/// The widths of the age and the branch of each row.
pub open spec fn row_widths(rows: Seq<RunRowView>) -> Seq<(usize, usize)> {
    rows.map_values(|r: RunRowView| (display_width(r.time), display_width(r.branch)))
}

/// The columns of a table.
pub open spec fn column_widths(headers: Seq<Seq<char>>, rows: Seq<RunRowView>) -> Seq<Constraint> {
    columns(header_widths(headers), row_widths(rows))
}

/// A text of printable ASCII characters, and fewer of them than 16 bits can count.
pub open spec fn is_plain_cell(s: Seq<char>) -> bool {
    is_printable_ascii(s) && s.len() < u16::MAX
}

/// The headers above the ages and the branches, and all ages, are plain.
pub open spec fn has_plain_columns(headers: Seq<Seq<char>>, rows: Seq<RunRowView>) -> bool {
    &&& headers.len() >= 1 ==> is_plain_cell(headers[0])
    &&& headers.len() >= 2 ==> is_plain_cell(headers[1])
    &&& forall|i: int| 0 <= i < rows.len() ==> is_plain_cell((#[trigger] rows[i]).time)
}

/// A text of printable ASCII characters takes up one cell for each of them.
pub open spec fn counts_ascii_cells(s: Seq<char>) -> bool {
    is_printable_ascii(s) ==> display_width(s) == s.len()
}

/// The headers above the ages and the branches take up one cell for each character, where they are
/// printable ASCII.
pub open spec fn headers_count_ascii_cells(headers: Seq<Seq<char>>) -> bool {
    forall|i: int|
        0 <= i < headers.len() && i < 2 ==> counts_ascii_cells(#[trigger] headers[i])
}

/// The age and the branch of each row take up one cell for each character, where they are printable
/// ASCII.
pub open spec fn rows_count_ascii_cells(rows: Seq<RunRowView>) -> bool {
    forall|i: int|
        0 <= i < rows.len() ==> counts_ascii_cells((#[trigger] rows[i]).time)
            && counts_ascii_cells(rows[i].branch)
}

fn measure_headers(headers: &Vec<&str>) -> (r: Vec<usize>)
    ensures
        r@ == header_widths(headers_view(headers@)),
        headers_count_ascii_cells(headers_view(headers@)),
{
    let mut r: Vec<usize> = Vec::new();
    let mut i: usize = 0;
    while i < headers.len() && i < 2
        invariant
            i <= headers.len(),
            i <= 2,
            r.len() == i,
            forall|k: int| 0 <= k < i ==> #[trigger] r@[k] == display_width(headers@[k]@),
            forall|k: int| 0 <= k < i ==> counts_ascii_cells(#[trigger] headers@[k]@),
        decreases headers.len() - i,
    {
        r.push(text_width(headers[i]));
        i = i + 1;
    }
    assert(r@ =~= header_widths(headers_view(headers@)));
    r
}

fn measure_rows(rows: &Vec<RunRow>) -> (r: Vec<(usize, usize)>)
    ensures
        r@ == row_widths(rows_view(rows@)),
        rows_count_ascii_cells(rows_view(rows@)),
{
    let mut r: Vec<(usize, usize)> = Vec::new();
    let mut i: usize = 0;
    while i < rows.len()
        invariant
            i <= rows.len(),
            r.len() == i,
            forall|k: int|
                0 <= k < i ==> #[trigger] r@[k] == (
                    display_width(rows@[k].time@),
                    display_width(rows@[k].branch@),
                ),
            forall|k: int|
                0 <= k < i ==> counts_ascii_cells((#[trigger] rows@[k]).time@)
                    && counts_ascii_cells(rows@[k].branch@),
        decreases rows.len() - i,
    {
        r.push((text_width(rows[i].time.as_str()), text_width(rows[i].branch.as_str())));
        i = i + 1;
    }
    assert(r@ =~= row_widths(rows_view(rows@)));
    r
}

/// Decides how wide the columns of the table are.
pub fn calculate_column_widths(headers: &Vec<&str>, rows: &Vec<RunRow>) -> (r: Vec<Constraint>)
    requires
        rows.len() > 0 ==> headers.len() >= 2,
        columns_fit(header_widths(headers_view(headers@)), row_widths(rows_view(rows@))),
    ensures
        r@ == column_widths(headers_view(headers@), rows_view(rows@)),
        headers_count_ascii_cells(headers_view(headers@)),
        rows_count_ascii_cells(rows_view(rows@)),
{
    let header_cells: Vec<usize> = measure_headers(headers);
    let row_cells: Vec<(usize, usize)> = measure_rows(rows);
    assert(row_cells.len() == rows.len());
    columns_for(&header_cells, &row_cells)
}

proof fn lemma_largest_bound(least: usize, widths: Seq<usize>, bound: usize)
    requires
        least < bound,
        forall|i: int| 0 <= i < widths.len() ==> #[trigger] widths[i] < bound,
    ensures
        largest(least, widths) < bound,
    decreases widths.len(),
{
    if widths.len() > 0 {
        assert(widths.last() == widths[widths.len() - 1]);
        assert forall|i: int| 0 <= i < widths.drop_last().len() implies (
        #[trigger] widths.drop_last()[i]) < bound by {
            assert(widths[i] < bound);
        }
        lemma_largest_bound(least, widths.drop_last(), bound);
    }
}

/// Decides how wide the columns of the table are, where their widths are numbers of 16 bits. Those of
/// a table whose headers and ages are plain are.
pub fn checked_column_widths(headers: &Vec<&str>, rows: &Vec<RunRow>) -> (r: Option<
    Vec<Constraint>,
>)
    requires
        rows.len() > 0 ==> headers.len() >= 2,
    ensures
        r is Some == columns_fit(
            header_widths(headers_view(headers@)),
            row_widths(rows_view(rows@)),
        ),
        r matches Some(widths) ==> widths@ == column_widths(
            headers_view(headers@),
            rows_view(rows@),
        ),
        has_plain_columns(headers_view(headers@), rows_view(rows@)) ==> r is Some,
        headers_count_ascii_cells(headers_view(headers@)),
        rows_count_ascii_cells(rows_view(rows@)),
{
    let header_cells: Vec<usize> = measure_headers(headers);
    let row_cells: Vec<(usize, usize)> = measure_rows(rows);
    proof {
        let view = rows_view(rows@);
        let ages = row_cells@.map_values(|r: (usize, usize)| r.0);
        let names = row_cells@.map_values(|r: (usize, usize)| r.1);
        assert(names.len() == rows.len());
        if has_plain_columns(headers_view(headers@), view) && headers.len() >= 1 {
            assert(is_plain_cell(headers_view(headers@)[0]));
            assert(header_cells@[0] < u16::MAX);
            assert forall|i: int| 0 <= i < ages.len() implies #[trigger] ages[i] < u16::MAX by {
                assert(is_plain_cell(view[i].time));
                assert(row_cells@[i].0 < u16::MAX);
            }
            lemma_largest_bound(header_cells@[0], ages, u16::MAX as usize);
            if headers.len() >= 2 {
                assert(is_plain_cell(headers_view(headers@)[1]));
                assert(header_cells@[1] < u16::MAX);
            }
        }
    }
    if headers.len() >= 1 {
        let time: u16 = #[verifier::truncate] (widest_time(header_cells[0], &row_cells) as u16);
        if time == u16::MAX {
            return None;
        }
    }
    if headers.len() >= 2 {
        let branch: u16 = #[verifier::truncate] (widest_branch(
            header_cells[1],
            &row_cells,
        ) as u16);
        if branch == u16::MAX {
            return None;
        }
    }
    Some(calculate_column_widths(headers, rows))
}

/// The lines that the rows before `i`, of those that are shown, take up. A row that does not fit
/// fills the space that is left.
pub open spec fn used_height(heights: Seq<usize>, offset: int, space: int, i: int) -> int
    decreases i,
{
    if i <= 0 {
        0
    } else {
        let used = used_height(heights, offset, space, i - 1);
        if i - 1 < offset {
            used
        } else if used < space && used + heights[i - 1] > space {
            space
        } else {
            used + heights[i - 1]
        }
    }
}

/// The lines that a row takes up: all of its own, or those that are left where the last row that is
/// shown does not fit.
pub open spec fn visible_height(heights: Seq<usize>, offset: int, space: int, i: int) -> int {
    let used = used_height(heights, offset, space, i);
    if i >= offset && used < space && used + heights[i] > space {
        space - used
    } else {
        heights[i] as int
    }
}

/// The lines for rows in a pane: all but the header and the border.
pub open spec fn space_for_rows(pane_height: u16) -> int {
    pane_height - 3
}

/// Decides how many lines each row takes up in a pane that shows the rows from `offset` on.
pub fn visible_heights(pane_height: u16, offset: usize, heights: &Vec<usize>) -> (r: Vec<u16>)
    requires
        forall|i: int| 0 <= i < heights.len() ==> heights@[i] <= u16::MAX,
    ensures
        r.len() == heights.len(),
        forall|i: int|
            0 <= i < heights.len() ==> #[trigger] r@[i] == visible_height(
                heights@,
                offset as int,
                space_for_rows(pane_height),
                i,
            ),
{
    let space: i32 = pane_height as i32 - 3;
    let mut used: i32 = 0;
    let mut r: Vec<u16> = Vec::new();
    let mut i: usize = 0;
    while i < heights.len()
        invariant
            i <= heights.len(),
            space == space_for_rows(pane_height),
            -3 <= space <= 65532,
            forall|k: int| 0 <= k < heights.len() ==> heights@[k] <= u16::MAX,
            r.len() == i,
            0 <= used <= 200_000,
            ({
                let exact = used_height(heights@, offset as int, space as int, i as int);
                used == exact || (used >= space && exact >= space)
            }),
            forall|k: int|
                0 <= k < i ==> #[trigger] r@[k] == visible_height(
                    heights@,
                    offset as int,
                    space as int,
                    k,
                ),
        decreases heights.len() - i,
    {
        let height: i32 = heights[i] as i32;
        let visible: i32 = if i >= offset && used < space {
            if used + height > space {
                let left: i32 = space - used;
                used = space;
                left
            } else {
                used = used + height;
                height
            }
        } else {
            height
        };
        r.push(visible as u16);
        i = i + 1;
    }
    r
}

/// A row is never shown with more lines than it has, and the rows that are shown from the top do not
/// take up more than the space, until it is full.
pub proof fn rows_fit_the_space(heights: Seq<usize>, offset: int, space: int, i: int)
    requires
        0 <= i < heights.len(),
    ensures
        visible_height(heights, offset, space, i) <= heights[i],
        i >= offset && used_height(heights, offset, space, i) < space ==> used_height(
            heights,
            offset,
            space,
            i,
        ) + visible_height(heights, offset, space, i) <= space,
        i >= offset && used_height(heights, offset, space, i) < space ==> used_height(
            heights,
            offset,
            space,
            i + 1,
        ) == used_height(heights, offset, space, i) + visible_height(heights, offset, space, i),
{
}

/// Rows of one line are never cut off.
pub proof fn single_lines_are_never_cut_off(count: nat, offset: int, space: int, i: int)
    requires
        0 <= i < count,
    ensures
        visible_height(row_heights(count), offset, space, i) == 1,
{
}

/// However wide a branch is, its column takes up at most 26 cells, where there are rows. A table of
/// two headers or more has three columns, the last of which takes what is left.
pub proof fn branch_column_has_a_limit(headers: Seq<Seq<char>>, rows: Seq<RunRowView>)
    requires
        headers.len() >= 2,
        rows.len() > 0,
    ensures
        column_widths(headers, rows).len() == 3,
        column_widths(headers, rows)[1] matches Constraint::Length(cells) && cells <= 26,
        column_widths(headers, rows)[2] == Constraint::Min(20),
{
}

/// The cells from `start` on that a length covers. There are none past the largest number.
pub open spec fn covered(start: u16, length: u16) -> int {
    if start + length > u16::MAX {
        u16::MAX - start
    } else {
        length as int
    }
}

/// An area in two parts side by side. The left one has a percentage of the columns, to the nearest
/// number, and the right one the rest.
pub open spec fn side_by_side(area: Rect, percentage: u16) -> (Rect, Rect) {
    let columns = covered(area.x, area.width);
    let left = (columns * percentage + 50) / 100;
    (
        Rect { x: area.x, y: area.y, width: left as u16, height: area.height },
        Rect {
            x: (area.x + left) as u16,
            y: area.y,
            width: (columns - left) as u16,
            height: area.height,
        },
    )
}

/// An area in two parts one below the other. The upper one has so many rows, as far as there are
/// any, and the lower one the rest.
pub open spec fn one_below_the_other(area: Rect, length: u16) -> (Rect, Rect) {
    let rows = covered(area.y, area.height);
    let upper = if length < rows {
        length as int
    } else {
        rows
    };
    (
        Rect { x: area.x, y: area.y, width: area.width, height: upper as u16 },
        Rect {
            x: area.x,
            y: (area.y + upper) as u16,
            width: area.width,
            height: (rows - upper) as u16,
        },
    )
}

/// `ratatui::layout::Layout::split` with two percentages that make up the whole, side by side. The
/// parts have no space between them. Each edge is rounded to the nearest column, a half upwards.
#[verifier::external_body]
fn split_side_by_side(area: Rect, left: u16, right: u16) -> (r: (Rect, Rect))
    requires
        left + right == 100,
    ensures
        r == side_by_side(area, left),
{
    let Rect { x, y, width, height } = area;
    let parts = ratatui::layout::Layout::default()
        .direction(ratatui::layout::Direction::Horizontal)
        .constraints([
            ratatui::layout::Constraint::Percentage(left),
            ratatui::layout::Constraint::Percentage(right),
        ])
        .split(ratatui::layout::Rect { x, y, width, height });
    (
        Rect { x: parts[0].x, y: parts[0].y, width: parts[0].width, height: parts[0].height },
        Rect { x: parts[1].x, y: parts[1].y, width: parts[1].width, height: parts[1].height },
    )
}

/// `ratatui::layout::Layout::split` with a length and at least nothing, one below the other. The
/// length comes first, and what it leaves goes to the part below it.
#[verifier::external_body]
fn split_below(area: Rect, length: u16) -> (r: (Rect, Rect))
    ensures
        r == one_below_the_other(area, length),
{
    let Rect { x, y, width, height } = area;
    let parts = ratatui::layout::Layout::default()
        .direction(ratatui::layout::Direction::Vertical)
        .constraints([
            ratatui::layout::Constraint::Length(length),
            ratatui::layout::Constraint::Min(0),
        ])
        .split(ratatui::layout::Rect { x, y, width, height });
    (
        Rect { x: parts[0].x, y: parts[0].y, width: parts[0].width, height: parts[0].height },
        Rect { x: parts[1].x, y: parts[1].y, width: parts[1].width, height: parts[1].height },
    )
}

/// The two parts of an area lie side by side within it and together cover its columns.
pub proof fn halves_cover_the_area(area: Rect, percentage: u16)
    requires
        percentage <= 100,
    ensures
        ({
            let (left, right) = side_by_side(area, percentage);
            &&& left.x == area.x && right.x == left.x + left.width
            &&& left.width + right.width == covered(area.x, area.width)
            &&& left.y == area.y && left.height == area.height
            &&& right.y == area.y && right.height == area.height
        }),
{
    let columns = covered(area.x, area.width);
    assert(0 <= columns * percentage <= columns * 100) by (nonlinear_arith)
        requires
            0 <= columns,
            0 <= percentage <= 100,
    ;
}

/// The two parts of an area lie one below the other within it and together cover its rows.
pub proof fn upper_and_lower_cover_the_area(area: Rect, length: u16)
    ensures
        ({
            let (upper, lower) = one_below_the_other(area, length);
            &&& upper.y == area.y && lower.y == upper.y + upper.height
            &&& upper.height + lower.height == covered(area.y, area.height)
            &&& upper.x == area.x && upper.width == area.width
            &&& lower.x == area.x && lower.width == area.width
        }),
{
}

/// The symbol that the throbber shows.
pub open spec fn throbber_glyph(index: int) -> char {
    let place = index % 6;
    if place == 0 {
        '⠈'
    } else if place == 1 {
        '⠐'
    } else if place == 2 {
        '⠠'
    } else if place == 3 {
        '⠄'
    } else if place == 4 {
        '⠂'
    } else {
        '⠁'
    }
}

/// `throbber_widgets_tui::Throbber::to_symbol_span` with the set `BRAILLE_ONE`: one of six symbols,
/// which come round in turn, and a space. The state is brought to the index by
/// `ThrobberState::calc_step`, which picks an index at random for a step of 0.
#[verifier::external_body]
fn throbber_text(index: i8) -> (r: String)
    requires
        index != 0,
    ensures
        r@ == seq![throbber_glyph(index as int), ' '],
{
    let mut state = throbber_widgets_tui::ThrobberState::default();
    state.calc_step(index);
    throbber_widgets_tui::Throbber::default()
        .throbber_set(throbber_widgets_tui::BRAILLE_ONE)
        .to_symbol_span(&state)
        .content
        .into_owned()
}

/// The symbol that the throbber shows at an index.
pub fn throbber_symbol(index: i8) -> (r: String)
    ensures
        r@ == seq![throbber_glyph(index as int)],
{
    let text: String = if index == 0 {
        throbber_text(6)
    } else {
        throbber_text(index)
    };
    proof {
        let glyph = throbber_glyph(index as int);
        let s = seq![glyph, ' '];
        assert(text@ == s);
        assert(!is_white_space(glyph));
        assert(s.drop_last() =~= seq![glyph]);
        assert(trimmed_end(seq![glyph]) == seq![glyph]);
        assert(trimmed_end(s) == seq![glyph]);
    }
    trim_end(text.as_str())
}

/// The texts above the columns of the table.
pub open spec fn header_texts() -> Seq<Seq<char>> {
    seq!["Time"@, "Branch"@, "Run"@]
}

/// The headers of the table.
pub fn table_headers() -> (r: Vec<&'static str>)
    ensures
        r.len() == 3,
        headers_view(r@) == header_texts(),
{
    let mut r: Vec<&'static str> = Vec::new();
    r.push("Time");
    r.push("Branch");
    r.push("Run");
    assert(headers_view(r@) =~= header_texts());
    r
}

/// A row of the table and the lines that it takes up.
#[derive(Debug, PartialEq, Eq)]
pub struct VisibleRow {
    pub row: RunRow,
    pub height: u16,
}

/// What a `VisibleRow` shows.
pub struct VisibleRowView {
    pub row: RunRowView,
    pub height: u16,
}

impl View for VisibleRow {
    type V = VisibleRowView;

    open spec fn view(&self) -> VisibleRowView {
        VisibleRowView { row: self.row@, height: self.height }
    }
}

/// What stands in the pane of runs: a message, or the table.
#[derive(Debug, PartialEq, Eq)]
pub enum TableBody {
    Message(String),
    Rows { widths: Vec<Constraint>, rows: Vec<VisibleRow> },
}

/// What a `TableBody` shows.
pub enum TableBodyView {
    Message(Seq<char>),
    Rows { widths: Seq<Constraint>, rows: Seq<VisibleRowView> },
}

impl View for TableBody {
    type V = TableBodyView;

    open spec fn view(&self) -> TableBodyView {
        match self {
            TableBody::Message(message) => TableBodyView::Message(message@),
            TableBody::Rows { widths, rows } => TableBodyView::Rows {
                widths: widths@,
                rows: rows@.map_values(|r: VisibleRow| r@),
            },
        }
    }
}

/// Every row of the table of runs is one line high.
pub open spec fn row_heights(count: nat) -> Seq<usize> {
    Seq::new(count, |i: int| 1usize)
}

impl ListView {
    /// The areas of the pane of runs and of the pane of jobs. The first has all of the area while the
    /// second is hidden.
    pub open spec fn panes(self, area: Rect) -> (Rect, Option<Rect>) {
        if self.pane_shown {
            let (left, right) = side_by_side(area, 62);
            (left, Some(right))
        } else {
            (area, None)
        }
    }

    /// What stands at the right of the title: the throbber while runs are being loaded, or that this
    /// has failed.
    pub open spec fn title_status(self) -> Option<Seq<char>> {
        match self.loading {
            LoadingStateView::Loading => Some(seq![throbber_glyph(self.throbber_index as int)]),
            LoadingStateView::Error(_) => Some("Error"@),
            _ => None,
        }
    }

    /// What is said in place of a table of no runs.
    pub open spec fn empty_message(self) -> Seq<char> {
        match self.loading {
            LoadingStateView::Loading => "Loading workflow runs from GitHub..."@,
            LoadingStateView::Error(message) => message,
            LoadingStateView::Idle => "No workflow runs found."@,
            LoadingStateView::Loaded => "No workflow runs available."@,
        }
    }

    /// The rows of the table.
    pub open spec fn rows(self, now: Timestamp) -> Seq<RunRowView> {
        self.runs.map_values(|r: WorkflowRunView| r.row(now))
    }

    /// What stands in a pane of runs of some height.
    pub open spec fn table_body(self, pane_height: u16, now: Timestamp) -> TableBodyView {
        if self.runs.len() == 0 {
            TableBodyView::Message(self.empty_message())
        } else {
            TableBodyView::Rows {
                widths: column_widths(header_texts(), self.rows(now)),
                rows: Seq::new(
                    self.runs.len(),
                    |i: int|
                        VisibleRowView {
                            row: self.rows(now)[i],
                            height: visible_height(
                                row_heights(self.runs.len()),
                                self.table.offset as int,
                                space_for_rows(pane_height),
                                i,
                            ) as u16,
                        },
                ),
            }
        }
    }

    /// The lines of the pane of jobs.
    pub open spec fn jobs_lines(self, now: Timestamp) -> Seq<LineView> {
        match self.selected_index() {
            Some(i) => self.runs[i].breakdown(now),
            None => seq![plain_line("No workflow selected"@)],
        }
    }

    /// The height that the jobs take up with their border. Lines count as a number of 16 bits.
    pub open spec fn jobs_height(self, now: Timestamp) -> u16 {
        let lines = self.jobs_lines(now).len() as usize as u16;
        if lines + 2 > u16::MAX {
            u16::MAX
        } else {
            (lines + 2) as u16
        }
    }

    /// The log of the failed step is shown below the jobs: there is one, and there is space.
    pub open spec fn shows_log(self, pane_height: u16, now: Timestamp) -> bool {
        &&& self.selected_index() is Some
        &&& self.runs[self.selected_index()->0].first_failed_step() is Some
        &&& self.jobs_height(now) < pane_height
    }

    /// What stands in the pane of jobs: the jobs, and below them, where it is shown, the log of the
    /// failed step.
    pub open spec fn jobs_pane(self, area: Rect, now: Timestamp) -> JobsPaneView {
        let lines = self.jobs_lines(now);
        if self.shows_log(area.height, now) {
            let (upper, lower) = one_below_the_other(area, self.jobs_height(now));
            JobsPaneView {
                area: upper,
                lines,
                log: Some(LogPaneView { area: lower, lines: self.log_lines(lower.height) }),
            }
        } else {
            JobsPaneView { area, lines, log: None }
        }
    }

    /// The lines of the log of the failed step in a pane of some height: as many from the end as fit
    /// within the border, or all where none fit.
    pub open spec fn log_lines(self, pane_height: u16) -> Seq<LineView> {
        let lines = match self.selected_index() {
            Some(i) => self.runs[i].failed_log(),
            None => seq![plain_line("No failed step selected"@)],
        };
        if pane_height <= 2 {
            lines
        } else {
            last_lines(lines, (pane_height - 2) as nat)
        }
    }
}

/// The pane of jobs: the jobs, and below them, where it is shown, the log of the failed step.
#[derive(Debug, PartialEq, Eq)]
pub struct JobsPane {
    pub area: Rect,
    pub lines: Vec<Line>,
    pub log: Option<LogPane>,
}

/// The log of a failed step and its area.
#[derive(Debug, PartialEq, Eq)]
pub struct LogPane {
    pub area: Rect,
    pub lines: Vec<Line>,
}

/// What a `JobsPane` shows.
pub struct JobsPaneView {
    pub area: Rect,
    pub lines: Seq<LineView>,
    pub log: Option<LogPaneView>,
}

/// What a `LogPane` shows.
pub struct LogPaneView {
    pub area: Rect,
    pub lines: Seq<LineView>,
}

impl View for JobsPane {
    type V = JobsPaneView;

    open spec fn view(&self) -> JobsPaneView {
        JobsPaneView {
            area: self.area,
            lines: lines_view(self.lines@),
            log: match self.log {
                Some(log) => Some(LogPaneView { area: log.area, lines: lines_view(log.lines@) }),
                None => None,
            },
        }
    }
}

impl WorkflowRunsListState {
    /// Divides an area among the pane of runs and, where it is shown, the pane of jobs.
    pub fn panes(&self, area: Rect) -> (r: (Rect, Option<Rect>))
        ensures
            r == self@.panes(area),
    {
        if self.show_job_breakdown_pane {
            let (left, right): (Rect, Rect) = split_side_by_side(area, 62, 38);
            (left, Some(right))
        } else {
            (area, None)
        }
    }

    /// What stands at the right of the title of the pane of runs.
    pub fn title_status(&self) -> (r: Option<String>)
        ensures
            match r {
                Some(text) => self@.title_status() == Some(text@),
                None => self@.title_status() is None,
            },
    {
        match &self.loading_state {
            LoadingState::Loading => Some(throbber_symbol(self.throbber_index)),
            LoadingState::Error(_) => Some("Error".to_owned()),
            _ => None,
        }
    }

    fn empty_message(&self) -> (r: String)
        ensures
            r@ == self@.empty_message(),
    {
        match &self.loading_state {
            LoadingState::Loading => "Loading workflow runs from GitHub...".to_owned(),
            LoadingState::Error(message) => message.clone(),
            LoadingState::Idle => "No workflow runs found.".to_owned(),
            LoadingState::Loaded => "No workflow runs available.".to_owned(),
        }
    }

    fn run_rows(&self, now: Timestamp) -> (r: Vec<RunRow>)
        ensures
            rows_view(r@) == self@.rows(now),
            r.len() == self.workflow_runs.len(),
            forall|i: int| 0 <= i < r.len() ==> (#[trigger] r@[i]).details_lines.len() == 1,
    {
        let mut r: Vec<RunRow> = Vec::new();
        let mut i: usize = 0;
        while i < self.workflow_runs.len()
            invariant
                i <= self.workflow_runs.len(),
                r.len() == i,
                forall|k: int| 0 <= k < i ==> (#[trigger] r@[k]).details_lines.len() == 1,
                rows_view(r@) == self@.rows(now).take(i as int),
            decreases self.workflow_runs.len() - i,
        {
            let ghost before = r@;
            r.push(self.workflow_runs[i].to_row_at(now));
            assert(rows_view(r@) =~= rows_view(before).push(self@.rows(now)[i as int]));
            i = i + 1;
            assert(rows_view(r@) =~= self@.rows(now).take(i as int));
        }
        assert(rows_view(r@) =~= self@.rows(now));
        r
    }

    /// What stands in a pane of runs of some height, at a time.
    pub fn table_body_at(&self, pane_height: u16, now: Timestamp) -> (r: TableBody)
        ensures
            r@ == self@.table_body(pane_height, now),
            self@.runs.len() > 0 ==> headers_count_ascii_cells(header_texts())
                && rows_count_ascii_cells(self@.rows(now)),
    {
        if self.workflow_runs.is_empty() {
            return TableBody::Message(self.empty_message());
        }
        let headers: Vec<&'static str> = table_headers();
        let rows: Vec<RunRow> = self.run_rows(now);
        let ghost view = rows_view(rows@);
        proof {
            reveal_strlit("Time");
            reveal_strlit("Branch");
            assert forall|i: int| 0 <= i < view.len() implies is_plain_cell(
                (#[trigger] view[i]).time,
            ) by {
                relative_time_is_short(now, self@.runs[i].created_at);
            }
        }
        let widths: Vec<Constraint> = checked_column_widths(&headers, &rows).unwrap();
        assert(widths@ == column_widths(header_texts(), view));
        let mut heights: Vec<usize> = Vec::new();
        let mut i: usize = 0;
        while i < rows.len()
            invariant
                i <= rows.len(),
                heights.len() == i,
                forall|k: int| 0 <= k < rows.len() ==> (#[trigger] rows@[k]).details_lines.len() == 1,
                forall|k: int| 0 <= k < i ==> heights@[k] == 1,
            decreases rows.len() - i,
        {
            heights.push(rows[i].details_lines.len());
            i = i + 1;
        }
        assert(heights@ =~= row_heights(self@.runs.len()));
        let shown: Vec<u16> = visible_heights(pane_height, self.table_state.offset, &heights);
        let ghost whole = self@.table_body(pane_height, now)->rows;
        let mut visible: Vec<VisibleRow> = Vec::new();
        for row in it: rows
            invariant
                it.seq() == rows@,
                view == rows_view(rows@),
                view == self@.rows(now),
                view.len() == self@.runs.len(),
                shown.len() == rows.len(),
                visible.len() == it.index(),
                forall|k: int|
                    0 <= k < shown.len() ==> #[trigger] shown@[k] == visible_height(
                        row_heights(self@.runs.len()),
                        self@.table.offset as int,
                        space_for_rows(pane_height),
                        k,
                    ),
                forall|k: int|
                    0 <= k < it.index() ==> (#[trigger] visible@[k])@.row == view[k]
                        && visible@[k].height == shown@[k],
        {
            let k: usize = visible.len();
            assert(view[k as int] == row@);
            visible.push(VisibleRow { row, height: shown[k] });
        }
        assert(visible@.map_values(|r: VisibleRow| r@) =~= whole);
        TableBody::Rows { widths, rows: visible }
    }

    /// What stands in a pane of runs of some height, at the time of the system clock.
    pub fn table_body(&self, pane_height: u16) -> (r: TableBody)
        ensures
            exists|now: Timestamp|
                {
                    &&& is_clock_time(now)
                    &&& r@ == #[trigger] self@.table_body(pane_height, now)
                    &&& self@.runs.len() > 0 ==> headers_count_ascii_cells(header_texts())
                        && rows_count_ascii_cells(self@.rows(now))
                },
    {
        let now: Timestamp = utc_now();
        self.table_body_at(pane_height, now)
    }

    fn selected_run(&self) -> (r: Option<&WorkflowRun>)
        ensures
            match r {
                Some(run) => self@.selected_index() is Some && run@
                    == self@.runs[self@.selected_index()->0],
                None => self@.selected_index() is None,
            },
    {
        match self.table_state.selected {
            Some(i) => if i < self.workflow_runs.len() {
                Some(&self.workflow_runs[i])
            } else {
                None
            },
            None => None,
        }
    }

    fn jobs_lines_at(&self, now: Timestamp) -> (r: Vec<Line>)
        ensures
            lines_view(r@) == self@.jobs_lines(now),
    {
        match self.selected_run() {
            Some(run) => run.job_breakdown_lines_at(now),
            None => one_line(Line::plain("No workflow selected".to_owned())),
        }
    }

    fn log_lines(&self, pane_height: u16) -> (r: Vec<Line>)
        ensures
            lines_view(r@) == self@.log_lines(pane_height),
    {
        let lines: Vec<Line> = match self.selected_run() {
            Some(run) => run.failed_step_log_lines(),
            None => one_line(Line::plain("No failed step selected".to_owned())),
        };
        let visible: usize = if pane_height > 2 {
            pane_height as usize - 2
        } else {
            0
        };
        if visible == 0 || lines.len() <= visible {
            return lines;
        }
        let mut lines: Vec<Line> = lines;
        let ghost whole = lines@;
        let from: usize = lines.len() - visible;
        let tail: Vec<Line> = lines.split_off(from);
        assert(lines_view(tail@) =~= lines_view(whole).skip(from as int));
        tail
    }

    /// What stands in the pane of jobs, at a time.
    pub fn jobs_pane_at(&self, area: Rect, now: Timestamp) -> (r: JobsPane)
        ensures
            r@ == self@.jobs_pane(area, now),
    {
        let lines: Vec<Line> = self.jobs_lines_at(now);
        let has_failed: bool = match self.selected_run() {
            Some(run) => run.has_failed_step(),
            None => false,
        };
        assert(lines_view(lines@).len() == lines.len());
        let count: u16 = #[verifier::truncate] (lines.len() as u16);
        let needed: u16 = count.saturating_add(2);
        if has_failed && needed < area.height {
            let (upper, lower): (Rect, Rect) = split_below(area, needed);
            JobsPane {
                area: upper,
                lines,
                log: Some(LogPane { area: lower, lines: self.log_lines(lower.height) }),
            }
        } else {
            JobsPane { area, lines, log: None }
        }
    }

    /// What stands in the pane of jobs, at the time of the system clock.
    pub fn jobs_pane(&self, area: Rect) -> (r: JobsPane)
        ensures
            exists|now: Timestamp|
                is_clock_time(now) && r@ == #[trigger] self@.jobs_pane(area, now),
    {
        let now: Timestamp = utc_now();
        self.jobs_pane_at(area, now)
    }
}

/// Where the log of the failed step is shown, it stands below all lines of the jobs, in the columns
/// of the pane, and has at least one row.
pub proof fn shown_logs_have_space(list: ListView, area: Rect, now: Timestamp)
    requires
        area.y + area.height <= u16::MAX,
    ensures
        list.jobs_pane(area, now).log matches Some(log) ==> {
            let jobs = list.jobs_pane(area, now);
            &&& jobs.area.height == list.jobs_height(now)
            &&& log.area.y == jobs.area.y + jobs.area.height
            &&& log.area.height >= 1
            &&& jobs.area.height + log.area.height == area.height
            &&& jobs.area.width == area.width && log.area.width == area.width
        },
        list.jobs_pane(area, now).log is Some ==> list.selected_index() is Some
            && list.runs[list.selected_index()->0].first_failed_step() is Some,
{
}

/// The lines of the log that are shown never overflow their pane, where it has space within its
/// border.
pub proof fn shown_log_lines_fit(list: ListView, pane_height: u16)
    requires
        pane_height > 2,
    ensures
        list.log_lines(pane_height).len() <= pane_height - 2,
{
}

/// The keys that are explained below the table, each before what it does.
pub open spec fn key_help_spans() -> Seq<SpanView> {
    seq![
        SpanView { text: "j/k"@, style: Style::in_color(Color::White) },
        SpanView { text: " up/down  "@, style: Style::none() },
        SpanView { text: "space"@, style: Style::in_color(Color::White) },
        SpanView { text: " toggle job pane  "@, style: Style::none() },
        SpanView { text: "enter"@, style: Style::in_color(Color::White) },
        SpanView { text: " open browser  "@, style: Style::none() },
        SpanView { text: "q"@, style: Style::in_color(Color::White) },
        SpanView { text: " quit"@, style: Style::none() },
    ]
}

/// The line below the table that explains the keys.
pub fn key_help() -> (r: Line)
    ensures
        r@ == LineView::Spans(key_help_spans()),
{
    let white: Style = Style { fg: Some(Color::White), bold: false };
    let plain: Style = Style { fg: None, bold: false };
    let mut spans: Vec<Span> = Vec::new();
    spans.push(Span { text: "j/k".to_owned(), style: white });
    spans.push(Span { text: " up/down  ".to_owned(), style: plain });
    spans.push(Span { text: "space".to_owned(), style: white });
    spans.push(Span { text: " toggle job pane  ".to_owned(), style: plain });
    spans.push(Span { text: "enter".to_owned(), style: white });
    spans.push(Span { text: " open browser  ".to_owned(), style: plain });
    spans.push(Span { text: "q".to_owned(), style: white });
    spans.push(Span { text: " quit".to_owned(), style: plain });
    assert(spans@.map_values(|s: Span| s@) =~= key_help_spans());
    Line::Spans(spans)
}

} // verus!
