//! The week-column grid and its month label row.
//!
//! A day with index `i` in the window stands in row `i % 7`, its weekday, and
//! in column `i / 7`, its week. The month label row is an approximation kept
//! on purpose: labels are placed by fixed distances, not by where a month
//! starts in the grid.

use vstd::prelude::*;
use crate::intensity::IntensityLevel;
use crate::calendar::Date;
use crate::window::{ReportWindow, Window};

verus! {

/// Rows of the grid, one for each day of the week.
pub const WEEKDAYS: usize = 7;

/// Month labels in the label row: the month of the first day and the
/// eleven months after it.
pub const MONTH_LABELS: usize = 12;

/// Characters that a month label takes.
pub const LABEL_WIDTH: usize = 3;

/// Characters between two month labels.
pub const LABEL_SEPARATOR: usize = 6;

/// Most week columns that a window touches.
pub const MAX_WEEKS: usize = 54;

/// Most characters to the left of a month label.
pub const MAX_LABEL_COLUMN: usize = 102;

/// Index of the day that stands in row `weekday` of column `week`.
pub open spec fn cell_index(weekday: int, week: int) -> int {
    weekday + week * 7
}

/// Row of the day with index `index`.
pub open spec fn row_of(index: int) -> int {
    index % 7
}

/// Column of the day with index `index`.
pub open spec fn column_of(index: int) -> int {
    index / 7
}

/// What the grid shows in row `weekday` of column `week`: the level of the
/// day that stands there, and nothing where the levels end before it.
pub open spec fn cell_of(levels: Seq<IntensityLevel>, weekday: int, week: int) -> Option<
    IntensityLevel,
> {
    let index = cell_index(weekday, week);
    if 0 <= index < levels.len() {
        Some(levels[index])
    } else {
        None
    }
}

/// Week of the month that the day `day` of a month lies in, counted from 1:
/// `day / 7`, rounded up.
pub open spec fn week_of_month(day: int) -> int {
    (day + 6) / 7
}

/// Characters left free in front of the first month label:
/// `4 - week_of_month(day)` for a window that starts on the day `day` of its
/// month, and never less than 0.
pub open spec fn first_gap(day: int) -> int {
    if week_of_month(day) >= 4 {
        0
    } else {
        4 - week_of_month(day)
    }
}

/// A month name above the grid.
#[derive(Clone, Copy, Debug, PartialEq, Eq, Structural)]
pub struct MonthLabel {
    /// The month, from 1 for January to 12 for December.
    pub month: u32,
    /// Characters to the left of the label, counted from the left edge of
    /// the grid. A week column is two characters wide.
    pub column: usize,
}

/// The month that the label at `position` names, for a window that starts in
/// `start_month`: the start month itself at position 0, then the months that
/// follow it, December followed by January.
pub open spec fn label_month(start_month: int, position: int) -> int {
    (start_month - 1 + position) % 12 + 1
}

/// Characters to the left of the label at `position`, for a window that
/// starts on the day `start_day` of its month: the first label stands after
/// the first gap, and each later label a label and a separator further on.
pub open spec fn label_column(start_day: int, position: int) -> int {
    first_gap(start_day) + position * (LABEL_WIDTH + LABEL_SEPARATOR)
}

/// The label row of a window that starts on `start_day` of `start_month`.
pub open spec fn month_labels_of(start_month: int, start_day: int) -> Seq<MonthLabel> {
    Seq::new(
        MONTH_LABELS as nat,
        |position: int|
            MonthLabel {
                month: label_month(start_month, position) as u32,
                column: label_column(start_day, position) as usize,
            },
    )
}

/// The mathematical value of a [`Layout`].
pub struct LayoutView {
    /// Number of week columns.
    pub weeks: int,
    /// One row for each weekday, Sunday first; each row holds one cell for
    /// each week column. A cell without a day is `None`.
    pub cells: Seq<Seq<Option<IntensityLevel>>>,
    /// The month names above the grid, from left to right.
    pub month_labels: Seq<MonthLabel>,
}

impl LayoutView {
    /// Seven rows of equal length, and twelve labels that name months and
    /// stand within the width of the label row.
    pub open spec fn is_layout(self) -> bool {
        &&& 0 <= self.weeks <= MAX_WEEKS
        &&& self.cells.len() == WEEKDAYS
        &&& forall|weekday: int|
            0 <= weekday < WEEKDAYS ==> (#[trigger] self.cells[weekday]).len() == self.weeks
        &&& self.month_labels.len() == MONTH_LABELS
        &&& forall|position: int|
            0 <= position < MONTH_LABELS ==> {
                &&& 1 <= (#[trigger] self.month_labels[position]).month <= 12
                &&& self.month_labels[position].column <= MAX_LABEL_COLUMN
            }
    }

}

/// The grid of `levels` in `weeks` columns: seven rows, Sunday first, and in
/// each row one cell for each week.
pub open spec fn cells_of(levels: Seq<IntensityLevel>, weeks: int) -> Seq<
    Seq<Option<IntensityLevel>>,
> {
    Seq::new(
        WEEKDAYS as nat,
        |weekday: int| Seq::new(weeks as nat, |week: int| cell_of(levels, weekday, week)),
    )
}

/// The layout of `levels` over `window`.
pub open spec fn layout_of(levels: Seq<IntensityLevel>, window: Window) -> LayoutView {
    LayoutView {
        weeks: window.weeks(),
        cells: cells_of(levels, window.weeks()),
        month_labels: month_labels_of(window.start.month, window.start.day),
    }
}

/// The levels of a window laid out for display.
#[derive(Debug)]
pub struct Layout {
    weeks: usize,
    rows: Vec<Vec<Option<IntensityLevel>>>,
    month_labels: Vec<MonthLabel>,
}

impl View for Layout {
    type V = LayoutView;

    closed spec fn view(&self) -> LayoutView {
        LayoutView {
            weeks: self.weeks as int,
            cells: Seq::new(self.rows@.len(), |weekday: int| self.rows@[weekday]@),
            month_labels: self.month_labels@,
        }
    }
}

impl Layout {
    #[verifier::type_invariant]
    pub(crate) open spec fn well_formed(self) -> bool {
        self@.is_layout()
    }

    /// Number of week columns.
    pub fn weeks(&self) -> (r: usize)
        ensures
            r == self@.weeks,
    {
        self.weeks
    }

    /// What the grid shows in row `weekday` of column `week`; nothing
    /// outside the grid.
    pub fn cell(&self, weekday: usize, week: usize) -> (r: Option<IntensityLevel>)
        ensures
            r == if weekday < WEEKDAYS && week < self@.weeks {
                self@.cells[weekday as int][week as int]
            } else {
                None
            },
    {
        proof {
            use_type_invariant(self);
        }
        if weekday < WEEKDAYS && week < self.weeks {
            self.rows[weekday][week]
        } else {
            None
        }
    }

    /// The cells of row `weekday`, one for each week column.
    pub fn row(&self, weekday: usize) -> (r: &Vec<Option<IntensityLevel>>)
        requires
            weekday < WEEKDAYS,
        ensures
            r@ == self@.cells[weekday as int],
            r@.len() == self@.weeks,
    {
        proof {
            use_type_invariant(self);
        }
        &self.rows[weekday]
    }

    /// The month names above the grid, from left to right.
    pub fn month_labels(&self) -> (r: &Vec<MonthLabel>)
        ensures
            r@ == self@.month_labels,
    {
        &self.month_labels
    }
}

/// The label row of a window that starts on `start_day` of `start_month`.
pub fn month_labels(start_month: u32, start_day: u32) -> (labels: Vec<MonthLabel>)
    requires
        1 <= start_month <= 12,
        1 <= start_day <= 31,
    ensures
        labels@ == month_labels_of(start_month as int, start_day as int),
{
    let week_of_month: u32 = (start_day + 6) / 7;
    let gap: usize = if week_of_month >= 4 {
        0
    } else {
        (4 - week_of_month) as usize
    };
    let mut labels: Vec<MonthLabel> = Vec::new();
    let mut position: usize = 0;
    while position < MONTH_LABELS
        invariant
            position <= MONTH_LABELS,
            1 <= start_month <= 12,
            gap == first_gap(start_day as int),
            gap <= 3,
            labels@.len() == position,
            forall|k: int|
                0 <= k < position ==> labels@[k] == month_labels_of(
                    start_month as int,
                    start_day as int,
                )[k],
        decreases MONTH_LABELS - position,
    {
        let month: u32 = (start_month - 1 + position as u32) % 12 + 1;
        assert(position * (LABEL_WIDTH + LABEL_SEPARATOR) <= 99) by (nonlinear_arith)
            requires
                position < 12,
                LABEL_WIDTH + LABEL_SEPARATOR == 9,
        ;
        let column: usize = gap + position * (LABEL_WIDTH + LABEL_SEPARATOR);
        labels.push(MonthLabel { month, column });
        position += 1;
    }
    labels
}

/// One row of the grid: the cells of `weekday` in each of `weeks` columns.
pub fn lay_out_row(levels: &Vec<IntensityLevel>, weekday: usize, weeks: usize) -> (row: Vec<
    Option<IntensityLevel>,
>)
    requires
        weekday < WEEKDAYS,
        weeks <= MAX_WEEKS,
    ensures
        row@.len() == weeks,
        forall|week: int| 0 <= week < weeks ==> row@[week] == cell_of(levels@, weekday as int, week),
{
    let mut row: Vec<Option<IntensityLevel>> = Vec::new();
    let mut week: usize = 0;
    while week < weeks
        invariant
            week <= weeks <= MAX_WEEKS,
            weekday < WEEKDAYS,
            row@.len() == week,
            forall|w: int| 0 <= w < week ==> row@[w] == cell_of(levels@, weekday as int, w),
        decreases weeks - week,
    {
        let index: usize = weekday + week * 7;
        if index < levels.len() {
            row.push(Some(levels[index]));
        } else {
            row.push(None);
        }
        week += 1;
    }
    row
}

/// Arranges the levels of the days of `window` in week columns and weekday
/// rows, and places the month labels above them.
///
/// The day with index `i` stands in row `i % 7` of column `i / 7`. Cells after
/// the last level stay empty; levels after the last column are not shown.
pub fn lay_out(levels: &Vec<IntensityLevel>, window: &ReportWindow) -> (layout: Layout)
    ensures
        layout@ == layout_of(levels@, window@),
        layout@.is_layout(),
{
    let weeks: usize = window.weeks();
    let mut rows: Vec<Vec<Option<IntensityLevel>>> = Vec::new();
    let mut weekday: usize = 0;
    while weekday < WEEKDAYS
        invariant
            weekday <= WEEKDAYS,
            weeks <= MAX_WEEKS,
            rows@.len() == weekday,
            forall|d: int| 0 <= d < weekday ==> (#[trigger] rows@[d])@.len() == weeks,
            forall|d: int, w: int|
                0 <= d < weekday && 0 <= w < weeks ==> (#[trigger] rows@[d]@[w]) == cell_of(
                    levels@,
                    d,
                    w,
                ),
        decreases WEEKDAYS - weekday,
    {
        let row = lay_out_row(levels, weekday, weeks);
        rows.push(row);
        weekday += 1;
    }
    let start = window.start();
    let month_labels = month_labels(start.month(), start.day());
    proof {
        lemma_month_labels_of(start@.month, start@.day);
    }
    let layout = Layout { weeks, rows, month_labels };
    proof {
        assert forall|d: int| 0 <= d < WEEKDAYS implies #[trigger] layout@.cells[d] == cells_of(
            levels@,
            weeks as int,
        )[d] by {
        }
        assert(layout@.cells =~= cells_of(levels@, weeks as int));
    }
    layout
}

/// Every label of a label row names a month and stands within the width of
/// the row.
pub proof fn lemma_month_labels_of(start_month: int, start_day: int)
    requires
        1 <= start_month <= 12,
        1 <= start_day <= 31,
    ensures
        month_labels_of(start_month, start_day).len() == MONTH_LABELS,
        forall|position: int|
            0 <= position < MONTH_LABELS ==> {
                let label = #[trigger] month_labels_of(start_month, start_day)[position];
                &&& label.month == label_month(start_month, position)
                &&& label.column == label_column(start_day, position)
                &&& 1 <= label.month <= 12
                &&& label.column <= MAX_LABEL_COLUMN
            },
{
}

/// A day of the window has one place in the grid, and the place leads back
/// to the day: the index that the day's count is kept under, split into row
/// and column, is that index again; the row is the day's weekday, counted
/// from Sunday, and the column is the number of whole weeks since the first
/// day of the window.
pub proof fn lemma_index_round_trip(window: Window, day: Date)
    requires
        window.is_report_window(),
        window.contains(day.number),
    ensures
        ({
            let index = window.index_of(day.number);
            &&& 0 <= index < window.len()
            &&& 0 <= row_of(index) < WEEKDAYS
            &&& 0 <= column_of(index) < window.weeks()
            &&& row_of(index) == day.weekday_index()
            &&& column_of(index) == (day.number - window.start.number) / 7
            &&& cell_index(row_of(index), column_of(index)) == index
            &&& window.start.number + cell_index(row_of(index), column_of(index)) == day.number
        }),
{
}

/// Every cell of the grid stands for one index only: the row and column of
/// the index of a cell are that cell's row and column.
pub proof fn lemma_cell_round_trip(weekday: int, week: int)
    requires
        0 <= weekday < WEEKDAYS,
        0 <= week,
    ensures
        row_of(cell_index(weekday, week)) == weekday,
        column_of(cell_index(weekday, week)) == week,
{
}

} // verus!
