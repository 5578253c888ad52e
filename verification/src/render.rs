//! The calendar as lines of text for a terminal with 256 colours.
//!
//! The first line names the months. Seven lines follow, one for each day of
//! the week from Sunday on; each starts with a label four characters wide
//! and shows one coloured square for every day of that weekday.

use vstd::prelude::*;
use vstd::string::StringExecFns;
use crate::grid::{Layout, MonthLabel, LABEL_WIDTH, MAX_LABEL_COLUMN, MONTH_LABELS, WEEKDAYS};
use crate::intensity::IntensityLevel;

verus! {

/// The colour of a level, as its number in the palette of 256 colours.
pub open spec fn color_code_of(level: IntensityLevel) -> u8 {
    match level {
        IntensityLevel::No => 237,
        IntensityLevel::Low => 139,
        IntensityLevel::Mid => 40,
        IntensityLevel::High => 190,
        IntensityLevel::VeryHigh => 1,
    }
}

/// The colour of a level, as its number in the palette of 256 colours.
pub fn color_code(level: IntensityLevel) -> (code: u8)
    ensures
        code == color_code_of(level),
{
    match level {
        IntensityLevel::No => 237,
        IntensityLevel::Low => 139,
        IntensityLevel::Mid => 40,
        IntensityLevel::High => 190,
        IntensityLevel::VeryHigh => 1,
    }
}

/// The character that stands for the digit `digit`.
pub open spec fn digit_text(digit: int) -> Seq<char> {
    if digit == 0 {
        "0"@
    } else if digit == 1 {
        "1"@
    } else if digit == 2 {
        "2"@
    } else if digit == 3 {
        "3"@
    } else if digit == 4 {
        "4"@
    } else if digit == 5 {
        "5"@
    } else if digit == 6 {
        "6"@
    } else if digit == 7 {
        "7"@
    } else if digit == 8 {
        "8"@
    } else {
        "9"@
    }
}

/// The number `number` written in base ten, without leading zeros.
pub open spec fn decimal_text(number: nat) -> Seq<char>
    decreases number,
{
    if number < 10 {
        digit_text(number as int)
    } else {
        decimal_text(number / 10) + digit_text((number % 10) as int)
    }
}

fn digit_str(digit: u8) -> (text: &'static str)
    requires
        digit < 10,
    ensures
        text@ == digit_text(digit as int),
{
    match digit {
        0 => "0",
        1 => "1",
        2 => "2",
        3 => "3",
        4 => "4",
        5 => "5",
        6 => "6",
        7 => "7",
        8 => "8",
        _ => "9",
    }
}

/// Writes `number` in base ten, without leading zeros.
pub fn decimal_string(number: u8) -> (text: String)
    ensures
        text@ == decimal_text(number as nat),
{
    let mut text = String::new();
    if number >= 100 {
        text.append(digit_str(number / 100));
    }
    if number >= 10 {
        text.append(digit_str((number / 10) % 10));
    }
    text.append(digit_str(number % 10));
    proof {
        reveal_with_fuel(decimal_text, 3);
    }
    text
}

/// The square of a day: the escape sequence that selects the colour of
/// `level`, a filled square and a space, and the sequence that resets the
/// colour.
pub open spec fn cell_text(level: IntensityLevel) -> Seq<char> {
    "\x1b[38;5;"@ + decimal_text(color_code_of(level) as nat) + "m\u{25fc} \x1b[0m"@
}

/// The square of a day with the given level.
pub fn cell_string(level: IntensityLevel) -> (text: String)
    ensures
        text@ == cell_text(level),
{
    let mut text = String::from_str("\x1b[38;5;");
    let code = decimal_string(color_code(level));
    text.append(code.as_str());
    text.append("m\u{25fc} \x1b[0m");
    text
}

/// The label in front of the row of `weekday`, four characters wide: the
/// rows of Monday, Wednesday and Friday are named, the others are not.
pub open spec fn weekday_label_of(weekday: int) -> Seq<char> {
    if weekday == 1 {
        "Mon "@
    } else if weekday == 3 {
        "Wed "@
    } else if weekday == 5 {
        "Fri "@
    } else {
        "    "@
    }
}

/// The label in front of the row of `weekday`.
pub fn weekday_label(weekday: usize) -> (label: &'static str)
    ensures
        label@ == weekday_label_of(weekday as int),
{
    if weekday == 1 {
        "Mon "
    } else if weekday == 3 {
        "Wed "
    } else if weekday == 5 {
        "Fri "
    } else {
        "    "
    }
}

/// The squares of a row one after the other; a cell without a day takes no
/// room.
pub open spec fn cells_text(row: Seq<Option<IntensityLevel>>) -> Seq<char>
    decreases row.len(),
{
    if row.len() == 0 {
        Seq::empty()
    } else {
        cells_text(row.drop_last()) + match row.last() {
            Some(level) => cell_text(level),
            None => Seq::empty(),
        }
    }
}

/// The line of the row of `weekday`: its label, then its squares.
pub open spec fn row_text(weekday: int, row: Seq<Option<IntensityLevel>>) -> Seq<char> {
    weekday_label_of(weekday) + cells_text(row)
}

/// Writes the line of the row of `weekday`.
pub fn row_string(weekday: usize, row: &Vec<Option<IntensityLevel>>) -> (text: String)
    ensures
        text@ == row_text(weekday as int, row@),
{
    let mut text = String::from_str(weekday_label(weekday));
    let mut week: usize = 0;
    while week < row.len()
        invariant
            week <= row@.len(),
            text@ == weekday_label_of(weekday as int) + cells_text(row@.take(week as int)),
        decreases row@.len() - week,
    {
        proof {
            assert(row@.take(week + 1).drop_last() =~= row@.take(week as int));
        }
        match row[week] {
            Some(level) => {
                let cell = cell_string(level);
                text.append(cell.as_str());
            },
            None => {},
        }
        week += 1;
    }
    proof {
        assert(row@.take(week as int) =~= row@);
    }
    text
}

/// The three letters that name the month `month`, 1 for January.
pub open spec fn month_name_of(month: int) -> Seq<char> {
    if month == 1 {
        "Jan"@
    } else if month == 2 {
        "Feb"@
    } else if month == 3 {
        "Mar"@
    } else if month == 4 {
        "Apr"@
    } else if month == 5 {
        "May"@
    } else if month == 6 {
        "Jun"@
    } else if month == 7 {
        "Jul"@
    } else if month == 8 {
        "Aug"@
    } else if month == 9 {
        "Sep"@
    } else if month == 10 {
        "Oct"@
    } else if month == 11 {
        "Nov"@
    } else {
        "Dec"@
    }
}

/// The three letters that name the month `month`, 1 for January.
pub fn month_name(month: u32) -> (name: &'static str)
    requires
        1 <= month <= 12,
    ensures
        name@ == month_name_of(month as int),
        name@.len() == LABEL_WIDTH,
{
    proof {
        reveal_strlit("Jan");
        reveal_strlit("Feb");
        reveal_strlit("Mar");
        reveal_strlit("Apr");
        reveal_strlit("May");
        reveal_strlit("Jun");
        reveal_strlit("Jul");
        reveal_strlit("Aug");
        reveal_strlit("Sep");
        reveal_strlit("Oct");
        reveal_strlit("Nov");
        reveal_strlit("Dec");
    }
    match month {
        1 => "Jan",
        2 => "Feb",
        3 => "Mar",
        4 => "Apr",
        5 => "May",
        6 => "Jun",
        7 => "Jul",
        8 => "Aug",
        9 => "Sep",
        10 => "Oct",
        11 => "Nov",
        _ => "Dec",
    }
}

/// `count` spaces.
pub open spec fn spaces(count: int) -> Seq<char> {
    Seq::new(
        if count < 0 {
            0
        } else {
            count as nat
        },
        |i: int| ' ',
    )
}

/// The month names written from left to right, each after as many spaces
/// as bring it to its column; a name whose column is already taken follows
/// the name before it directly.
pub open spec fn labels_text(labels: Seq<MonthLabel>) -> Seq<char>
    decreases labels.len(),
{
    if labels.len() == 0 {
        Seq::empty()
    } else {
        let before = labels_text(labels.drop_last());
        before + spaces(labels.last().column - before.len()) + month_name_of(
            labels.last().month as int,
        )
    }
}

/// The line of month names: four spaces above the weekday labels, then the
/// names.
pub open spec fn month_line_text(labels: Seq<MonthLabel>) -> Seq<char> {
    "    "@ + labels_text(labels)
}

/// Writes the line of month names of `layout`.
pub fn month_line_string(layout: &Layout) -> (text: String)
    ensures
        text@ == month_line_text(layout@.month_labels),
{
    proof {
        use_type_invariant(layout);
    }
    let labels = layout.month_labels();
    let mut text = String::from_str("    ");
    let mut width: usize = 0;
    let mut position: usize = 0;
    while position < labels.len()
        invariant
            position <= labels@.len() == MONTH_LABELS,
            forall|k: int|
                0 <= k < MONTH_LABELS ==> 1 <= (#[trigger] labels@[k]).month <= 12
                    && labels@[k].column <= MAX_LABEL_COLUMN,
            text@ == "    "@ + labels_text(labels@.take(position as int)),
            width == labels_text(labels@.take(position as int)).len(),
            width <= position * (MAX_LABEL_COLUMN + LABEL_WIDTH),
        decreases labels@.len() - position,
    {
        let label = labels[position];
        let ghost before = labels_text(labels@.take(position as int));
        proof {
            assert(labels@.take(position + 1).drop_last() =~= labels@.take(position as int));
        }
        let ghost padded = width;
        while width < label.column
            invariant
                padded <= width,
                padded == before.len(),
                label.column <= MAX_LABEL_COLUMN,
                width <= padded || width <= label.column,
                text@ == "    "@ + before + spaces(width - padded),
            decreases label.column - width,
        {
            text.append(" ");
            proof {
                reveal_strlit(" ");
            }
            width += 1;
        }
        let name = month_name(label.month);
        text.append(name);
        assert(position * (MAX_LABEL_COLUMN + LABEL_WIDTH) <= 1155) by (nonlinear_arith)
            requires
                position <= 11,
                MAX_LABEL_COLUMN + LABEL_WIDTH == 105,
        ;
        width += LABEL_WIDTH;
        proof {
            assert(position * (MAX_LABEL_COLUMN + LABEL_WIDTH) + (MAX_LABEL_COLUMN + LABEL_WIDTH)
                == (position + 1) * (MAX_LABEL_COLUMN + LABEL_WIDTH)) by (nonlinear_arith);
        }
        position += 1;
    }
    proof {
        assert(labels@.take(position as int) =~= labels@);
    }
    text
}

/// The lines of the calendar: the line of month names, then the row of each
/// weekday from Sunday to Saturday.
pub open spec fn lines_of(
    month_labels: Seq<MonthLabel>,
    cells: Seq<Seq<Option<IntensityLevel>>>,
) -> Seq<Seq<char>> {
    Seq::new(
        (1 + WEEKDAYS) as nat,
        |line: int|
            if line == 0 {
                month_line_text(month_labels)
            } else {
                row_text(line - 1, cells[line - 1])
            },
    )
}

/// What each of `lines` holds.
pub open spec fn texts(lines: Seq<String>) -> Seq<Seq<char>> {
    Seq::new(lines.len(), |line: int| lines[line]@)
}

/// Writes the calendar as lines of text, without line endings.
pub fn render(layout: &Layout) -> (lines: Vec<String>)
    ensures
        texts(lines@) == lines_of(layout@.month_labels, layout@.cells),
        lines@.len() == 1 + WEEKDAYS,
{
    let mut lines: Vec<String> = Vec::new();
    lines.push(month_line_string(layout));
    let mut weekday: usize = 0;
    while weekday < WEEKDAYS
        invariant
            weekday <= WEEKDAYS,
            lines@.len() == 1 + weekday,
            forall|line: int|
                0 <= line < lines@.len() ==> (#[trigger] lines@[line])@ == lines_of(
                    layout@.month_labels,
                    layout@.cells,
                )[line],
        decreases WEEKDAYS - weekday,
    {
        lines.push(row_string(weekday, layout.row(weekday)));
        weekday += 1;
    }
    proof {
    }
    lines
}

} // verus!
