//! Progress as text: the bar, the percentage and its colour.

use crate::hours::{one_decimal_text, Hours};
use crate::model::CommitmentWithProgress;
use crate::text::{
    decimal_digits, decimal_text, digit_char, digit_to_char, push_decimal, push_signed_decimal,
};
use vstd::prelude::*;
use vstd::string::*;

verus! {

/// Width of the bar when the terminal does not tell its size.
pub const DEFAULT_BAR_WIDTH: u16 = 20;

/// Least width of the bar in a terminal.
pub const MIN_BAR_WIDTH: u16 = 10;

/// Greatest width of the bar in a terminal.
pub const MAX_BAR_WIDTH: u16 = 250;

/// Where a gauge of the week is full: at one and a half times the target.
pub const MAX_GAUGE_PERCENT: u32 = 150;

/// Greatest percentage that is shown, in tenths of a percent: 999.9 %.
pub const MAX_PERCENT_TENTHS: u32 = 9_999;

pub const RED: &'static str = "\x1b[31m";

pub const YELLOW: &'static str = "\x1b[33m";

pub const GREEN: &'static str = "\x1b[32m";

pub const RESET: &'static str = "\x1b[0m";

pub const NOT_STARTED_NOTE: &'static str = " (Haven't started this week...)";

/// Calls `terminal_size::terminal_size` and hands on the width in columns, if the
/// crate found a terminal. Nothing is claimed of the result: it depends on where the
/// program runs.
#[verifier::external_body]
fn terminal_columns() -> (columns: Option<u16>) {
    match terminal_size::terminal_size() {
        Some((terminal_size::Width(columns), _)) => Some(columns),
        None => None,
    }
}

/// The width of the bar beside a message of `message_len` characters in a terminal
/// of so many columns: what the message leaves, but at least `MIN_BAR_WIDTH` and at
/// most `MAX_BAR_WIDTH`. Without a terminal it is `DEFAULT_BAR_WIDTH`.
pub open spec fn bar_width_for(columns: Option<u16>, message_len: int) -> int {
    match columns {
        Some(columns) => if columns - message_len < MIN_BAR_WIDTH {
            MIN_BAR_WIDTH as int
        } else if columns - message_len > MAX_BAR_WIDTH {
            MAX_BAR_WIDTH as int
        } else {
            columns - message_len
        },
        None => DEFAULT_BAR_WIDTH as int,
    }
}

/// How many cells of a bar of `width` cells are filled when `current` of `target` is
/// done: the share of the width, rounded to the nearest cell, halves upwards; all of
/// them from `target` on.
pub open spec fn filled_cells(current: int, target: int, width: int) -> int {
    if current >= target {
        width
    } else {
        (2 * current * width + target) / (2 * target)
    }
}

/// `count` times the character `c`.
pub open spec fn repeated(c: char, count: int) -> Seq<char> {
    Seq::new(count as nat, |i: int| c)
}

/// The bar in brackets: filled cells as `#`, the others as `-`. Without a target
/// no cell is filled.
pub open spec fn bar_text(current: int, target: int, width: int) -> Seq<char> {
    if target <= 0 {
        seq!['['] + repeated('-', width) + seq![']']
    } else {
        seq!['['] + repeated('#', filled_cells(current, target, width)) + repeated(
            '-',
            width - filled_cells(current, target, width),
        ) + seq![']']
    }
}

/// `current` as a percentage of `target`, in tenths of a percent, cut off after the
/// tenth and at `MAX_PERCENT_TENTHS`; zero without a target.
pub open spec fn percent_tenths_of(current: int, target: int) -> int {
    if target <= 0 {
        0
    } else if current * 1000 / target > MAX_PERCENT_TENTHS {
        MAX_PERCENT_TENTHS as int
    } else {
        current * 1000 / target
    }
}

/// `current` as a whole percentage of `target`, rounded to the nearest, halves
/// upwards, and cut off at `MAX_GAUGE_PERCENT`; zero without a target.
pub open spec fn gauge_percent_of(current: int, target: int) -> int {
    if target <= 0 {
        0
    } else if 2 * current >= 3 * target {
        MAX_GAUGE_PERCENT as int
    } else {
        (200 * current + target) / (2 * target)
    }
}

/// An amount rounded to whole hours, halves upwards.
pub open spec fn whole_hours_of(micros: int) -> int {
    (micros + 500_000) / 1_000_000
}

/// The top of a chart of weekly hours: one and a half times the target, in whole
/// hours, rounded upwards.
pub open spec fn chart_top_of(target: int) -> int {
    (3 * target + 1_999_999) / 2_000_000
}

/// The escape sequence of the colour for a percentage in tenths of a percent: red
/// below 25 %, yellow below 75 %, green from there on.
pub open spec fn color_of(percent_tenths: int) -> Seq<char> {
    if percent_tenths < 250 {
        RED@
    } else if percent_tenths < 750 {
        YELLOW@
    } else {
        GREEN@
    }
}

/// A percentage in tenths of a percent as text with one decimal place.
pub open spec fn percent_text(percent_tenths: int) -> Seq<char> {
    decimal_digits((percent_tenths / 10) as nat).push('.').push(digit_char(percent_tenths % 10))
}

/// The progress of a week in words, such as `2.0/5.0 h (40.0%)`, with a note when
/// nothing was logged yet.
pub open spec fn week_progress_text(current: Option<Hours>, target: Hours) -> Seq<char> {
    let done = match current {
        Some(hours) => hours@,
        None => 0,
    };
    let line = one_decimal_text(done).push('/') + one_decimal_text(target@) + " h ("@
        + percent_text(percent_tenths_of(done, target@)) + "%)"@;
    if current is None {
        line + NOT_STARTED_NOTE@
    } else {
        line
    }
}

/// The progress of a week in words for a terminal: as `week_progress_text`, with the
/// percentage in the colour of `color_of` and the note in red.
pub open spec fn week_progress_colored_text(current: Option<Hours>, target: Hours) -> Seq<char> {
    let done = match current {
        Some(hours) => hours@,
        None => 0,
    };
    let percent = percent_tenths_of(done, target@);
    let line = one_decimal_text(done).push('/') + one_decimal_text(target@) + " h "@ + color_of(
        percent,
    ) + seq!['('] + percent_text(percent) + "%)"@ + RESET@;
    if current is None {
        line + RED@ + NOT_STARTED_NOTE@ + RESET@
    } else {
        line
    }
}

/// Least width of the id in a row of the list; a shorter id is followed by blanks.
pub const ID_COLUMN_WIDTH: usize = 3;

/// `text` with blanks after it up to `width` characters; as it is if it is longer.
pub open spec fn padded(text: Seq<char>, width: int) -> Seq<char> {
    if text.len() >= width {
        text
    } else {
        text + repeated(' ', width - text.len())
    }
}

/// The row of a commitment in the list: a mark for active or archived, the id, the
/// name and the weekly target, such as `[A] #7   Reading (target 5.0h)`.
pub open spec fn list_row_text(commitment: CommitmentWithProgress) -> Seq<char> {
    (if commitment.active {
        "[A] #"@
    } else {
        "[ ] #"@
    }) + padded(decimal_text(commitment.id as int), ID_COLUMN_WIDTH as int).push(' ')
        + commitment.name@ + " (target "@ + one_decimal_text(commitment.weekly_target_hours@)
        + "h)"@
}

/// The label of a commitment beside its gauge: the name, and the hours of the week
/// against the target, such as `Reading (2.0/5.0h)`. Nothing logged reads as zero.
pub open spec fn gauge_label_text(commitment: CommitmentWithProgress) -> Seq<char> {
    commitment.name@ + " ("@ + one_decimal_text(
        match commitment.current_week_total {
            Some(hours) => hours@,
            None => 0,
        },
    ).push('/') + one_decimal_text(commitment.weekly_target_hours@) + "h)"@
}

/// The width of the bar beside a message of `message_len` characters, in a terminal
/// of `columns` columns or without one.
pub fn bar_width(columns: Option<u16>, message_len: usize) -> (width: u16)
    ensures
        width == bar_width_for(columns, message_len as int),
        columns is Some ==> MIN_BAR_WIDTH <= width <= MAX_BAR_WIDTH,
{
    match columns {
        Some(columns) => {
            let available: u16 = if message_len >= columns as usize {
                0
            } else {
                columns - message_len as u16
            };
            if available < MIN_BAR_WIDTH {
                MIN_BAR_WIDTH
            } else if available > MAX_BAR_WIDTH {
                MAX_BAR_WIDTH
            } else {
                available
            }
        },
        None => DEFAULT_BAR_WIDTH,
    }
}

/// The width of the bar beside a message of `message_len` characters in the
/// terminal that the program runs in.
pub fn compute_bar_width(message_len: usize) -> (width: u16)
    ensures
        exists|columns: Option<u16>| width == bar_width_for(columns, message_len as int),
{
    let columns = terminal_columns();
    bar_width(columns, message_len)
}

fn push_repeated(out: &mut String, c: char, count: u16)
    ensures
        final(out)@ == old(out)@ + repeated(c, count as int),
{
    let mut k: u16 = 0;
    assert(out@ =~= old(out)@ + repeated(c, 0));
    while k < count
        invariant
            k <= count,
            out@ == old(out)@ + repeated(c, k as int),
        decreases count - k,
    {
        out.push(c);
        k = k + 1;
        assert(out@ =~= old(out)@ + repeated(c, k as int));
    }
}

/// A bar of `width` cells for `current` of `target`.
pub fn progress_bar(current: Hours, target: Hours, width: u16) -> (bar: String)
    ensures
        bar@ == bar_text(current@, target@, width as int),
{
    let mut bar = String::new();
    bar.push('[');
    if target.micros == 0 {
        push_repeated(&mut bar, '-', width);
    } else {
        let filled: u16 = if current.micros >= target.micros {
            width
        } else {
            let done: u128 = current.micros as u128;
            let goal: u128 = target.micros as u128;
            assert(2 * done * (width as u128) + goal <= 0xffff_ffff_ffff_ffff_ffff_ffff) by (nonlinear_arith)
                requires
                    done <= 0xffff_ffff_ffff_ffff,
                    goal <= 0xffff_ffff_ffff_ffff,
                    width <= 0xffff,
            ;
            let cells: u128 = (2 * done * (width as u128) + goal) / (2 * goal);
            assert(cells <= width) by (nonlinear_arith)
                requires
                    cells == (2 * done * (width as u128) + goal) / (2 * goal),
                    0 <= done < goal,
                    0 <= width,
            ;
            cells as u16
        };
        push_repeated(&mut bar, '#', filled);
        push_repeated(&mut bar, '-', width - filled);
    }
    bar.push(']');
    assert(bar@ =~= bar_text(current@, target@, width as int));
    bar
}

/// A bar for `current` of `target`, as wide as the terminal leaves beside a message
/// of `message_len` characters.
pub fn render_progress_bar(current: Hours, target: Hours, message_len: usize) -> (bar: String)
    ensures
        exists|columns: Option<u16>|
            bar@ == bar_text(current@, target@, bar_width_for(columns, message_len as int)),
{
    let width = compute_bar_width(message_len);
    progress_bar(current, target, width)
}

/// `current` as a percentage of `target`, in tenths of a percent.
pub fn percent_tenths(current: Hours, target: Hours) -> (percent: u32)
    ensures
        percent == percent_tenths_of(current@, target@),
        percent <= MAX_PERCENT_TENTHS,
{
    if target.micros == 0 {
        0
    } else {
        let share: u128 = current.micros as u128 * 1000 / (target.micros as u128);
        if share > MAX_PERCENT_TENTHS as u128 {
            MAX_PERCENT_TENTHS
        } else {
            share as u32
        }
    }
}

/// `current` as a whole percentage of `target` for a gauge that is full at
/// `MAX_GAUGE_PERCENT`. Nothing logged counts as zero hours.
pub fn gauge_percent(current: Option<Hours>, target: Hours) -> (percent: u32)
    ensures
        percent == gauge_percent_of(
            match current {
                Some(hours) => hours@,
                None => 0,
            },
            target@,
        ),
        percent <= MAX_GAUGE_PERCENT,
{
    let done: u128 = match current {
        Some(hours) => hours.micros as u128,
        None => 0,
    };
    let goal: u128 = target.micros as u128;
    if goal == 0 {
        0
    } else if 2 * done >= 3 * goal {
        MAX_GAUGE_PERCENT
    } else {
        let percent: u128 = (200 * done + goal) / (2 * goal);
        assert(percent <= 150) by (nonlinear_arith)
            requires
                percent == (200 * done + goal) / (2 * goal),
                2 * done < 3 * goal,
                goal > 0,
        ;
        percent as u32
    }
}

/// An amount rounded to whole hours.
pub fn whole_hours(hours: Hours) -> (whole: u64)
    ensures
        whole == whole_hours_of(hours@),
{
    let rest: u64 = hours.micros % 1_000_000;
    if rest >= 500_000 {
        hours.micros / 1_000_000 + 1
    } else {
        hours.micros / 1_000_000
    }
}

/// The top of a chart of weekly hours for a weekly target.
pub fn chart_top(target: Hours) -> (top: u64)
    ensures
        top == chart_top_of(target@),
{
    let scaled: u128 = 3 * (target.micros as u128) + 1_999_999;
    (scaled / 2_000_000) as u64
}

/// The escape sequence of the colour for a percentage in tenths of a percent.
pub fn color_for_pct(percent_tenths: u32) -> (color: &'static str)
    ensures
        color@ == color_of(percent_tenths as int),
{
    if percent_tenths < 250 {
        RED
    } else if percent_tenths < 750 {
        YELLOW
    } else {
        GREEN
    }
}

/// The progress of a week in words.
pub fn week_progress_message(current: Option<Hours>, target: Hours) -> (message: String)
    ensures
        message@ == week_progress_text(current, target),
{
    let done: Hours = match current {
        Some(hours) => hours,
        None => Hours::zero(),
    };
    let percent: u32 = percent_tenths(done, target);
    let mut message = String::new();
    done.push_one_decimal(&mut message);
    message.push('/');
    target.push_one_decimal(&mut message);
    message.append(" h (");
    push_decimal(&mut message, (percent / 10) as u64);
    message.push('.');
    message.push(digit_to_char((percent % 10) as u8));
    message.append("%)");
    if current.is_none() {
        message.append(NOT_STARTED_NOTE);
    }
    assert(message@ =~= week_progress_text(current, target));
    message
}

/// The progress of a week in words, coloured for a terminal.
pub fn week_progress_colored(current: Option<Hours>, target: Hours) -> (message: String)
    ensures
        message@ == week_progress_colored_text(current, target),
{
    let done: Hours = match current {
        Some(hours) => hours,
        None => Hours::zero(),
    };
    let percent: u32 = percent_tenths(done, target);
    let mut message = String::new();
    done.push_one_decimal(&mut message);
    message.push('/');
    target.push_one_decimal(&mut message);
    message.append(" h ");
    message.append(color_for_pct(percent));
    message.push('(');
    push_decimal(&mut message, (percent / 10) as u64);
    message.push('.');
    message.push(digit_to_char((percent % 10) as u8));
    message.append("%)");
    message.append(RESET);
    if current.is_none() {
        message.append(RED);
        message.append(NOT_STARTED_NOTE);
        message.append(RESET);
    }
    assert(message@ =~= week_progress_colored_text(current, target));
    message
}

/// The row of a commitment in the list.
pub fn list_row(commitment: &CommitmentWithProgress) -> (row: String)
    ensures
        row@ == list_row_text(*commitment),
{
    let mut id_text = String::new();
    push_signed_decimal(&mut id_text, commitment.id);
    let id_len: usize = id_text.as_str().unicode_len();
    let mut row = if commitment.active {
        String::from_str("[A] #")
    } else {
        String::from_str("[ ] #")
    };
    row.append(id_text.as_str());
    if id_len < ID_COLUMN_WIDTH {
        push_repeated(&mut row, ' ', (ID_COLUMN_WIDTH - id_len) as u16);
    }
    row.push(' ');
    row.append(commitment.name.as_str());
    row.append(" (target ");
    commitment.weekly_target_hours.push_one_decimal(&mut row);
    row.append("h)");
    assert(row@ =~= list_row_text(*commitment));
    row
}

/// The label of a commitment beside its gauge.
pub fn gauge_label(commitment: &CommitmentWithProgress) -> (label: String)
    ensures
        label@ == gauge_label_text(*commitment),
{
    let done: Hours = match commitment.current_week_total {
        Some(hours) => hours,
        None => Hours::zero(),
    };
    let mut label = String::from_str(commitment.name.as_str());
    label.append(" (");
    done.push_one_decimal(&mut label);
    label.push('/');
    commitment.weekly_target_hours.push_one_decimal(&mut label);
    label.append("h)");
    assert(label@ =~= gauge_label_text(*commitment));
    label
}

} // verus!
