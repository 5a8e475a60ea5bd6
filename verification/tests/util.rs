use chrono::{Datelike, NaiveDate};
use weekly_commit::calendar::Date;
use weekly_commit::hours::Hours;
use weekly_commit::model::CommitmentWithProgress;
use weekly_commit::util::{
    bar_width, chart_top, color_for_pct, compute_bar_width, gauge_label, gauge_percent, list_row,
    percent_tenths, progress_bar, render_progress_bar, week_progress_colored,
    week_progress_message, whole_hours, DEFAULT_BAR_WIDTH, GREEN, MAX_BAR_WIDTH,
    MAX_GAUGE_PERCENT, MIN_BAR_WIDTH, RED, YELLOW,
};

fn progress(id: i64, name: &str, active: bool, total: Option<Hours>) -> CommitmentWithProgress {
    let monday = NaiveDate::from_ymd_opt(2024, 2, 5).unwrap();
    CommitmentWithProgress {
        id,
        name: name.to_string(),
        weekly_target_hours: Hours::from_whole(5),
        current_week_total: total,
        start_monday: Date::from_num_days_from_ce(monday.num_days_from_ce()).unwrap(),
        active,
    }
}

#[test]
fn bar_width_is_what_the_message_leaves() {
    assert_eq!(bar_width(Some(80), 30), 50);
    assert_eq!(bar_width(Some(80), 0), 80);
}

#[test]
fn bar_width_is_at_least_ten_and_at_most_two_hundred_and_fifty() {
    assert_eq!(bar_width(Some(80), 75), 10);
    assert_eq!(bar_width(Some(80), 80), 10);
    assert_eq!(bar_width(Some(80), 500), 10);
    assert_eq!(bar_width(Some(80), usize::MAX), 10);
    assert_eq!(bar_width(Some(1000), 10), 250);
    assert_eq!(bar_width(Some(u16::MAX), 0), 250);
    assert_eq!(bar_width(Some(260), 10), 250);
    assert_eq!(bar_width(Some(259), 10), 249);
    assert_eq!(MIN_BAR_WIDTH, 10);
    assert_eq!(MAX_BAR_WIDTH, 250);
}

#[test]
fn bar_width_without_a_terminal_is_twenty() {
    assert_eq!(bar_width(None, 0), 20);
    assert_eq!(bar_width(None, 1000), 20);
    assert_eq!(DEFAULT_BAR_WIDTH, 20);
}

#[test]
fn compute_bar_width_is_a_width_that_bar_width_gives() {
    let width = compute_bar_width(30);
    assert!(width == DEFAULT_BAR_WIDTH || (MIN_BAR_WIDTH..=MAX_BAR_WIDTH).contains(&width));
}

#[test]
fn progress_bar_fills_the_share_that_is_done() {
    assert_eq!(progress_bar(Hours::from_whole(2), Hours::from_whole(5), 10), "[####------]");
    assert_eq!(progress_bar(Hours::zero(), Hours::from_whole(5), 10), "[----------]");
    assert_eq!(progress_bar(Hours::from_whole(5), Hours::from_whole(5), 10), "[##########]");
    assert_eq!(progress_bar(Hours::from_whole(1), Hours::from_whole(4), 8), "[##------]");
}

#[test]
fn progress_bar_is_full_from_the_target_on() {
    assert_eq!(progress_bar(Hours::from_whole(9), Hours::from_whole(5), 4), "[####]");
    assert_eq!(progress_bar(Hours::from_micros(u64::MAX), Hours::from_micros(1), 3), "[###]");
}

#[test]
fn progress_bar_rounds_to_the_nearest_cell() {
    // 1 of 3 over 10 cells is 3.33 cells; 2 of 3 is 6.67 cells
    assert_eq!(progress_bar(Hours::from_whole(1), Hours::from_whole(3), 10), "[###-------]");
    assert_eq!(progress_bar(Hours::from_whole(2), Hours::from_whole(3), 10), "[#######---]");
    // a quarter of 10 cells is 2.5 cells: halves go up
    assert_eq!(progress_bar(Hours::from_whole(1), Hours::from_whole(4), 10), "[###-------]");
    // nearly done, but not done
    assert_eq!(
        progress_bar(Hours::from_micros(u64::MAX - 1), Hours::from_micros(u64::MAX), 4),
        "[####]"
    );
}

#[test]
fn progress_bar_without_a_target_is_empty() {
    assert_eq!(progress_bar(Hours::from_whole(2), Hours::zero(), 5), "[-----]");
    assert_eq!(progress_bar(Hours::zero(), Hours::zero(), 5), "[-----]");
}

#[test]
fn progress_bar_of_no_width_is_the_brackets() {
    assert_eq!(progress_bar(Hours::from_whole(2), Hours::from_whole(5), 0), "[]");
    assert_eq!(progress_bar(Hours::from_whole(2), Hours::zero(), 0), "[]");
}

#[test]
fn render_progress_bar_is_a_bar_of_a_width_that_the_terminal_allows() {
    let bar = render_progress_bar(Hours::from_whole(1), Hours::from_whole(2), 30);
    let width = bar.len() - 2;
    assert!(width == 20 || (10..=250).contains(&width));
    assert_eq!(bar, progress_bar(Hours::from_whole(1), Hours::from_whole(2), width as u16));
}

#[test]
fn percent_in_tenths() {
    assert_eq!(percent_tenths(Hours::from_whole(2), Hours::from_whole(5)), 400);
    assert_eq!(percent_tenths(Hours::zero(), Hours::from_whole(5)), 0);
    assert_eq!(percent_tenths(Hours::from_whole(5), Hours::from_whole(5)), 1000);
    assert_eq!(percent_tenths(Hours::from_whole(1), Hours::from_whole(3)), 333);
    assert_eq!(percent_tenths(Hours::from_whole(2), Hours::from_whole(3)), 666);
}

#[test]
fn percent_is_cut_off_at_999_9() {
    assert_eq!(percent_tenths(Hours::from_whole(50), Hours::from_whole(5)), 9_999);
    assert_eq!(percent_tenths(Hours::from_micros(u64::MAX), Hours::from_micros(1)), 9_999);
    assert_eq!(percent_tenths(Hours::from_micros(9_999), Hours::from_micros(1_000)), 9_999);
    assert_eq!(percent_tenths(Hours::from_micros(9_998), Hours::from_micros(1_000)), 9_998);
}

#[test]
fn percent_without_a_target_is_zero() {
    assert_eq!(percent_tenths(Hours::from_whole(2), Hours::zero()), 0);
}

#[test]
fn colors_by_percentage() {
    assert_eq!(color_for_pct(0), RED);
    assert_eq!(color_for_pct(249), RED);
    assert_eq!(color_for_pct(250), YELLOW);
    assert_eq!(color_for_pct(749), YELLOW);
    assert_eq!(color_for_pct(750), GREEN);
    assert_eq!(color_for_pct(9_999), GREEN);
    assert_eq!(RED, "\x1b[31m");
    assert_eq!(YELLOW, "\x1b[33m");
    assert_eq!(GREEN, "\x1b[32m");
}

#[test]
fn week_progress_in_words() {
    assert_eq!(
        week_progress_message(Some(Hours::from_whole(2)), Hours::from_whole(5)),
        "2.0/5.0 h (40.0%)"
    );
    assert_eq!(
        week_progress_message(Some(Hours::from_micros(7_500_000)), Hours::from_whole(5)),
        "7.5/5.0 h (150.0%)"
    );
    assert_eq!(
        week_progress_message(Some(Hours::zero()), Hours::from_whole(5)),
        "0.0/5.0 h (0.0%)"
    );
}

#[test]
fn week_progress_not_started() {
    assert_eq!(
        week_progress_message(None, Hours::from_whole(5)),
        "0.0/5.0 h (0.0%) (Haven't started this week...)"
    );
}

#[test]
fn week_progress_in_colour() {
    assert_eq!(
        week_progress_colored(Some(Hours::from_whole(2)), Hours::from_whole(5)),
        "2.0/5.0 h \x1b[33m(40.0%)\x1b[0m"
    );
    assert_eq!(
        week_progress_colored(Some(Hours::from_whole(1)), Hours::from_whole(5)),
        "1.0/5.0 h \x1b[31m(20.0%)\x1b[0m"
    );
    assert_eq!(
        week_progress_colored(Some(Hours::from_whole(4)), Hours::from_whole(5)),
        "4.0/5.0 h \x1b[32m(80.0%)\x1b[0m"
    );
    assert_eq!(
        week_progress_colored(None, Hours::from_whole(5)),
        "0.0/5.0 h \x1b[31m(0.0%)\x1b[0m\x1b[31m (Haven't started this week...)\x1b[0m"
    );
}

#[test]
fn gauge_percent_is_full_at_one_and_a_half_times_the_target() {
    assert_eq!(gauge_percent(Some(Hours::from_whole(2)), Hours::from_whole(5)), 40);
    assert_eq!(gauge_percent(Some(Hours::from_whole(5)), Hours::from_whole(5)), 100);
    assert_eq!(gauge_percent(Some(Hours::from_micros(7_499_999)), Hours::from_whole(5)), 150);
    assert_eq!(gauge_percent(Some(Hours::from_micros(7_450_000)), Hours::from_whole(5)), 149);
    assert_eq!(gauge_percent(Some(Hours::from_whole(8)), Hours::from_whole(5)), 150);
    assert_eq!(gauge_percent(Some(Hours::from_micros(u64::MAX)), Hours::from_micros(1)), 150);
    assert_eq!(MAX_GAUGE_PERCENT, 150);
}

#[test]
fn gauge_percent_rounds_to_the_nearest_percent() {
    assert_eq!(gauge_percent(Some(Hours::from_whole(1)), Hours::from_whole(3)), 33);
    assert_eq!(gauge_percent(Some(Hours::from_whole(2)), Hours::from_whole(3)), 67);
    assert_eq!(gauge_percent(Some(Hours::from_micros(5)), Hours::from_micros(1_000)), 1);
    assert_eq!(gauge_percent(Some(Hours::from_micros(4)), Hours::from_micros(1_000)), 0);
}

#[test]
fn gauge_percent_of_nothing_logged_or_no_target_is_zero() {
    assert_eq!(gauge_percent(None, Hours::from_whole(5)), 0);
    assert_eq!(gauge_percent(Some(Hours::from_whole(2)), Hours::zero()), 0);
    assert_eq!(gauge_percent(None, Hours::zero()), 0);
}

#[test]
fn whole_hours_round_halves_upwards() {
    assert_eq!(whole_hours(Hours::zero()), 0);
    assert_eq!(whole_hours(Hours::from_micros(499_999)), 0);
    assert_eq!(whole_hours(Hours::from_micros(500_000)), 1);
    assert_eq!(whole_hours(Hours::from_micros(2_400_000)), 2);
    assert_eq!(whole_hours(Hours::from_micros(u64::MAX)), 18_446_744_073_710);
}

#[test]
fn chart_top_is_one_and_a_half_targets_rounded_upwards() {
    assert_eq!(chart_top(Hours::from_whole(10)), 15);
    assert_eq!(chart_top(Hours::from_whole(5)), 8);
    assert_eq!(chart_top(Hours::from_whole(1)), 2);
    assert_eq!(chart_top(Hours::zero()), 0);
    assert_eq!(chart_top(Hours::from_micros(1)), 1);
    assert_eq!(chart_top(Hours::from_micros(u64::MAX)), 27_670_116_110_565);
}

#[test]
fn rows_of_the_list() {
    assert_eq!(list_row(&progress(7, "Reading", true, None)), "[A] #7   Reading (target 5.0h)");
    assert_eq!(list_row(&progress(42, "Chess", false, None)), "[ ] #42  Chess (target 5.0h)");
    assert_eq!(list_row(&progress(123, "a", true, None)), "[A] #123 a (target 5.0h)");
    assert_eq!(list_row(&progress(1234, "a", true, None)), "[A] #1234 a (target 5.0h)");
    assert_eq!(list_row(&progress(-1, "", true, None)), "[A] #-1   (target 5.0h)");
}

#[test]
fn labels_of_the_gauges() {
    assert_eq!(
        gauge_label(&progress(7, "Reading", true, Some(Hours::from_whole(2)))),
        "Reading (2.0/5.0h)"
    );
    assert_eq!(gauge_label(&progress(7, "Reading", true, None)), "Reading (0.0/5.0h)");
}
