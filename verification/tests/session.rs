use chrono::{Datelike, NaiveDate};
use std::time::{Duration, Instant};
use weekly_commit::app::{
    App, InputMode, CREATE_MSG, EMPTY_NAME_MSG, INACTIVE_MSG, LARGE_HOURS_MSG, LOG_MSG,
    MALFORMED_HOURS_MSG, NORMAL_MSG, TARGET_MSG,
};
use weekly_commit::calendar::Date;
use weekly_commit::hours::Hours;
use weekly_commit::input::{Action, Key, KeyPress};
use weekly_commit::listing::CommitmentDisplayRecord;
use weekly_commit::model::CommitmentWithProgress;

fn monday() -> Date {
    let civil = NaiveDate::from_ymd_opt(2024, 2, 5).unwrap();
    Date::from_num_days_from_ce(civil.num_days_from_ce()).unwrap()
}

fn record(id: i64, name: &str, active: bool) -> CommitmentDisplayRecord {
    (
        CommitmentWithProgress {
            id,
            name: name.to_string(),
            weekly_target_hours: Hours::from_whole(5),
            current_week_total: None,
            start_monday: monday(),
            active,
        },
        Vec::new(),
    )
}

fn three() -> Vec<CommitmentDisplayRecord> {
    vec![record(1, "Reading", true), record(2, "Running", true), record(3, "Chess", false)]
}

fn session(records: Vec<CommitmentDisplayRecord>) -> App {
    App::new(records, Instant::now())
}

fn press(key: Key) -> KeyPress {
    KeyPress { key, ctrl: false }
}

fn ctrl(c: char) -> KeyPress {
    KeyPress { key: Key::Char(c), ctrl: true }
}

fn letter(c: char) -> KeyPress {
    press(Key::Char(c))
}

fn type_text(app: &mut App, text: &str) {
    for c in text.chars() {
        assert_eq!(app.handle_key_event(letter(c)), Action::Continue);
    }
}

fn ids(app: &App) -> Vec<i64> {
    app.get_items().iter().map(|r| r.0.id).collect()
}

#[test]
fn a_new_session_selects_the_first_row() {
    let now = Instant::now();
    let app = App::new(three(), now);
    assert_eq!(app.get_selected_index(), Some(0));
    assert_eq!(app.get_selected_item().unwrap().0.id, 1);
    assert_eq!(app.get_message(), NORMAL_MSG);
    assert_eq!(app.input_mode(), InputMode::Normal);
    assert_eq!(app.input_buffer(), "");
    assert_eq!(app.last_refresh(), now);
    assert_eq!(app.get_items().len(), 3);
}

#[test]
fn a_new_session_over_nothing_selects_nothing() {
    let app = session(Vec::new());
    assert_eq!(app.get_selected_index(), None);
    assert!(app.get_selected_item().is_none());
    assert!(app.get_items().is_empty());
}

#[test]
fn a_new_session_lists_in_display_order() {
    let app = session(vec![
        record(4, "d", false),
        record(3, "c", true),
        record(2, "b", false),
        record(1, "a", true),
    ]);
    assert_eq!(ids(&app), vec![1, 3, 2, 4]);
}

#[test]
fn a_new_session_is_not_dirty() {
    let mut app = session(three());
    assert!(!app.refresh_from_db_if_dirty());
}

#[test]
fn next_wraps_from_the_last_row_to_the_first() {
    let mut app = session(three());
    app.jump_last();
    assert_eq!(app.get_selected_index(), Some(2));
    app.next();
    assert_eq!(app.get_selected_index(), Some(0));
    app.next();
    assert_eq!(app.get_selected_index(), Some(1));
}

#[test]
fn previous_wraps_from_the_first_row_to_the_last() {
    let mut app = session(three());
    assert_eq!(app.get_selected_index(), Some(0));
    app.previous();
    assert_eq!(app.get_selected_index(), Some(2));
    app.previous();
    assert_eq!(app.get_selected_index(), Some(1));
}

#[test]
fn cursor_moves_in_an_empty_list_select_nothing() {
    let mut app = session(Vec::new());
    app.next();
    assert_eq!(app.get_selected_index(), None);
    app.previous();
    assert_eq!(app.get_selected_index(), None);
    app.jump_first();
    assert_eq!(app.get_selected_index(), None);
    app.jump_last();
    assert_eq!(app.get_selected_index(), None);
}

#[test]
fn cursor_moves_from_no_selection() {
    // a list that was empty and then got rows has nothing selected
    let mut app = session(Vec::new());
    app.refresh_from_db(three(), Instant::now());
    assert_eq!(app.get_selected_index(), None);
    app.next();
    assert_eq!(app.get_selected_index(), Some(0));

    let mut app = session(Vec::new());
    app.refresh_from_db(three(), Instant::now());
    app.previous();
    assert_eq!(app.get_selected_index(), Some(2));
}

#[test]
fn jump_first_and_jump_last() {
    let mut app = session(three());
    app.jump_last();
    assert_eq!(app.get_selected_index(), Some(2));
    app.jump_first();
    assert_eq!(app.get_selected_index(), Some(0));
}

#[test]
fn cursor_in_a_list_of_one_row_stays() {
    let mut app = session(vec![record(1, "a", true)]);
    app.next();
    assert_eq!(app.get_selected_index(), Some(0));
    app.previous();
    assert_eq!(app.get_selected_index(), Some(0));
}

#[test]
fn set_message_sets_the_message() {
    let mut app = session(three());
    app.set_message("hello".to_string());
    assert_eq!(app.get_message(), "hello");
}

#[test]
fn refresh_is_due_only_when_dirty_and_clears_the_mark() {
    let mut app = session(three());
    assert!(!app.refresh_from_db_if_dirty());
    app.mark_dirty(true);
    assert!(app.refresh_from_db_if_dirty());
    assert!(!app.refresh_from_db_if_dirty());
}

#[test]
fn mark_dirty_false_does_not_take_the_mark_away() {
    let mut app = session(three());
    app.mark_dirty(true);
    app.mark_dirty(false);
    assert!(app.refresh_from_db_if_dirty());
    app.mark_dirty(false);
    assert!(!app.refresh_from_db_if_dirty());
}

#[test]
fn refresh_replaces_the_list_and_records_the_time() {
    let start = Instant::now();
    let mut app = App::new(three(), start);
    let later = start + Duration::from_secs(5);
    app.refresh_from_db(vec![record(9, "z", false), record(8, "y", true)], later);
    assert_eq!(ids(&app), vec![8, 9]);
    assert_eq!(app.last_refresh(), later);
    assert_eq!(app.get_message(), NORMAL_MSG);
}

#[test]
fn refresh_keeps_the_selection_on_its_row() {
    let mut app = session(three());
    app.next();
    app.refresh_from_db(three(), Instant::now());
    assert_eq!(app.get_selected_index(), Some(1));
}

#[test]
fn refresh_moves_the_selection_to_the_last_row_when_its_row_is_gone() {
    let mut app = session(three());
    app.jump_last();
    app.refresh_from_db(vec![record(1, "a", true), record(2, "b", true)], Instant::now());
    assert_eq!(app.get_selected_index(), Some(1));
    app.refresh_from_db(Vec::new(), Instant::now());
    assert_eq!(app.get_selected_index(), None);
}

#[test]
fn refresh_does_not_touch_the_dirty_mark() {
    let mut app = session(three());
    app.mark_dirty(true);
    app.refresh_from_db(three(), Instant::now());
    assert!(app.refresh_from_db_if_dirty());
}

#[test]
fn archive_selected_asks_for_the_write_and_confirms() {
    let mut app = session(three());
    assert_eq!(app.archive_selected(), Some(1));
    assert_eq!(app.get_message(), "Archived #1");
    assert!(app.refresh_from_db_if_dirty());
}

#[test]
fn archive_selected_on_an_archived_commitment_does_nothing() {
    let mut app = session(three());
    app.next();
    assert_eq!(app.archive_selected(), Some(2));
    assert!(app.refresh_from_db_if_dirty());
    assert_eq!(app.get_message(), "Archived #2");

    app.jump_last(); // Chess, archived
    assert_eq!(app.archive_selected(), None);
    assert_eq!(app.get_message(), "Archived #2");
    assert!(!app.refresh_from_db_if_dirty());
    assert_eq!(app.get_selected_index(), Some(2));
    assert_eq!(ids(&app), vec![1, 2, 3]);
}

#[test]
fn archive_selected_without_a_selection_does_nothing() {
    let mut app = session(Vec::new());
    assert_eq!(app.archive_selected(), None);
    assert_eq!(app.reactivate_selected(), None);
    assert_eq!(app.get_message(), NORMAL_MSG);
    assert!(!app.refresh_from_db_if_dirty());
}

#[test]
fn reactivate_selected_asks_for_the_write_and_confirms() {
    let mut app = session(three());
    app.jump_last();
    assert_eq!(app.reactivate_selected(), Some(3));
    assert_eq!(app.get_message(), "Reactivated #3");
    assert!(app.refresh_from_db_if_dirty());
}

#[test]
fn reactivate_selected_on_an_active_commitment_does_nothing() {
    let mut app = session(three());
    app.set_message("before".to_string());
    assert_eq!(app.reactivate_selected(), None);
    assert_eq!(app.get_message(), "before");
    assert!(!app.refresh_from_db_if_dirty());
}

#[test]
fn messages_name_negative_and_large_ids() {
    let mut app = session(vec![record(-12, "a", true), record(i64::MAX, "b", true)]);
    assert_eq!(app.archive_selected(), Some(-12));
    assert_eq!(app.get_message(), "Archived #-12");
    app.next();
    assert_eq!(app.archive_selected(), Some(i64::MAX));
    assert_eq!(app.get_message(), "Archived #9223372036854775807");
}

#[test]
fn help_messages_of_the_modes() {
    assert_eq!(App::get_input_help_msg(&InputMode::Normal), NORMAL_MSG);
    assert_eq!(App::get_input_help_msg(&InputMode::LogHours), LOG_MSG);
    assert_eq!(App::get_input_help_msg(&InputMode::CreateCommitment), CREATE_MSG);
    assert_eq!(
        NORMAL_MSG,
        "q: quit | j/k: move | c: add commitment | l: log | r: reactivate | a: archive"
    );
}

#[test]
fn labels_of_the_modes() {
    assert_eq!(InputMode::Normal.label(), "NORMAL");
    assert_eq!(InputMode::LogHours.label(), "LOG HOUR");
    assert_eq!(InputMode::CreateCommitment.label(), "CREATE");
}

#[test]
fn switch_state_sets_mode_and_help_and_drops_what_was_typed() {
    let mut app = session(three());
    app.switch_state(InputMode::LogHours);
    assert_eq!(app.input_mode(), InputMode::LogHours);
    assert_eq!(app.get_message(), LOG_MSG);
    app.type_char('4');
    assert_eq!(app.input_buffer(), "4");
    app.switch_state(InputMode::Normal);
    assert_eq!(app.input_mode(), InputMode::Normal);
    assert_eq!(app.get_message(), NORMAL_MSG);
    assert_eq!(app.input_buffer(), "");
}

#[test]
fn start_log_on_an_active_commitment_enters_log_mode() {
    let mut app = session(three());
    assert_eq!(app.handle_key_event(letter('l')), Action::Continue);
    assert_eq!(app.input_mode(), InputMode::LogHours);
    assert_eq!(app.get_message(), LOG_MSG);
}

#[test]
fn start_log_on_an_archived_commitment_stays_in_normal_mode() {
    let mut app = session(three());
    app.jump_last();
    assert_eq!(app.handle_key_event(letter('l')), Action::Continue);
    assert_eq!(app.input_mode(), InputMode::Normal);
    assert_eq!(app.get_message(), INACTIVE_MSG);
    assert_eq!(INACTIVE_MSG, "You can only log hours for activated items");
}

#[test]
fn start_log_without_a_selection_does_nothing() {
    let mut app = session(Vec::new());
    assert_eq!(app.handle_key_event(letter('l')), Action::Continue);
    assert_eq!(app.input_mode(), InputMode::Normal);
    assert_eq!(app.get_message(), NORMAL_MSG);
}

#[test]
fn confirming_hours_asks_for_the_write_and_returns_to_normal_mode() {
    let mut app = session(three());
    app.next();
    app.handle_key_event(letter('l'));
    type_text(&mut app, "1.5");
    assert_eq!(app.input_buffer(), "1.5");
    assert_eq!(
        app.handle_key_event(press(Key::Enter)),
        Action::LogHours(2, Hours::from_micros(1_500_000))
    );
    assert_eq!(app.input_mode(), InputMode::Normal);
    assert_eq!(app.input_buffer(), "");
    assert_eq!(app.get_message(), NORMAL_MSG);
    assert!(app.refresh_from_db_if_dirty());
}

#[test]
fn confirming_hours_that_do_not_parse_stays_in_log_mode() {
    let mut app = session(three());
    app.handle_key_event(letter('l'));
    type_text(&mut app, "1.5.2");
    assert_eq!(app.handle_key_event(press(Key::Enter)), Action::Continue);
    assert_eq!(app.input_mode(), InputMode::LogHours);
    assert_eq!(app.input_buffer(), "1.5.2");
    assert_eq!(app.get_message(), MALFORMED_HOURS_MSG);
    assert!(!app.refresh_from_db_if_dirty());
}

#[test]
fn confirming_nothing_typed_stays_in_log_mode() {
    let mut app = session(three());
    app.handle_key_event(letter('l'));
    assert_eq!(app.handle_key_event(press(Key::Enter)), Action::Continue);
    assert_eq!(app.input_mode(), InputMode::LogHours);
    assert_eq!(app.get_message(), MALFORMED_HOURS_MSG);
}

#[test]
fn confirming_too_many_hours_stays_in_log_mode() {
    let mut app = session(three());
    app.handle_key_event(letter('l'));
    type_text(&mut app, "99999999999999999999");
    assert_eq!(app.handle_key_event(press(Key::Enter)), Action::Continue);
    assert_eq!(app.input_mode(), InputMode::LogHours);
    assert_eq!(app.input_buffer(), "99999999999999999999");
    assert_eq!(app.get_message(), LARGE_HOURS_MSG);
}

#[test]
fn confirming_hours_outside_log_mode_does_nothing() {
    let mut app = session(three());
    app.type_char('2');
    assert_eq!(app.confirm_log_hours(), Action::Continue);
    assert_eq!(app.input_mode(), InputMode::Normal);
    assert_eq!(app.input_buffer(), "2");
    assert!(!app.refresh_from_db_if_dirty());
}

#[test]
fn confirming_hours_for_a_commitment_that_was_archived_meanwhile_logs_nothing() {
    let mut app = session(three());
    app.handle_key_event(letter('l'));
    type_text(&mut app, "2");
    app.refresh_from_db(vec![record(1, "Reading", false)], Instant::now());
    assert_eq!(app.handle_key_event(press(Key::Enter)), Action::Continue);
    assert_eq!(app.input_mode(), InputMode::Normal);
    assert_eq!(app.get_message(), INACTIVE_MSG);
    assert!(!app.refresh_from_db_if_dirty());
}

#[test]
fn cancelling_drops_what_was_typed() {
    for cancel in [press(Key::Esc), letter('q')] {
        let mut app = session(three());
        app.handle_key_event(letter('l'));
        type_text(&mut app, "12");
        assert_eq!(app.handle_key_event(cancel), Action::Continue);
        assert_eq!(app.input_mode(), InputMode::Normal);
        assert_eq!(app.input_buffer(), "");
        assert_eq!(app.get_message(), NORMAL_MSG);
        assert!(!app.refresh_from_db_if_dirty());
    }
}

#[test]
fn log_mode_takes_digits_and_dots_only() {
    let mut app = session(three());
    app.handle_key_event(letter('l'));
    type_text(&mut app, "1a2-.x5 ");
    assert_eq!(app.input_buffer(), "12.5");
    assert_eq!(app.handle_key_event(press(Key::Up)), Action::Continue);
    assert_eq!(app.handle_key_event(press(Key::Other)), Action::Continue);
    assert_eq!(app.handle_key_event(ctrl('5')), Action::Continue);
    assert_eq!(app.input_buffer(), "12.5");
    assert_eq!(app.get_selected_index(), Some(0));
}

#[test]
fn control_u_wipes_out_what_was_typed() {
    let mut app = session(three());
    app.handle_key_event(letter('l'));
    type_text(&mut app, "12");
    assert_eq!(app.handle_key_event(ctrl('u')), Action::Continue);
    assert_eq!(app.input_buffer(), "");
    assert_eq!(app.input_mode(), InputMode::LogHours);
    type_text(&mut app, "3");
    assert_eq!(
        app.handle_key_event(press(Key::Enter)),
        Action::LogHours(1, Hours::from_whole(3))
    );
}

#[test]
fn normal_mode_keys_move_the_cursor() {
    let mut app = session(three());
    assert_eq!(app.handle_key_event(letter('j')), Action::Continue);
    assert_eq!(app.get_selected_index(), Some(1));
    assert_eq!(app.handle_key_event(press(Key::Down)), Action::Continue);
    assert_eq!(app.get_selected_index(), Some(2));
    assert_eq!(app.handle_key_event(letter('k')), Action::Continue);
    assert_eq!(app.get_selected_index(), Some(1));
    assert_eq!(app.handle_key_event(press(Key::Up)), Action::Continue);
    assert_eq!(app.get_selected_index(), Some(0));
    assert_eq!(app.handle_key_event(letter('G')), Action::Continue);
    assert_eq!(app.get_selected_index(), Some(2));
    assert_eq!(app.handle_key_event(ctrl('g')), Action::Continue);
    assert_eq!(app.get_selected_index(), Some(0));
}

#[test]
fn plain_g_does_not_jump() {
    let mut app = session(three());
    app.jump_last();
    assert_eq!(app.handle_key_event(letter('g')), Action::Continue);
    assert_eq!(app.get_selected_index(), Some(2));
}

#[test]
fn normal_mode_q_quits() {
    let mut app = session(three());
    assert_eq!(app.handle_key_event(letter('q')), Action::Quit);
    assert_eq!(app.input_mode(), InputMode::Normal);
}

#[test]
fn normal_mode_a_and_r_ask_for_writes() {
    let mut app = session(three());
    assert_eq!(app.handle_key_event(letter('a')), Action::Archive(1));
    assert_eq!(app.handle_key_event(letter('r')), Action::Continue);
    app.jump_last();
    assert_eq!(app.handle_key_event(letter('r')), Action::Reactivate(3));
    assert_eq!(app.handle_key_event(letter('a')), Action::Continue);
    assert_eq!(app.get_message(), "Reactivated #3");
}

#[test]
fn normal_mode_ignores_other_keys() {
    let mut app = session(three());
    for key in [press(Key::Enter), press(Key::Esc), press(Key::Other), letter('x'), letter('5')] {
        assert_eq!(app.handle_key_event(key), Action::Continue);
    }
    assert_eq!(app.get_selected_index(), Some(0));
    assert_eq!(app.input_mode(), InputMode::Normal);
    assert_eq!(app.get_message(), NORMAL_MSG);
    assert_eq!(app.input_buffer(), "");
}

#[test]
fn creating_a_commitment_takes_a_name_and_then_a_target() {
    let mut app = session(three());
    assert_eq!(app.handle_key_event(letter('c')), Action::Continue);
    assert_eq!(app.input_mode(), InputMode::CreateCommitment);
    assert_eq!(app.get_message(), CREATE_MSG);
    type_text(&mut app, "Deep work q1");
    assert_eq!(app.input_buffer(), "Deep work q1");
    assert_eq!(app.handle_key_event(press(Key::Enter)), Action::Continue);
    assert_eq!(app.input_mode(), InputMode::CreateCommitment);
    assert_eq!(app.get_message(), TARGET_MSG);
    assert_eq!(app.input_buffer(), "");
    type_text(&mut app, "7x.5");
    assert_eq!(app.input_buffer(), "7.5");
    assert_eq!(
        app.handle_key_event(press(Key::Enter)),
        Action::AddCommitment("Deep work q1".to_string(), Hours::from_micros(7_500_000))
    );
    assert_eq!(app.input_mode(), InputMode::Normal);
    assert_eq!(app.input_buffer(), "");
    assert_eq!(app.get_message(), NORMAL_MSG);
    assert!(app.refresh_from_db_if_dirty());
}

#[test]
fn creating_a_commitment_needs_a_name() {
    let mut app = session(three());
    app.handle_key_event(letter('c'));
    assert_eq!(app.handle_key_event(press(Key::Enter)), Action::Continue);
    assert_eq!(app.input_mode(), InputMode::CreateCommitment);
    assert_eq!(app.get_message(), EMPTY_NAME_MSG);
    // still at the name
    type_text(&mut app, "Chess");
    assert_eq!(app.input_buffer(), "Chess");
}

#[test]
fn creating_a_commitment_needs_a_target_that_parses() {
    let mut app = session(three());
    app.handle_key_event(letter('c'));
    type_text(&mut app, "Chess");
    app.handle_key_event(press(Key::Enter));
    type_text(&mut app, "1.2.3");
    assert_eq!(app.handle_key_event(press(Key::Enter)), Action::Continue);
    assert_eq!(app.input_mode(), InputMode::CreateCommitment);
    assert_eq!(app.input_buffer(), "1.2.3");
    assert_eq!(app.get_message(), MALFORMED_HOURS_MSG);
    assert!(!app.refresh_from_db_if_dirty());
    app.handle_key_event(ctrl('u'));
    type_text(&mut app, "2");
    assert_eq!(
        app.handle_key_event(press(Key::Enter)),
        Action::AddCommitment("Chess".to_string(), Hours::from_whole(2))
    );
}

#[test]
fn creating_a_commitment_can_be_cancelled_at_either_step() {
    let mut app = session(three());
    app.handle_key_event(letter('c'));
    type_text(&mut app, "Che");
    assert_eq!(app.handle_key_event(press(Key::Esc)), Action::Continue);
    assert_eq!(app.input_mode(), InputMode::Normal);
    assert_eq!(app.input_buffer(), "");

    app.handle_key_event(letter('c'));
    type_text(&mut app, "Chess");
    app.handle_key_event(press(Key::Enter));
    type_text(&mut app, "2");
    assert_eq!(app.handle_key_event(press(Key::Esc)), Action::Continue);
    assert_eq!(app.input_mode(), InputMode::Normal);
    assert_eq!(app.input_buffer(), "");
    assert!(!app.refresh_from_db_if_dirty());

    // a new start begins with the name again
    app.handle_key_event(letter('c'));
    assert_eq!(app.get_message(), CREATE_MSG);
    type_text(&mut app, "abc");
    assert_eq!(app.input_buffer(), "abc");
}

#[test]
fn confirming_a_commitment_outside_its_mode_does_nothing() {
    let mut app = session(three());
    app.type_char('x');
    assert_eq!(app.confirm_create_commitment(), Action::Continue);
    assert_eq!(app.input_mode(), InputMode::Normal);
    assert_eq!(app.input_buffer(), "x");
    assert_eq!(app.get_message(), NORMAL_MSG);
}

#[test]
fn a_failure_of_the_store_keeps_the_list_and_returns_to_normal_mode() {
    let mut app = session(three());
    app.next();
    app.handle_key_event(letter('l'));
    type_text(&mut app, "2");
    app.storage_failed("database is locked");
    assert_eq!(app.get_message(), "Storage error: database is locked");
    assert_eq!(app.input_mode(), InputMode::Normal);
    assert_eq!(app.input_buffer(), "");
    assert_eq!(ids(&app), vec![1, 2, 3]);
    assert_eq!(app.get_selected_index(), Some(1));
}

#[test]
fn clear_input_and_cancel_input() {
    let mut app = session(three());
    app.switch_state(InputMode::LogHours);
    app.type_char('1');
    app.type_char('2');
    app.clear_input();
    assert_eq!(app.input_buffer(), "");
    assert_eq!(app.input_mode(), InputMode::LogHours);
    app.type_char('3');
    app.cancel_input();
    assert_eq!(app.input_buffer(), "");
    assert_eq!(app.input_mode(), InputMode::Normal);
}
