//! The state of an interactive session: the list of commitments, the selection, the
//! input mode, the message line, and the flag that says the list is stale.

use crate::hours::{parse_hours, parsed_hours, Hours, HoursParseError};
use crate::input::{Action, ActionView, Key, KeyPress};
use crate::listing::{display_order, in_display_order, sort_for_display, CommitmentDisplayRecord};
use crate::text::{decimal_text, is_digit, push_signed_decimal};
use std::time::Instant;
use vstd::prelude::*;
use vstd::string::*;

verus! {

/// std's `Instant`, a point in time. Nothing is known of a value but which value it is.
#[verifier::external_type_specification]
#[verifier::external_body]
pub struct ExInstant(Instant);

/// What the keys of a session do.
#[derive(Debug, Clone, Copy, PartialEq, Eq, Structural)]
pub enum InputMode {
    /// Move in the list, archive, reactivate, start an entry.
    Normal,
    /// Type the hours to log for the selected commitment.
    LogHours,
    /// Type the name, then the weekly target, of a new commitment.
    CreateCommitment,
}

pub const NORMAL_MSG: &'static str =
    "q: quit | j/k: move | c: add commitment | l: log | r: reactivate | a: archive";

pub const LOG_MSG: &'static str =
    "q/esc: quit | numeric characters (0-9, .): Hours Input | ctrl-u: clear";

pub const CREATE_MSG: &'static str = "New commitment name: (Enter to confirm, ESC to cancel)";

pub const TARGET_MSG: &'static str = "Weekly target hours: (Enter to confirm, ESC to cancel)";

pub const INACTIVE_MSG: &'static str = "You can only log hours for activated items";

pub const EMPTY_NAME_MSG: &'static str = "The name of a commitment must not be empty";

pub const MALFORMED_HOURS_MSG: &'static str = "Hours must be a number such as 2 or 1.5";

pub const LARGE_HOURS_MSG: &'static str = "That is more hours than can be recorded";

/// The key help that the message line shows on entering a mode.
pub open spec fn help_text(mode: InputMode) -> Seq<char> {
    match mode {
        InputMode::Normal => NORMAL_MSG@,
        InputMode::LogHours => LOG_MSG@,
        InputMode::CreateCommitment => CREATE_MSG@,
    }
}

/// The name of a mode as the status line shows it.
pub open spec fn mode_label(mode: InputMode) -> Seq<char> {
    match mode {
        InputMode::Normal => "NORMAL"@,
        InputMode::LogHours => "LOG HOUR"@,
        InputMode::CreateCommitment => "CREATE"@,
    }
}

/// The message that tells why a text was not taken as hours.
pub open spec fn parse_error_text(error: HoursParseError) -> Seq<char> {
    match error {
        HoursParseError::Malformed => MALFORMED_HOURS_MSG@,
        HoursParseError::TooLarge => LARGE_HOURS_MSG@,
    }
}

/// The message that confirms an archive write.
pub open spec fn archived_text(id: i64) -> Seq<char> {
    "Archived #"@ + decimal_text(id as int)
}

/// The message that confirms a reactivate write.
pub open spec fn reactivated_text(id: i64) -> Seq<char> {
    "Reactivated #"@ + decimal_text(id as int)
}

/// The message that reports a failure of the store.
pub open spec fn storage_error_text(detail: Seq<char>) -> Seq<char> {
    "Storage error: "@ + detail
}

/// Whether a character may be typed into an amount of hours.
pub open spec fn is_hours_char(c: char) -> bool {
    is_digit(c) || c == '.'
}

/// The selection after the list has come to have `len` rows: the row that was
/// selected, or the last row if that one is gone, or none in an empty list.
pub open spec fn kept_index(selected: Option<usize>, len: nat) -> Option<usize> {
    match selected {
        Some(i) => if len == 0 {
            None
        } else if i >= len {
            Some((len - 1) as usize)
        } else {
            Some(i)
        },
        None => None,
    }
}

/// The state of a session as plain values.
pub struct AppView {
    pub items: Seq<CommitmentDisplayRecord>,
    pub selected: Option<usize>,
    pub message: Seq<char>,
    pub dirty: bool,
    pub input_buffer: Seq<char>,
    pub input_mode: InputMode,
    pub draft_name: Option<Seq<char>>,
    pub last_refresh: Instant,
}

/// The index after `selected` in a list of `len` rows, going round to the first row
/// after the last. With nothing selected it is the first row; in an empty list there
/// is none.
pub open spec fn next_index(selected: Option<usize>, len: nat) -> Option<usize> {
    if len == 0 {
        None
    } else {
        match selected {
            Some(i) => Some(((i + 1) % (len as int)) as usize),
            None => Some(0),
        }
    }
}

/// The index before `selected` in a list of `len` rows, going round to the last row
/// before the first. With nothing selected it is the last row; in an empty list there
/// is none.
pub open spec fn previous_index(selected: Option<usize>, len: nat) -> Option<usize> {
    if len == 0 {
        None
    } else {
        match selected {
            Some(i) => if i == 0 {
                Some((len - 1) as usize)
            } else {
                Some((i - 1) as usize)
            },
            None => Some((len - 1) as usize),
        }
    }
}

/// The first row of a list of `len` rows; none in an empty list.
pub open spec fn first_index(len: nat) -> Option<usize> {
    if len == 0 {
        None
    } else {
        Some(0)
    }
}

/// The last row of a list of `len` rows; none in an empty list.
pub open spec fn last_index(len: nat) -> Option<usize> {
    if len == 0 {
        None
    } else {
        Some((len - 1) as usize)
    }
}

impl AppView {
    /// What holds of every session: the selection is a row of the list, the list is in
    /// display order, and a name is kept only while a commitment is being created.
    pub open spec fn well_formed(self) -> bool {
        &&& self.selected matches Some(i) ==> i < self.items.len()
        &&& in_display_order(self.items)
        &&& self.draft_name is Some ==> self.input_mode == InputMode::CreateCommitment
    }

    /// The selected row, if a row is selected.
    pub open spec fn selected_item(self) -> Option<CommitmentDisplayRecord> {
        match self.selected {
            Some(i) => if i < self.items.len() {
                Some(self.items[i as int])
            } else {
                None
            },
            None => None,
        }
    }

    /// The id of the selected commitment, if one is selected and it is active: the
    /// commitment that can be archived, and that hours can be logged for.
    pub open spec fn selected_active(self) -> Option<i64> {
        match self.selected_item() {
            Some(item) => if item.0.active {
                Some(item.0.id)
            } else {
                None
            },
            None => None,
        }
    }

    /// The id of the selected commitment, if one is selected and it is archived: the
    /// commitment that can be reactivated.
    pub open spec fn selected_archived(self) -> Option<i64> {
        match self.selected_item() {
            Some(item) => if item.0.active {
                None
            } else {
                Some(item.0.id)
            },
            None => None,
        }
    }

    /// The session after `archive_selected`.
    pub open spec fn after_archive(self) -> AppView {
        match self.selected_active() {
            Some(id) => AppView { message: archived_text(id), dirty: true, ..self },
            None => self,
        }
    }

    /// The session after `reactivate_selected`.
    pub open spec fn after_reactivate(self) -> AppView {
        match self.selected_archived() {
            Some(id) => AppView { message: reactivated_text(id), dirty: true, ..self },
            None => self,
        }
    }

    /// The session after `switch_state`: in the mode `target`, with its key help as
    /// the message and nothing typed.
    pub open spec fn switched(self, target: InputMode) -> AppView {
        AppView {
            message: help_text(target),
            input_buffer: Seq::empty(),
            input_mode: target,
            draft_name: None,
            ..self
        }
    }

    /// The session after `start_log_hours`.
    pub open spec fn after_start_log(self) -> AppView {
        match self.selected_item() {
            Some(item) => if item.0.active {
                self.switched(InputMode::LogHours)
            } else {
                AppView { message: INACTIVE_MSG@, ..self }
            },
            None => self,
        }
    }

    /// The session after `confirm_log_hours`, and the action it asks for.
    pub open spec fn after_confirm_log(self) -> (AppView, ActionView) {
        if self.input_mode != InputMode::LogHours {
            (self, ActionView::Continue)
        } else {
            self.confirmed_log()
        }
    }

    /// The session after hours were confirmed in their mode, and the action it asks
    /// for.
    pub open spec fn confirmed_log(self) -> (AppView, ActionView) {
        match parsed_hours(self.input_buffer) {
            Ok(hours) => match self.selected_active() {
                Some(id) => (
                    AppView { dirty: true, ..self.switched(InputMode::Normal) },
                    ActionView::LogHours(id, hours),
                ),
                None => (
                    AppView { message: INACTIVE_MSG@, ..self.switched(InputMode::Normal) },
                    ActionView::Continue,
                ),
            },
            Err(error) => (
                AppView { message: parse_error_text(error), ..self },
                ActionView::Continue,
            ),
        }
    }

    /// The session after `confirm_create_commitment`, and the action it asks for.
    pub open spec fn after_confirm_create(self) -> (AppView, ActionView) {
        if self.input_mode != InputMode::CreateCommitment {
            (self, ActionView::Continue)
        } else {
            self.confirmed_create()
        }
    }

    /// The session after a name or a target was confirmed in their mode, and the
    /// action it asks for.
    pub open spec fn confirmed_create(self) -> (AppView, ActionView) {
        match self.draft_name {
            None => if self.input_buffer.len() == 0 {
                (AppView { message: EMPTY_NAME_MSG@, ..self }, ActionView::Continue)
            } else {
                (
                    AppView {
                        message: TARGET_MSG@,
                        draft_name: Some(self.input_buffer),
                        input_buffer: Seq::empty(),
                        ..self
                    },
                    ActionView::Continue,
                )
            },
            Some(name) => match parsed_hours(self.input_buffer) {
                Ok(hours) => (
                    AppView { dirty: true, ..self.switched(InputMode::Normal) },
                    ActionView::AddCommitment(name, hours),
                ),
                Err(error) => (
                    AppView { message: parse_error_text(error), ..self },
                    ActionView::Continue,
                ),
            },
        }
    }

    /// The session with `c` typed.
    pub open spec fn typed(self, c: char) -> AppView {
        AppView { input_buffer: self.input_buffer.push(c), ..self }
    }

    /// The session with what was typed wiped out.
    pub open spec fn wiped(self) -> AppView {
        AppView { input_buffer: Seq::empty(), ..self }
    }

    /// The session after a key press in normal mode, and the action it asks for.
    pub open spec fn normal_step(self, key: KeyPress) -> (AppView, ActionView) {
        match key.key {
            Key::Char(c) => if c == 'q' {
                (self, ActionView::Quit)
            } else if c == 'j' {
                (
                    AppView { selected: next_index(self.selected, self.items.len()), ..self },
                    ActionView::Continue,
                )
            } else if c == 'k' {
                (
                    AppView { selected: previous_index(self.selected, self.items.len()), ..self },
                    ActionView::Continue,
                )
            } else if c == 'g' && key.ctrl {
                (
                    AppView { selected: first_index(self.items.len()), ..self },
                    ActionView::Continue,
                )
            } else if c == 'G' {
                (
                    AppView { selected: last_index(self.items.len()), ..self },
                    ActionView::Continue,
                )
            } else if c == 'r' {
                (
                    self.after_reactivate(),
                    match self.selected_archived() {
                        Some(id) => ActionView::Reactivate(id),
                        None => ActionView::Continue,
                    },
                )
            } else if c == 'a' {
                (
                    self.after_archive(),
                    match self.selected_active() {
                        Some(id) => ActionView::Archive(id),
                        None => ActionView::Continue,
                    },
                )
            } else if c == 'l' {
                (self.after_start_log(), ActionView::Continue)
            } else if c == 'c' {
                (self.switched(InputMode::CreateCommitment), ActionView::Continue)
            } else {
                (self, ActionView::Continue)
            },
            Key::Down => (
                AppView { selected: next_index(self.selected, self.items.len()), ..self },
                ActionView::Continue,
            ),
            Key::Up => (
                AppView { selected: previous_index(self.selected, self.items.len()), ..self },
                ActionView::Continue,
            ),
            _ => (self, ActionView::Continue),
        }
    }

    /// The session after a key press while hours are typed, and the action it asks
    /// for.
    pub open spec fn log_hours_step(self, key: KeyPress) -> (AppView, ActionView) {
        match key.key {
            Key::Esc => (self.switched(InputMode::Normal), ActionView::Continue),
            Key::Enter => self.after_confirm_log(),
            Key::Char(c) => if c == 'q' {
                (self.switched(InputMode::Normal), ActionView::Continue)
            } else if c == 'u' && key.ctrl {
                (self.wiped(), ActionView::Continue)
            } else if is_hours_char(c) && !key.ctrl {
                (self.typed(c), ActionView::Continue)
            } else {
                (self, ActionView::Continue)
            },
            _ => (self, ActionView::Continue),
        }
    }

    /// The session after a key press while a commitment is created, and the action
    /// it asks for.
    pub open spec fn create_step(self, key: KeyPress) -> (AppView, ActionView) {
        match key.key {
            Key::Esc => (self.switched(InputMode::Normal), ActionView::Continue),
            Key::Enter => self.after_confirm_create(),
            Key::Char(c) => if c == 'u' && key.ctrl {
                (self.wiped(), ActionView::Continue)
            } else if !key.ctrl && (self.draft_name is None || is_hours_char(c)) {
                (self.typed(c), ActionView::Continue)
            } else {
                (self, ActionView::Continue)
            },
            _ => (self, ActionView::Continue),
        }
    }

    /// The session after a key press, and the action it asks for.
    pub open spec fn step(self, key: KeyPress) -> (AppView, ActionView) {
        match self.input_mode {
            InputMode::Normal => self.normal_step(key),
            InputMode::LogHours => self.log_hours_step(key),
            InputMode::CreateCommitment => self.create_step(key),
        }
    }
}

/// An interactive session over a list of commitments.
pub struct App {
    items: Vec<CommitmentDisplayRecord>,
    selected: Option<usize>,
    message: String,
    dirty_flag: bool,
    input_buffer: String,
    input_mode: InputMode,
    draft_name: Option<String>,
    last_refresh: Instant,
}

impl View for App {
    type V = AppView;

    closed spec fn view(&self) -> AppView {
        AppView {
            items: self.items@,
            selected: self.selected,
            message: self.message@,
            dirty: self.dirty_flag,
            input_buffer: self.input_buffer@,
            input_mode: self.input_mode,
            draft_name: match self.draft_name {
                Some(name) => Some(name@),
                None => None,
            },
            last_refresh: self.last_refresh,
        }
    }
}

impl App {
    /// Every session is well formed, at every moment.
    #[verifier::type_invariant]
    pub open spec fn valid(self) -> bool {
        self@.well_formed()
    }

    /// A session over `records`, as they were read at `now`: in normal mode, with the
    /// first row selected if there is one.
    pub fn new(records: Vec<CommitmentDisplayRecord>, now: Instant) -> (app: App)
        ensures
            app@.well_formed(),
            app@.items == display_order(records@),
            app@.items.to_multiset() == records@.to_multiset(),
            app@.items.len() == records@.len(),
            app@.selected == if records@.len() > 0 {
                Some(0usize)
            } else {
                None
            },
            app@.message == NORMAL_MSG@,
            !app@.dirty,
            app@.input_buffer == Seq::<char>::empty(),
            app@.input_mode == InputMode::Normal,
            app@.draft_name is None,
            app@.last_refresh == now,
    {
        let items = sort_for_display(records);
        let selected = if items.len() > 0 {
            Some(0)
        } else {
            None
        };
        App {
            items,
            selected,
            message: String::from_str(NORMAL_MSG),
            dirty_flag: false,
            input_buffer: String::new(),
            input_mode: InputMode::Normal,
            draft_name: None,
            last_refresh: now,
        }
    }

    /// The index of the selected row.
    pub fn get_selected_index(&self) -> (r: Option<usize>)
        ensures
            r == self@.selected,
            self@.well_formed(),
    {
        proof {
            use_type_invariant(self);
        }
        self.selected
    }

    /// The selected row with its history.
    pub fn get_selected_item(&self) -> (r: Option<&CommitmentDisplayRecord>)
        ensures
            r.is_some() == self@.selected.is_some(),
            r matches Some(item) ==> self@.selected_item() == Some(*item),
    {
        proof {
            use_type_invariant(self);
        }
        match self.selected {
            Some(i) => Some(&self.items[i]),
            None => None,
        }
    }

    /// All the rows, in display order.
    pub fn get_items(&self) -> (r: &[CommitmentDisplayRecord])
        ensures
            r@ == self@.items,
            in_display_order(r@),
    {
        proof {
            use_type_invariant(self);
        }
        self.items.as_slice()
    }

    /// The message line.
    pub fn get_message(&self) -> (r: &String)
        ensures
            r@ == self@.message,
    {
        &self.message
    }

    /// Selects the next row, going round from the last to the first.
    pub fn next(&mut self)
        ensures
            final(self)@ == (AppView {
                selected: next_index(old(self)@.selected, old(self)@.items.len()),
                ..old(self)@
            }),
    {
        proof {
            use_type_invariant(&*self);
        }
        let len = self.items.len();
        proof {
            if let Some(i) = self.selected {
                if i + 1 < len {
                    vstd::arithmetic::div_mod::lemma_small_mod((i + 1) as nat, len as nat);
                } else {
                    vstd::arithmetic::div_mod::lemma_mod_self_0(len as int);
                }
            }
        }
        if len == 0 {
            self.selected = None;
        } else {
            self.selected = match self.selected {
                Some(i) => if i + 1 < len {
                    Some(i + 1)
                } else {
                    Some(0)
                },
                None => Some(0),
            };
        }
    }

    /// Selects the row before, going round from the first to the last.
    pub fn previous(&mut self)
        ensures
            final(self)@ == (AppView {
                selected: previous_index(old(self)@.selected, old(self)@.items.len()),
                ..old(self)@
            }),
    {
        proof {
            use_type_invariant(&*self);
        }
        let len = self.items.len();
        if len == 0 {
            self.selected = None;
        } else {
            self.selected = match self.selected {
                Some(i) => if i == 0 {
                    Some(len - 1)
                } else {
                    Some(i - 1)
                },
                None => Some(len - 1),
            };
        }
    }

    /// Selects the first row.
    pub fn jump_first(&mut self)
        ensures
            final(self)@ == (AppView {
                selected: first_index(old(self)@.items.len()),
                ..old(self)@
            }),
    {
        proof {
            use_type_invariant(&*self);
        }
        if self.items.len() > 0 {
            self.selected = Some(0);
        } else {
            self.selected = None;
        }
    }

    /// Selects the last row.
    pub fn jump_last(&mut self)
        ensures
            final(self)@ == (AppView {
                selected: last_index(old(self)@.items.len()),
                ..old(self)@
            }),
    {
        proof {
            use_type_invariant(&*self);
        }
        let len = self.items.len();
        if len > 0 {
            self.selected = Some(len - 1);
        } else {
            self.selected = None;
        }
    }

    /// Sets the message line.
    pub fn set_message(&mut self, msg: String)
        ensures
            final(self)@ == (AppView { message: msg@, ..old(self)@ }),
    {
        proof {
            use_type_invariant(&*self);
        }
        self.message = msg;
    }

    /// Marks the list as stale, so that `refresh_from_db_if_dirty` asks for a refresh.
    ///
    /// `true` is for after a change to the data. `false` leaves the mark as it is: only
    /// `refresh_from_db_if_dirty` takes it away.
    pub fn mark_dirty(&mut self, flag: bool)
        ensures
            final(self)@ == (AppView { dirty: old(self)@.dirty || flag, ..old(self)@ }),
    {
        proof {
            use_type_invariant(&*self);
        }
        if flag {
            self.dirty_flag = true;
        }
    }

    /// Whether a refresh is due. If it is, the mark is taken away and the caller reads
    /// the records and hands them to `refresh_from_db`; if not, nothing changes.
    pub fn refresh_from_db_if_dirty(&mut self) -> (due: bool)
        ensures
            due == old(self)@.dirty,
            final(self)@ == (AppView { dirty: false, ..old(self)@ }),
    {
        proof {
            use_type_invariant(&*self);
        }
        let due = self.dirty_flag;
        self.dirty_flag = false;
        due
    }

    /// Replaces the list by `records`, as they were read at `now`, in display order.
    /// The selection stays on its row, or moves to the last row if its row is gone.
    pub fn refresh_from_db(&mut self, records: Vec<CommitmentDisplayRecord>, now: Instant)
        ensures
            final(self)@ == (AppView {
                items: display_order(records@),
                selected: kept_index(old(self)@.selected, records@.len()),
                last_refresh: now,
                ..old(self)@
            }),
            in_display_order(final(self)@.items),
            final(self)@.items.to_multiset() == records@.to_multiset(),
            final(self)@.items.len() == records@.len(),
    {
        proof {
            use_type_invariant(&*self);
        }
        let items = sort_for_display(records);
        let len = items.len();
        self.selected = match self.selected {
            Some(i) => if len == 0 {
                None
            } else if i >= len {
                Some(len - 1)
            } else {
                Some(i)
            },
            None => None,
        };
        self.items = items;
        self.last_refresh = now;
    }

    /// When the list was last read.
    pub fn last_refresh(&self) -> (r: Instant)
        ensures
            r == self@.last_refresh,
    {
        self.last_refresh
    }

    /// The mode that the keys are read in.
    pub fn input_mode(&self) -> (r: InputMode)
        ensures
            r == self@.input_mode,
    {
        self.input_mode
    }

    /// What has been typed and not yet confirmed.
    pub fn input_buffer(&self) -> (r: &String)
        ensures
            r@ == self@.input_buffer,
    {
        &self.input_buffer
    }

    /// The key help of a mode.
    pub fn get_input_help_msg(state: &InputMode) -> (r: String)
        ensures
            r@ == help_text(*state),
    {
        match state {
            InputMode::Normal => String::from_str(NORMAL_MSG),
            InputMode::LogHours => String::from_str(LOG_MSG),
            InputMode::CreateCommitment => String::from_str(CREATE_MSG),
        }
    }

    /// Enters the mode `target_state`: its key help becomes the message, and what was
    /// typed before is dropped.
    pub fn switch_state(&mut self, target_state: InputMode)
        ensures
            final(self)@ == old(self)@.switched(target_state),
    {
        proof {
            use_type_invariant(&*self);
        }
        self.message = App::get_input_help_msg(&target_state);
        self.input_buffer = String::new();
        self.draft_name = None;
        self.input_mode = target_state;
    }

    /// Asks for the selected commitment to be archived, if it is active: returns its
    /// id, for which the caller issues the archive write, sets the message that
    /// confirms it and marks the list as stale. Does nothing, and returns `None`, if no
    /// row is selected or the selected commitment is archived already.
    pub fn archive_selected(&mut self) -> (write: Option<i64>)
        ensures
            write == old(self)@.selected_active(),
            final(self)@ == old(self)@.after_archive(),
    {
        proof {
            use_type_invariant(&*self);
        }
        match self.selected {
            Some(i) => {
                if self.items[i].0.active {
                    let id: i64 = self.items[i].0.id;
                    let mut message = String::from_str("Archived #");
                    push_signed_decimal(&mut message, id);
                    self.message = message;
                    self.dirty_flag = true;
                    Some(id)
                } else {
                    None
                }
            },
            None => None,
        }
    }

    /// Asks for the selected commitment to be reactivated, if it is archived: returns
    /// its id, for which the caller issues the reactivate write, sets the message that
    /// confirms it and marks the list as stale. Does nothing, and returns `None`, if no
    /// row is selected or the selected commitment is active.
    pub fn reactivate_selected(&mut self) -> (write: Option<i64>)
        ensures
            write == old(self)@.selected_archived(),
            final(self)@ == old(self)@.after_reactivate(),
    {
        proof {
            use_type_invariant(&*self);
        }
        match self.selected {
            Some(i) => {
                if !self.items[i].0.active {
                    let id: i64 = self.items[i].0.id;
                    let mut message = String::from_str("Reactivated #");
                    push_signed_decimal(&mut message, id);
                    self.message = message;
                    self.dirty_flag = true;
                    Some(id)
                } else {
                    None
                }
            },
            None => None,
        }
    }

    /// Starts an entry of hours for the selected commitment, if it is active. For an
    /// archived one the session stays in its mode and says why; with no row selected
    /// nothing happens.
    pub fn start_log_hours(&mut self)
        ensures
            final(self)@ == old(self)@.after_start_log(),
    {
        proof {
            use_type_invariant(&*self);
        }
        match self.selected {
            Some(i) => {
                if self.items[i].0.active {
                    self.switch_state(InputMode::LogHours);
                } else {
                    self.message = String::from_str(INACTIVE_MSG);
                }
            },
            None => {},
        }
    }

    /// The message for a text that was not taken as hours.
    fn parse_error_message(error: HoursParseError) -> (r: String)
        ensures
            r@ == parse_error_text(error),
    {
        match error {
            HoursParseError::Malformed => String::from_str(MALFORMED_HOURS_MSG),
            HoursParseError::TooLarge => String::from_str(LARGE_HOURS_MSG),
        }
    }

    /// Confirms the hours that were typed. If they read as an amount and the selected
    /// commitment is active, the session asks for them to be logged, marks the list as
    /// stale and goes back to normal mode with nothing typed. If they do not read as
    /// an amount, the session stays as it is, what was typed included, and says why.
    pub fn confirm_log_hours(&mut self) -> (action: Action)
        ensures
            (final(self)@, action@) == old(self)@.after_confirm_log(),
    {
        proof {
            use_type_invariant(&*self);
        }
        if self.input_mode != InputMode::LogHours {
            return Action::Continue;
        }
        match parse_hours(self.input_buffer.as_str()) {
            Ok(hours) => {
                let target: Option<i64> = match self.selected {
                    Some(i) => if self.items[i].0.active {
                        Some(self.items[i].0.id)
                    } else {
                        None
                    },
                    None => None,
                };
                self.switch_state(InputMode::Normal);
                match target {
                    Some(id) => {
                        self.dirty_flag = true;
                        Action::LogHours(id, hours)
                    },
                    None => {
                        self.message = String::from_str(INACTIVE_MSG);
                        Action::Continue
                    },
                }
            },
            Err(error) => {
                self.message = App::parse_error_message(error);
                Action::Continue
            },
        }
    }

    /// Confirms what was typed for a new commitment. The first confirmation takes the
    /// name, which must not be empty; the second takes the weekly target and, if it
    /// reads as an amount, asks for the commitment to be added, marks the list as stale
    /// and goes back to normal mode. What is not accepted stays typed, and the message
    /// says why.
    pub fn confirm_create_commitment(&mut self) -> (action: Action)
        ensures
            (final(self)@, action@) == old(self)@.after_confirm_create(),
    {
        proof {
            use_type_invariant(&*self);
        }
        if self.input_mode != InputMode::CreateCommitment {
            return Action::Continue;
        }
        match &self.draft_name {
            None => {
                if self.input_buffer.as_str().unicode_len() == 0 {
                    self.message = String::from_str(EMPTY_NAME_MSG);
                } else {
                    self.message = String::from_str(TARGET_MSG);
                    self.draft_name = Some(self.input_buffer.clone());
                    self.input_buffer = String::new();
                }
                Action::Continue
            },
            Some(name) => {
                match parse_hours(self.input_buffer.as_str()) {
                    Ok(hours) => {
                        let name: String = name.clone();
                        self.switch_state(InputMode::Normal);
                        self.dirty_flag = true;
                        Action::AddCommitment(name, hours)
                    },
                    Err(error) => {
                        self.message = App::parse_error_message(error);
                        Action::Continue
                    },
                }
            },
        }
    }

    /// Leaves an entry without confirming it: back to normal mode, and what was typed
    /// is dropped.
    pub fn cancel_input(&mut self)
        ensures
            final(self)@ == old(self)@.switched(InputMode::Normal),
    {
        self.switch_state(InputMode::Normal);
    }

    /// Adds `c` to what has been typed.
    pub fn type_char(&mut self, c: char)
        ensures
            final(self)@ == old(self)@.typed(c),
    {
        proof {
            use_type_invariant(&*self);
        }
        let mut buffer = self.input_buffer.clone();
        buffer.push(c);
        self.input_buffer = buffer;
    }

    /// Wipes out what has been typed.
    pub fn clear_input(&mut self)
        ensures
            final(self)@ == old(self)@.wiped(),
    {
        proof {
            use_type_invariant(&*self);
        }
        self.input_buffer = String::new();
    }

    /// Takes note that the store failed: the message says so with `detail`, the
    /// session is in normal mode with nothing typed, and the list is as it was.
    pub fn storage_failed(&mut self, detail: &str)
        ensures
            final(self)@ == (AppView {
                message: storage_error_text(detail@),
                ..old(self)@.switched(InputMode::Normal)
            }),
    {
        proof {
            use_type_invariant(&*self);
        }
        self.switch_state(InputMode::Normal);
        let mut message = String::from_str("Storage error: ");
        message.append(detail);
        self.message = message;
    }

    /// Applies one key press in the mode that the session is in, and returns what the
    /// caller has to do.
    pub fn handle_key_event(&mut self, key: KeyPress) -> (action: Action)
        ensures
            (final(self)@, action@) == old(self)@.step(key),
    {
        match self.input_mode {
            InputMode::Normal => self.handle_normal_mode(key),
            InputMode::LogHours => self.handle_log_hour_mode(key),
            InputMode::CreateCommitment => self.handle_create_mode(key),
        }
    }

    /// Applies one key press as normal mode reads it.
    pub fn handle_normal_mode(&mut self, key: KeyPress) -> (action: Action)
        ensures
            (final(self)@, action@) == old(self)@.normal_step(key),
    {
        match key.key {
            Key::Char(c) => {
                if c == 'q' {
                    return Action::Quit;
                } else if c == 'j' {
                    self.next();
                } else if c == 'k' {
                    self.previous();
                } else if c == 'g' && key.ctrl {
                    self.jump_first();
                } else if c == 'G' {
                    self.jump_last();
                } else if c == 'r' {
                    return match self.reactivate_selected() {
                        Some(id) => Action::Reactivate(id),
                        None => Action::Continue,
                    };
                } else if c == 'a' {
                    return match self.archive_selected() {
                        Some(id) => Action::Archive(id),
                        None => Action::Continue,
                    };
                } else if c == 'l' {
                    self.start_log_hours();
                } else if c == 'c' {
                    self.switch_state(InputMode::CreateCommitment);
                }
            },
            Key::Down => {
                self.next();
            },
            Key::Up => {
                self.previous();
            },
            _ => {},
        }
        Action::Continue
    }

    /// Applies one key press as it is read while hours are typed.
    pub fn handle_log_hour_mode(&mut self, key: KeyPress) -> (action: Action)
        ensures
            (final(self)@, action@) == old(self)@.log_hours_step(key),
    {
        match key.key {
            Key::Esc => {
                self.cancel_input();
            },
            Key::Enter => {
                return self.confirm_log_hours();
            },
            Key::Char(c) => {
                if c == 'q' {
                    self.cancel_input();
                } else if c == 'u' && key.ctrl {
                    self.clear_input();
                } else if (('0' <= c && c <= '9') || c == '.') && !key.ctrl {
                    self.type_char(c);
                }
            },
            _ => {},
        }
        Action::Continue
    }

    /// Applies one key press as it is read while a commitment is created.
    pub fn handle_create_mode(&mut self, key: KeyPress) -> (action: Action)
        ensures
            (final(self)@, action@) == old(self)@.create_step(key),
    {
        match key.key {
            Key::Esc => {
                self.cancel_input();
            },
            Key::Enter => {
                return self.confirm_create_commitment();
            },
            Key::Char(c) => {
                if c == 'u' && key.ctrl {
                    self.clear_input();
                } else if !key.ctrl && (self.draft_name.is_none() || (('0' <= c && c <= '9') || c
                    == '.')) {
                    self.type_char(c);
                }
            },
            _ => {},
        }
        Action::Continue
    }
}

impl InputMode {
    /// The name of the mode as the status line shows it.
    pub fn label(&self) -> (r: String)
        ensures
            r@ == mode_label(*self),
    {
        match self {
            InputMode::Normal => String::from_str("NORMAL"),
            InputMode::LogHours => String::from_str("LOG HOUR"),
            InputMode::CreateCommitment => String::from_str("CREATE"),
        }
    }
}

} // verus!
