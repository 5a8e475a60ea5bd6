//! What a session is told and what it asks for: key presses in, actions out.

use crate::hours::Hours;
use vstd::prelude::*;

verus! {

/// The keys that a session tells apart.
#[derive(Debug, Clone, Copy, PartialEq, Eq, Structural)]
pub enum Key {
    Char(char),
    Up,
    Down,
    Enter,
    Esc,
    /// Any other key.
    Other,
}

/// One key press: the key, and whether Control was held.
#[derive(Debug, Clone, Copy, PartialEq, Eq, Structural)]
pub struct KeyPress {
    pub key: Key,
    pub ctrl: bool,
}

/// What the host of a session has to do after a key press.
#[derive(Debug, PartialEq, Eq)]
pub enum Action {
    /// Nothing but to go on.
    Continue,
    /// End the session.
    Quit,
    /// Archive the commitment with this id in the store.
    Archive(i64),
    /// Reactivate the commitment with this id in the store.
    Reactivate(i64),
    /// Log these hours, today, for the commitment with this id.
    LogHours(i64, Hours),
    /// Add a commitment with this name and weekly target.
    AddCommitment(String, Hours),
}

/// An action, with the text it carries as a sequence of characters.
pub enum ActionView {
    Continue,
    Quit,
    Archive(i64),
    Reactivate(i64),
    LogHours(i64, Hours),
    AddCommitment(Seq<char>, Hours),
}

impl View for Action {
    type V = ActionView;

    open spec fn view(&self) -> ActionView {
        match *self {
            Action::Continue => ActionView::Continue,
            Action::Quit => ActionView::Quit,
            Action::Archive(id) => ActionView::Archive(id),
            Action::Reactivate(id) => ActionView::Reactivate(id),
            Action::LogHours(id, hours) => ActionView::LogHours(id, hours),
            Action::AddCommitment(name, hours) => ActionView::AddCommitment(name@, hours),
        }
    }
}

} // verus!
