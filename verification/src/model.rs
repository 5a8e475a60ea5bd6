//! The records that the tracker works on.

use crate::calendar::{monday_on_or_before, upcoming_monday, Date, MAX_DAY_NUMBER};
use crate::hours::{parse_hours, parsed_hours, Hours, HoursParseError};
use vstd::prelude::*;
use vstd::string::*;

verus! {

/// A named weekly target of hours.
#[derive(Debug, PartialEq, Eq)]
pub struct Commitment {
    /// Unique number, given by the store when the commitment is created.
    pub id: i64,
    /// Display label; not empty.
    pub name: String,
    pub weekly_target_hours: Hours,
    /// Archived commitments are kept, with `active` false.
    pub active: bool,
    /// The Monday of the first week that counts for the commitment.
    pub start_monday: Date,
}

/// A commitment together with the hours logged for it in the current week.
#[derive(Debug, PartialEq, Eq)]
pub struct CommitmentWithProgress {
    pub id: i64,
    pub name: String,
    pub weekly_target_hours: Hours,
    /// `None` when nothing was logged in the current week, which is not the
    /// same as zero hours logged.
    pub current_week_total: Option<Hours>,
    pub start_monday: Date,
    pub active: bool,
}

/// The hours logged in one week.
#[derive(Debug, Clone, Copy, PartialEq, Eq, Structural)]
pub struct WeeklyStat {
    /// The Monday that starts the week.
    pub week_start: Date,
    pub total_hours: Hours,
}

/// One dated record of hours worked on a commitment.
#[derive(Debug, Clone, Copy, PartialEq, Eq, Structural)]
pub struct LogEntry {
    pub commitment_id: i64,
    pub hours: Hours,
    pub logged_at: Date,
}

/// Why a new commitment is not accepted.
#[derive(Debug, Clone, Copy, PartialEq, Eq, Structural)]
pub enum ValidationError {
    /// The name is empty.
    EmptyName,
    /// The weekly target does not read as an amount of hours.
    InvalidHours(HoursParseError),
}

/// What `check_new_commitment` makes of a name and the text of a weekly target.
pub open spec fn checked_new_commitment(name: Seq<char>, hours_text: Seq<char>) -> Result<
    Hours,
    ValidationError,
> {
    if name.len() == 0 {
        Err(ValidationError::EmptyName)
    } else {
        match parsed_hours(hours_text) {
            Ok(hours) => Ok(hours),
            Err(error) => Err(ValidationError::InvalidHours(error)),
        }
    }
}

/// Checks the name and the weekly target of a commitment before it is added, and
/// gives the target as an amount. The name must not be empty; the target must read
/// as an amount of hours, which cannot be negative.
pub fn check_new_commitment(name: &str, hours_text: &str) -> (r: Result<Hours, ValidationError>)
    ensures
        r == checked_new_commitment(name@, hours_text@),
{
    if name.unicode_len() == 0 {
        return Err(ValidationError::EmptyName);
    }
    match parse_hours(hours_text) {
        Ok(hours) => Ok(hours),
        Err(error) => Err(ValidationError::InvalidHours(error)),
    }
}

impl Commitment {
    /// The commitment that is added on the day `today` under the number `id`: active,
    /// and starting with the Monday after the week of `today`.
    pub fn new(id: i64, name: String, weekly_target_hours: Hours, today: Date) -> (r: Commitment)
        requires
            monday_on_or_before(today@) + 7 <= MAX_DAY_NUMBER,
        ensures
            r.id == id,
            r.name == name,
            r.weekly_target_hours == weekly_target_hours,
            r.active,
            r.start_monday@ == monday_on_or_before(today@) + 7,
    {
        Commitment {
            id,
            name,
            weekly_target_hours,
            active: true,
            start_monday: upcoming_monday(today),
        }
    }

    /// Archives the commitment if it is active. Returns how many commitments changed:
    /// one, or none if it was archived already.
    pub fn archive(&mut self) -> (changed: u64)
        ensures
            changed == if old(self).active {
                1u64
            } else {
                0u64
            },
            *final(self) == (Commitment { active: false, ..*old(self) }),
    {
        if self.active {
            self.active = false;
            1
        } else {
            0
        }
    }

    /// Reactivates the commitment if it is archived. Returns how many commitments
    /// changed: one, or none if it was active already.
    pub fn reactivate(&mut self) -> (changed: u64)
        ensures
            changed == if old(self).active {
                0u64
            } else {
                1u64
            },
            *final(self) == (Commitment { active: true, ..*old(self) }),
    {
        if self.active {
            0
        } else {
            self.active = true;
            1
        }
    }
}

impl Clone for Commitment {
    fn clone(&self) -> (r: Self)
        ensures
            r == *self,
    {
        Commitment {
            id: self.id,
            name: self.name.clone(),
            weekly_target_hours: self.weekly_target_hours,
            active: self.active,
            start_monday: self.start_monday,
        }
    }
}

impl Clone for CommitmentWithProgress {
    fn clone(&self) -> (r: Self)
        ensures
            r == *self,
    {
        CommitmentWithProgress {
            id: self.id,
            name: self.name.clone(),
            weekly_target_hours: self.weekly_target_hours,
            current_week_total: self.current_week_total,
            start_monday: self.start_monday,
            active: self.active,
        }
    }
}

} // verus!
