//! One-shot commands: what each one asks of the store, when it is refused, and what
//! it reports.

use crate::hours::{one_decimal_text, parse_hours, parsed_hours, Hours, HoursParseError};
use crate::model::Commitment;
use crate::text::{decimal_text, push_signed_decimal};
use vstd::prelude::*;
use vstd::string::*;

verus! {

/// Why a command does not reach the store.
#[derive(Debug, Clone, Copy, PartialEq, Eq, Structural)]
pub enum Refusal {
    /// No commitment has the id.
    NotFound,
    /// The commitment is archived, and the command is for active ones.
    Archived,
    /// The commitment is active, and the command is for archived ones.
    Active,
    /// The hours do not read as an amount.
    InvalidHours(HoursParseError),
}

/// What `plan_archive` decides for the commitment that was found under an id.
pub open spec fn planned_archive(found: Option<Commitment>) -> Result<i64, Refusal> {
    match found {
        None => Err(Refusal::NotFound),
        Some(commitment) => if commitment.active {
            Ok(commitment.id)
        } else {
            Err(Refusal::Archived)
        },
    }
}

/// What `plan_reactivate` decides for the commitment that was found under an id.
pub open spec fn planned_reactivate(found: Option<Commitment>) -> Result<i64, Refusal> {
    match found {
        None => Err(Refusal::NotFound),
        Some(commitment) => if commitment.active {
            Err(Refusal::Active)
        } else {
            Ok(commitment.id)
        },
    }
}

/// What `plan_log` decides for the commitment that was found and the hours as text.
pub open spec fn planned_log(found: Option<Commitment>, hours_text: Seq<char>) -> Result<
    (i64, Hours),
    Refusal,
> {
    match parsed_hours(hours_text) {
        Err(error) => Err(Refusal::InvalidHours(error)),
        Ok(hours) => match found {
            None => Err(Refusal::NotFound),
            Some(commitment) => if commitment.active {
                Ok((commitment.id, hours))
            } else {
                Err(Refusal::Archived)
            },
        },
    }
}

/// The exit code after a refusal: 1 when the commitment was not found or the input
/// was not valid, 0 when the commitment is there and the command merely does not
/// apply to it.
pub open spec fn exit_code_of(refusal: Refusal) -> i32 {
    match refusal {
        Refusal::NotFound => 1,
        Refusal::InvalidHours(_) => 1,
        Refusal::Archived => 0,
        Refusal::Active => 0,
    }
}

/// The line that reports a refusal of a command on the commitment `id`.
pub open spec fn refusal_text(id: i64, refusal: Refusal) -> Seq<char> {
    match refusal {
        Refusal::NotFound => ("Cannot find commitment #"@ + decimal_text(id as int)).push('.'),
        Refusal::Archived => "Commitment #"@ + decimal_text(id as int) + " is archived."@,
        Refusal::Active => "Commitment #"@ + decimal_text(id as int) + " is active already."@,
        Refusal::InvalidHours(HoursParseError::Malformed) => "Hours must be a number such as 2 or 1.5."@,
        Refusal::InvalidHours(HoursParseError::TooLarge) => "That is more hours than can be recorded."@,
    }
}

/// The line that confirms that the commitment `id` was archived.
pub open spec fn archived_line(id: i64) -> Seq<char> {
    "Marked commitment #"@ + decimal_text(id as int) + " as inactive."@
}

/// The line that confirms that the commitment `id` was reactivated.
pub open spec fn reactivated_line(id: i64) -> Seq<char> {
    "Marked commitment #"@ + decimal_text(id as int) + " as active."@
}

/// The line that confirms that hours were logged for the commitment `id`.
pub open spec fn logged_line(id: i64, hours: Hours) -> Seq<char> {
    "Logged "@ + one_decimal_text(hours@) + " hours for commitment #"@ + decimal_text(id as int)
}

/// The line that confirms that a commitment was added.
pub open spec fn added_line(id: i64, name: Seq<char>, weekly_hours: Hours) -> Seq<char> {
    "Added commitment #"@ + decimal_text(id as int) + ": '"@ + name + "' ("@ + one_decimal_text(
        weekly_hours@,
    ) + " hours/week)"@
}

/// Decides an archive command: the id to archive in the store, or why not.
pub fn plan_archive(found: Option<&Commitment>) -> (r: Result<i64, Refusal>)
    ensures
        r == planned_archive(
            match found {
                Some(commitment) => Some(*commitment),
                None => None,
            },
        ),
{
    match found {
        None => Err(Refusal::NotFound),
        Some(commitment) => if commitment.active {
            Ok(commitment.id)
        } else {
            Err(Refusal::Archived)
        },
    }
}

/// Decides a reactivate command: the id to reactivate in the store, or why not.
pub fn plan_reactivate(found: Option<&Commitment>) -> (r: Result<i64, Refusal>)
    ensures
        r == planned_reactivate(
            match found {
                Some(commitment) => Some(*commitment),
                None => None,
            },
        ),
{
    match found {
        None => Err(Refusal::NotFound),
        Some(commitment) => if commitment.active {
            Err(Refusal::Active)
        } else {
            Ok(commitment.id)
        },
    }
}

/// Decides a log command: the id and the hours to log in the store, or why not.
/// Hours that do not read as an amount are refused before the commitment is looked
/// at.
pub fn plan_log(found: Option<&Commitment>, hours_text: &str) -> (r: Result<(i64, Hours), Refusal>)
    ensures
        r == planned_log(
            match found {
                Some(commitment) => Some(*commitment),
                None => None,
            },
            hours_text@,
        ),
{
    match parse_hours(hours_text) {
        Err(error) => Err(Refusal::InvalidHours(error)),
        Ok(hours) => match found {
            None => Err(Refusal::NotFound),
            Some(commitment) => if commitment.active {
                Ok((commitment.id, hours))
            } else {
                Err(Refusal::Archived)
            },
        },
    }
}

/// The exit code after a refusal.
pub fn exit_code(refusal: Refusal) -> (code: i32)
    ensures
        code == exit_code_of(refusal),
{
    match refusal {
        Refusal::NotFound => 1,
        Refusal::InvalidHours(_) => 1,
        Refusal::Archived => 0,
        Refusal::Active => 0,
    }
}

/// The line that reports a refusal of a command on the commitment `id`.
pub fn refusal_message(id: i64, refusal: Refusal) -> (line: String)
    ensures
        line@ == refusal_text(id, refusal),
{
    match refusal {
        Refusal::NotFound => {
            let mut line = String::from_str("Cannot find commitment #");
            push_signed_decimal(&mut line, id);
            line.push('.');
            line
        },
        Refusal::Archived => {
            let mut line = String::from_str("Commitment #");
            push_signed_decimal(&mut line, id);
            line.append(" is archived.");
            line
        },
        Refusal::Active => {
            let mut line = String::from_str("Commitment #");
            push_signed_decimal(&mut line, id);
            line.append(" is active already.");
            line
        },
        Refusal::InvalidHours(HoursParseError::Malformed) => String::from_str(
            "Hours must be a number such as 2 or 1.5.",
        ),
        Refusal::InvalidHours(HoursParseError::TooLarge) => String::from_str(
            "That is more hours than can be recorded.",
        ),
    }
}

/// The line that confirms that the commitment `id` was archived.
pub fn archived_message(id: i64) -> (line: String)
    ensures
        line@ == archived_line(id),
{
    let mut line = String::from_str("Marked commitment #");
    push_signed_decimal(&mut line, id);
    line.append(" as inactive.");
    line
}

/// The line that confirms that the commitment `id` was reactivated.
pub fn reactivated_message(id: i64) -> (line: String)
    ensures
        line@ == reactivated_line(id),
{
    let mut line = String::from_str("Marked commitment #");
    push_signed_decimal(&mut line, id);
    line.append(" as active.");
    line
}

/// The line that confirms that hours were logged for the commitment `id`.
pub fn logged_message(id: i64, hours: Hours) -> (line: String)
    ensures
        line@ == logged_line(id, hours),
{
    let mut line = String::from_str("Logged ");
    hours.push_one_decimal(&mut line);
    line.append(" hours for commitment #");
    push_signed_decimal(&mut line, id);
    line
}

/// The line that confirms that a commitment was added.
pub fn added_message(id: i64, name: &str, weekly_hours: Hours) -> (line: String)
    ensures
        line@ == added_line(id, name@, weekly_hours),
{
    let mut line = String::from_str("Added commitment #");
    push_signed_decimal(&mut line, id);
    line.append(": '");
    line.append(name);
    line.append("' (");
    weekly_hours.push_one_decimal(&mut line);
    line.append(" hours/week)");
    line
}

} // verus!
