//! Progress aggregation: from dated log entries to the total of the current week,
//! the totals of each week, and the standing against the weekly target.

use crate::calendar::{
    count_weeks, monday_of, monday_on_or_before, week_holds_day, weekday_index, weeks_between,
    weeks_count, Date, MAX_DAY_NUMBER, MIN_DAY_NUMBER,
};
use crate::hours::{one_decimal_text, saturated, Hours};
use crate::listing::CommitmentDisplayRecord;
use crate::model::{Commitment, CommitmentWithProgress, LogEntry, WeeklyStat};
use vstd::prelude::*;
use vstd::string::*;

verus! {

/// Whether the entry was logged on a day from `start` up to, not including, `end`.
pub open spec fn logged_within(entry: LogEntry, start: int, end: int) -> bool {
    start <= entry.logged_at@ < end
}

/// The hours of the entries logged from day `start` up to, not including, day `end`.
pub open spec fn hours_between(entries: Seq<LogEntry>, start: int, end: int) -> int
    decreases entries.len(),
{
    if entries.len() == 0 {
        0
    } else if logged_within(entries.last(), start, end) {
        hours_between(entries.drop_last(), start, end) + entries.last().hours@
    } else {
        hours_between(entries.drop_last(), start, end)
    }
}

/// How many entries were logged from day `start` up to, not including, day `end`.
pub open spec fn entries_between(entries: Seq<LogEntry>, start: int, end: int) -> nat
    decreases entries.len(),
{
    if entries.len() == 0 {
        0
    } else if logged_within(entries.last(), start, end) {
        entries_between(entries.drop_last(), start, end) + 1
    } else {
        entries_between(entries.drop_last(), start, end)
    }
}

/// The hours of all the entries.
pub open spec fn total_logged(entries: Seq<LogEntry>) -> int
    decreases entries.len(),
{
    if entries.len() == 0 {
        0
    } else {
        total_logged(entries.drop_last()) + entries.last().hours@
    }
}

/// The total of the week that starts on day `week_start`: absent when no entry
/// falls in the week, else the hours of the entries that do, cut off at the largest
/// amount.
pub open spec fn week_total(entries: Seq<LogEntry>, week_start: int) -> Option<Hours> {
    if entries_between(entries, week_start, week_start + 7) == 0 {
        None
    } else {
        Some(Hours { micros: saturated(hours_between(entries, week_start, week_start + 7)) as u64 })
    }
}

/// The hours logged in the week that holds `now`, from its Monday up to, not
/// including, the next Monday. `None` when no entry falls in that week.
pub fn current_week_total(entries: &Vec<LogEntry>, now: Date) -> (total: Option<Hours>)
    ensures
        total == week_total(entries@, monday_on_or_before(now@)),
{
    let week_start: i32 = monday_of(now).num_days_from_ce();
    let ghost start = week_start as int;
    let mut found: bool = false;
    let mut sum: Hours = Hours::zero();
    let mut k: usize = 0;
    while k < entries.len()
        invariant
            k <= entries.len(),
            start == week_start,
            MIN_DAY_NUMBER <= week_start <= MAX_DAY_NUMBER,
            found == (entries_between(entries@.take(k as int), start, start + 7) > 0),
            sum@ == saturated(hours_between(entries@.take(k as int), start, start + 7)),
        decreases entries.len() - k,
    {
        let day: i32 = entries[k].logged_at.num_days_from_ce();
        proof {
            assert(entries@.take(k + 1).drop_last() =~= entries@.take(k as int));
            assert(entries@.take(k + 1).last() == entries@[k as int]);
        }
        if week_start <= day && day - week_start < 7 {
            found = true;
            sum = sum.saturating_add(entries[k].hours);
        }
        k = k + 1;
    }
    assert(entries@.take(entries.len() as int) =~= entries@);
    if found {
        Some(sum)
    } else {
        None
    }
}

/// The commitment with the hours of `entries` in the week that holds the day `now`.
/// The fields of the commitment are carried over as they are.
pub open spec fn aggregated(
    commitment: Commitment,
    entries: Seq<LogEntry>,
    now: int,
) -> CommitmentWithProgress {
    CommitmentWithProgress {
        id: commitment.id,
        name: commitment.name,
        weekly_target_hours: commitment.weekly_target_hours,
        current_week_total: if commitment.active {
            week_total(entries, monday_on_or_before(now))
        } else {
            None
        },
        start_monday: commitment.start_monday,
        active: commitment.active,
    }
}

/// The commitment with the hours logged for it in the week that holds `now`.
///
/// `entries` are the log entries of this commitment. An archived commitment has no
/// current-week total.
pub fn aggregate_commitment(commitment: &Commitment, entries: &Vec<LogEntry>, now: Date) -> (r:
    CommitmentWithProgress)
    ensures
        r == aggregated(*commitment, entries@, now@),
{
    let current_week_total = if commitment.active {
        current_week_total(entries, now)
    } else {
        None
    };
    CommitmentWithProgress {
        id: commitment.id,
        name: commitment.name.clone(),
        weekly_target_hours: commitment.weekly_target_hours,
        current_week_total,
        start_monday: commitment.start_monday,
        active: commitment.active,
    }
}

/// The entries that were logged for the commitment with the number `commitment_id`,
/// in the order they stand in.
pub open spec fn entries_for(entries: Seq<LogEntry>, commitment_id: i64) -> Seq<LogEntry>
    decreases entries.len(),
{
    if entries.len() == 0 {
        Seq::empty()
    } else if entries.last().commitment_id == commitment_id {
        entries_for(entries.drop_last(), commitment_id).push(entries.last())
    } else {
        entries_for(entries.drop_last(), commitment_id)
    }
}

/// The entries that were logged for the commitment with the number `commitment_id`.
pub fn entries_of(entries: &Vec<LogEntry>, commitment_id: i64) -> (own: Vec<LogEntry>)
    ensures
        own@ == entries_for(entries@, commitment_id),
{
    let mut own: Vec<LogEntry> = Vec::new();
    let mut k: usize = 0;
    while k < entries.len()
        invariant
            k <= entries.len(),
            own@ == entries_for(entries@.take(k as int), commitment_id),
        decreases entries.len() - k,
    {
        proof {
            assert(entries@.take(k + 1).drop_last() =~= entries@.take(k as int));
            assert(entries@.take(k + 1).last() == entries@[k as int]);
        }
        if entries[k].commitment_id == commitment_id {
            own.push(entries[k]);
        }
        k = k + 1;
    }
    assert(entries@.take(entries.len() as int) =~= entries@);
    own
}

/// Whether one of the stats is for the week that starts on day `week_start`.
pub open spec fn has_week(stats: Seq<WeeklyStat>, week_start: int) -> bool {
    exists|i: int| 0 <= i < stats.len() && (#[trigger] stats[i]).week_start@ == week_start
}

/// Whether the stats stand in ascending order of their weeks, no week twice.
pub open spec fn weeks_ascend(stats: Seq<WeeklyStat>) -> bool {
    forall|i: int, j: int|
        0 <= i < j < stats.len() ==> (#[trigger] stats[i]).week_start@ < (
        #[trigger] stats[j]).week_start@
}

/// Whether `stats` is the per-week history of `entries`: one stat for each week in
/// which an entry was logged and for no other week, each with the Monday of its week
/// and the hours of the entries of that week, in ascending order of the weeks.
pub open spec fn is_weekly_history(entries: Seq<LogEntry>, stats: Seq<WeeklyStat>) -> bool {
    &&& weeks_ascend(stats)
    &&& forall|i: int|
        0 <= i < stats.len() ==> {
            &&& weekday_index((#[trigger] stats[i]).week_start@) == 0
            &&& week_total(entries, stats[i].week_start@) == Some(stats[i].total_hours)
        }
    &&& forall|k: int|
        0 <= k < entries.len() ==> has_week(
            stats,
            monday_on_or_before((#[trigger] entries[k]).logged_at@),
        )
}

proof fn lemma_hours_not_negative(entries: Seq<LogEntry>, start: int, end: int)
    ensures
        hours_between(entries, start, end) >= 0,
        total_logged(entries) >= 0,
        hours_between(entries, start, end) <= total_logged(entries),
    decreases entries.len(),
{
    if entries.len() > 0 {
        lemma_hours_not_negative(entries.drop_last(), start, end);
    }
}

proof fn lemma_push_entry(entries: Seq<LogEntry>, entry: LogEntry, start: int, end: int)
    ensures
        hours_between(entries.push(entry), start, end) == hours_between(entries, start, end) + (
        if logged_within(entry, start, end) {
            entry.hours@
        } else {
            0
        }),
        entries_between(entries.push(entry), start, end) == entries_between(entries, start, end)
            + (if logged_within(entry, start, end) {
            1nat
        } else {
            0nat
        }),
        total_logged(entries.push(entry)) == total_logged(entries) + entry.hours@,
{
    assert(entries.push(entry).drop_last() =~= entries);
    assert(entries.push(entry).last() == entry);
}

proof fn lemma_week_without_entries(entries: Seq<LogEntry>, week_start: int)
    requires
        weekday_index(week_start) == 0,
        forall|k: int|
            0 <= k < entries.len() ==> monday_on_or_before((#[trigger] entries[k]).logged_at@)
                != week_start,
    ensures
        hours_between(entries, week_start, week_start + 7) == 0,
        entries_between(entries, week_start, week_start + 7) == 0,
    decreases entries.len(),
{
    if entries.len() > 0 {
        let init = entries.drop_last();
        assert forall|k: int| 0 <= k < init.len() implies monday_on_or_before(
            (#[trigger] init[k]).logged_at@,
        ) != week_start by {
            assert(init[k] == entries[k]);
        }
        lemma_week_without_entries(init, week_start);
        week_holds_day(week_start, entries.last().logged_at@);
        assert(entries.last() == entries[entries.len() - 1]);
    }
}

/// The hours logged in each week in which anything was logged, in ascending order of
/// the weeks. Weeks without entries do not occur in the list.
pub fn weekly_history(entries: &Vec<LogEntry>) -> (stats: Vec<WeeklyStat>)
    ensures
        is_weekly_history(entries@, stats@),
{
    let mut stats: Vec<WeeklyStat> = Vec::new();
    let mut k: usize = 0;
    while k < entries.len()
        invariant
            k <= entries.len(),
            is_weekly_history(entries@.take(k as int), stats@),
        decreases entries.len() - k,
    {
        let entry: LogEntry = entries[k];
        let week: Date = monday_of(entry.logged_at);
        let week_day: i32 = week.num_days_from_ce();
        let mut pos: usize = 0;
        while pos < stats.len() && stats[pos].week_start.num_days_from_ce() < week_day
            invariant
                pos <= stats.len(),
                week_day == week@,
                forall|i: int| 0 <= i < pos ==> (#[trigger] stats@[i]).week_start@ < week@,
            decreases stats.len() - pos,
        {
            pos = pos + 1;
        }
        let ghost before = entries@.take(k as int);
        let ghost after = entries@.take(k + 1);
        let ghost old_stats = stats@;
        proof {
            assert(after =~= before.push(entry));
            assert forall|i: int| 0 <= i < old_stats.len() implies (week_total(
                after,
                (#[trigger] old_stats[i]).week_start@,
            ) == if old_stats[i].week_start@ == week@ {
                Some(
                    Hours {
                        micros: saturated(old_stats[i].total_hours@ + entry.hours@) as u64,
                    },
                )
            } else {
                Some(old_stats[i].total_hours)
            }) by {
                let w = old_stats[i].week_start@;
                lemma_push_entry(before, entry, w, w + 7);
                lemma_hours_not_negative(before, w, w + 7);
                week_holds_day(w, entry.logged_at@);
            }
        }
        if pos < stats.len() && stats[pos].week_start.num_days_from_ce() == week_day {
            let total: Hours = stats[pos].total_hours.saturating_add(entry.hours);
            stats.set(pos, WeeklyStat { week_start: week, total_hours: total });
            proof {
                let new_stats = stats@;
                assert forall|i: int| 0 <= i < new_stats.len() implies (#[trigger] new_stats[i]).week_start@
                    == old_stats[i].week_start@ by {}
                assert forall|j: int| 0 <= j < after.len() implies has_week(
                    new_stats,
                    monday_on_or_before((#[trigger] after[j]).logged_at@),
                ) by {
                    if j < before.len() {
                        assert(after[j] == before[j]);
                        let m = monday_on_or_before(before[j].logged_at@);
                        assert(has_week(old_stats, m));
                        let i = choose|i: int|
                            0 <= i < old_stats.len() && (#[trigger] old_stats[i]).week_start@ == m;
                        assert(new_stats[i].week_start@ == m);
                    } else {
                        assert(new_stats[pos as int].week_start@ == week@);
                    }
                }
                assert(is_weekly_history(after, new_stats));
            }
        } else {
            stats.insert(pos, WeeklyStat { week_start: week, total_hours: entry.hours });
            proof {
                let new_stats = stats@;
                assert forall|j: int| 0 <= j < before.len() implies monday_on_or_before(
                    (#[trigger] before[j]).logged_at@,
                ) != week@ by {
                    let m = monday_on_or_before(before[j].logged_at@);
                    assert(has_week(old_stats, m));
                    let i = choose|i: int|
                        0 <= i < old_stats.len() && (#[trigger] old_stats[i]).week_start@ == m;
                    if i < pos {
                    } else {
                        assert(old_stats[pos as int].week_start@ <= old_stats[i].week_start@);
                    }
                }
                lemma_week_without_entries(before, week@);
                lemma_push_entry(before, entry, week@, week@ + 7);
                week_holds_day(week@, entry.logged_at@);
                assert forall|i: int| 0 <= i < new_stats.len() implies {
                    &&& weekday_index((#[trigger] new_stats[i]).week_start@) == 0
                    &&& week_total(after, new_stats[i].week_start@) == Some(
                        new_stats[i].total_hours,
                    )
                } by {
                    if i < pos {
                        assert(new_stats[i] == old_stats[i]);
                    } else if i > pos {
                        assert(new_stats[i] == old_stats[i - 1]);
                    }
                }
                assert forall|i: int, j: int| 0 <= i < j < new_stats.len() implies (
                #[trigger] new_stats[i]).week_start@ < (#[trigger] new_stats[j]).week_start@ by {
                    if i < pos {
                        assert(new_stats[i] == old_stats[i]);
                    } else if i > pos {
                        assert(new_stats[i] == old_stats[i - 1]);
                    }
                    if j < pos {
                        assert(new_stats[j] == old_stats[j]);
                    } else if j > pos {
                        assert(new_stats[j] == old_stats[j - 1]);
                        assert(old_stats[pos as int].week_start@ <= old_stats[j - 1].week_start@);
                    }
                }
                assert forall|j: int| 0 <= j < after.len() implies has_week(
                    new_stats,
                    monday_on_or_before((#[trigger] after[j]).logged_at@),
                ) by {
                    if j < before.len() {
                        assert(after[j] == before[j]);
                        let m = monday_on_or_before(before[j].logged_at@);
                        assert(has_week(old_stats, m));
                        let i = choose|i: int|
                            0 <= i < old_stats.len() && (#[trigger] old_stats[i]).week_start@ == m;
                        if i < pos {
                            assert(new_stats[i] == old_stats[i]);
                        } else {
                            assert(new_stats[i + 1] == old_stats[i]);
                        }
                    } else {
                        assert(new_stats[pos as int].week_start@ == week@);
                    }
                }
                assert(is_weekly_history(after, new_stats));
            }
        }
        k = k + 1;
    }
    assert(entries@.take(entries.len() as int) =~= entries@);
    stats
}

/// The rows of a session, one for each commitment in the order given: the commitment
/// with its hours of the week that holds `now`, and its weekly history, both from
/// those of `entries` that were logged for it.
pub fn display_records(commitments: &Vec<Commitment>, entries: &Vec<LogEntry>, now: Date) -> (records:
    Vec<CommitmentDisplayRecord>)
    ensures
        records@.len() == commitments@.len(),
        forall|i: int|
            0 <= i < records@.len() ==> {
                &&& (#[trigger] records@[i]).0 == aggregated(
                    commitments@[i],
                    entries_for(entries@, commitments@[i].id),
                    now@,
                )
                &&& is_weekly_history(entries_for(entries@, commitments@[i].id), records@[i].1@)
            },
{
    let mut records: Vec<CommitmentDisplayRecord> = Vec::new();
    let mut k: usize = 0;
    while k < commitments.len()
        invariant
            k <= commitments.len(),
            records@.len() == k,
            forall|i: int|
                0 <= i < k ==> {
                    &&& (#[trigger] records@[i]).0 == aggregated(
                        commitments@[i],
                        entries_for(entries@, commitments@[i].id),
                        now@,
                    )
                    &&& is_weekly_history(
                        entries_for(entries@, commitments@[i].id),
                        records@[i].1@,
                    )
                },
        decreases commitments.len() - k,
    {
        let own: Vec<LogEntry> = entries_of(entries, commitments[k].id);
        let progress: CommitmentWithProgress = aggregate_commitment(&commitments[k], &own, now);
        let history: Vec<WeeklyStat> = weekly_history(&own);
        records.push((progress, history));
        k = k + 1;
    }
    records
}

/// The active ones of the commitments, in the order given, each with its hours of
/// the week that holds the day `now`.
pub open spec fn active_progress(
    commitments: Seq<Commitment>,
    entries: Seq<LogEntry>,
    now: int,
) -> Seq<CommitmentWithProgress>
    decreases commitments.len(),
{
    if commitments.len() == 0 {
        Seq::empty()
    } else if commitments.last().active {
        active_progress(commitments.drop_last(), entries, now).push(
            aggregated(commitments.last(), entries_for(entries, commitments.last().id), now),
        )
    } else {
        active_progress(commitments.drop_last(), entries, now)
    }
}

/// The active commitments, each with the hours logged for it in the week that holds
/// `now`. Archived commitments are left out.
pub fn list_with_current_week_progress(
    commitments: &Vec<Commitment>,
    entries: &Vec<LogEntry>,
    now: Date,
) -> (listed: Vec<CommitmentWithProgress>)
    ensures
        listed@ == active_progress(commitments@, entries@, now@),
{
    let mut listed: Vec<CommitmentWithProgress> = Vec::new();
    let mut k: usize = 0;
    while k < commitments.len()
        invariant
            k <= commitments.len(),
            listed@ == active_progress(commitments@.take(k as int), entries@, now@),
        decreases commitments.len() - k,
    {
        proof {
            assert(commitments@.take(k + 1).drop_last() =~= commitments@.take(k as int));
            assert(commitments@.take(k + 1).last() == commitments@[k as int]);
        }
        if commitments[k].active {
            let own: Vec<LogEntry> = entries_of(entries, commitments[k].id);
            listed.push(aggregate_commitment(&commitments[k], &own, now));
        }
        k = k + 1;
    }
    assert(commitments@.take(commitments.len() as int) =~= commitments@);
    listed
}

/// The hours of all the stats.
pub open spec fn stats_total(stats: Seq<WeeklyStat>) -> int
    decreases stats.len(),
{
    if stats.len() == 0 {
        0
    } else {
        stats_total(stats.drop_last()) + stats.last().total_hours@
    }
}

/// The hours of the entries that fall in the weeks of the stats, week by week.
spec fn hours_in_weeks(entries: Seq<LogEntry>, stats: Seq<WeeklyStat>) -> int
    decreases stats.len(),
{
    if stats.len() == 0 {
        0
    } else {
        hours_in_weeks(entries, stats.drop_last()) + hours_between(
            entries,
            stats.last().week_start@,
            stats.last().week_start@ + 7,
        )
    }
}

spec fn distinct_mondays(stats: Seq<WeeklyStat>) -> bool {
    &&& forall|i: int, j: int|
        0 <= i < j < stats.len() ==> (#[trigger] stats[i]).week_start@ != (
        #[trigger] stats[j]).week_start@
    &&& forall|i: int| 0 <= i < stats.len() ==> weekday_index((#[trigger] stats[i]).week_start@) == 0
}

proof fn lemma_distinct_mondays_of_prefix(stats: Seq<WeeklyStat>)
    requires
        distinct_mondays(stats),
        stats.len() > 0,
    ensures
        distinct_mondays(stats.drop_last()),
        !has_week(stats.drop_last(), stats.last().week_start@),
{
    let init = stats.drop_last();
    assert forall|i: int, j: int| 0 <= i < j < init.len() implies (#[trigger] init[i]).week_start@
        != (#[trigger] init[j]).week_start@ by {
        assert(init[i] == stats[i]);
        assert(init[j] == stats[j]);
    }
    assert forall|i: int| 0 <= i < init.len() implies weekday_index(
        (#[trigger] init[i]).week_start@,
    ) == 0 by {
        assert(init[i] == stats[i]);
    }
    if has_week(init, stats.last().week_start@) {
        let i = choose|i: int|
            0 <= i < init.len() && (#[trigger] init[i]).week_start@ == stats.last().week_start@;
        assert(init[i] == stats[i]);
        assert(stats.last() == stats[stats.len() - 1]);
    }
}

proof fn lemma_hours_in_weeks_push(entries: Seq<LogEntry>, entry: LogEntry, stats: Seq<WeeklyStat>)
    requires
        distinct_mondays(stats),
    ensures
        hours_in_weeks(entries.push(entry), stats) == hours_in_weeks(entries, stats) + (if has_week(
            stats,
            monday_on_or_before(entry.logged_at@),
        ) {
            entry.hours@
        } else {
            0
        }),
    decreases stats.len(),
{
    let week = monday_on_or_before(entry.logged_at@);
    if stats.len() > 0 {
        let init = stats.drop_last();
        let last_week = stats.last().week_start@;
        lemma_distinct_mondays_of_prefix(stats);
        lemma_hours_in_weeks_push(entries, entry, init);
        lemma_push_entry(entries, entry, last_week, last_week + 7);
        assert(stats.last() == stats[stats.len() - 1]);
        week_holds_day(last_week, entry.logged_at@);
        if last_week == week {
            assert(has_week(stats, week));
        } else if has_week(init, week) {
            let i = choose|i: int| 0 <= i < init.len() && (#[trigger] init[i]).week_start@ == week;
            assert(stats[i] == init[i]);
            assert(has_week(stats, week));
        } else if has_week(stats, week) {
            let i = choose|i: int| 0 <= i < stats.len() && (#[trigger] stats[i]).week_start@ == week;
            assert(init[i] == stats[i]);
        }
    }
}

proof fn lemma_hours_in_weeks_of_nothing(stats: Seq<WeeklyStat>)
    ensures
        hours_in_weeks(Seq::<LogEntry>::empty(), stats) == 0,
    decreases stats.len(),
{
    if stats.len() > 0 {
        lemma_hours_in_weeks_of_nothing(stats.drop_last());
    }
}

proof fn lemma_hours_in_weeks_is_total(entries: Seq<LogEntry>, stats: Seq<WeeklyStat>)
    requires
        distinct_mondays(stats),
        forall|k: int|
            0 <= k < entries.len() ==> has_week(
                stats,
                monday_on_or_before((#[trigger] entries[k]).logged_at@),
            ),
    ensures
        hours_in_weeks(entries, stats) == total_logged(entries),
    decreases entries.len(),
{
    if entries.len() == 0 {
        assert(entries =~= Seq::<LogEntry>::empty());
        lemma_hours_in_weeks_of_nothing(stats);
    } else {
        let init = entries.drop_last();
        let entry = entries.last();
        assert(entries =~= init.push(entry));
        assert forall|k: int| 0 <= k < init.len() implies has_week(
            stats,
            monday_on_or_before((#[trigger] init[k]).logged_at@),
        ) by {
            assert(init[k] == entries[k]);
        }
        lemma_hours_in_weeks_is_total(init, stats);
        lemma_hours_in_weeks_push(init, entry, stats);
        assert(entry == entries[entries.len() - 1]);
    }
}

proof fn lemma_stats_total_saturates(entries: Seq<LogEntry>, stats: Seq<WeeklyStat>)
    requires
        forall|i: int|
            0 <= i < stats.len() ==> week_total(entries, (#[trigger] stats[i]).week_start@) == Some(
                stats[i].total_hours,
            ),
    ensures
        0 <= stats_total(stats) <= hours_in_weeks(entries, stats),
        saturated(hours_in_weeks(entries, stats)) <= stats_total(stats),
    decreases stats.len(),
{
    if stats.len() > 0 {
        let init = stats.drop_last();
        assert forall|i: int| 0 <= i < init.len() implies week_total(
            entries,
            (#[trigger] init[i]).week_start@,
        ) == Some(init[i].total_hours) by {
            assert(init[i] == stats[i]);
        }
        lemma_stats_total_saturates(entries, init);
        let week = stats.last().week_start@;
        assert(stats.last() == stats[stats.len() - 1]);
        lemma_hours_not_negative(entries, week, week + 7);
    }
}

proof fn lemma_entry_in_window(entries: Seq<LogEntry>, start: int, end: int)
    requires
        entries_between(entries, start, end) > 0,
    ensures
        exists|k: int| 0 <= k < entries.len() && logged_within(#[trigger] entries[k], start, end),
    decreases entries.len(),
{
    if logged_within(entries.last(), start, end) {
        assert(logged_within(entries[entries.len() - 1], start, end));
    } else {
        let init = entries.drop_last();
        lemma_entry_in_window(init, start, end);
        let k = choose|k: int| 0 <= k < init.len() && logged_within(#[trigger] init[k], start, end);
        assert(entries[k] == init[k]);
    }
}

proof fn lemma_weeks_of_history(entries: Seq<LogEntry>, stats: Seq<WeeklyStat>, week: int)
    requires
        is_weekly_history(entries, stats),
    ensures
        has_week(stats, week) <==> weekday_index(week) == 0 && entries_between(
            entries,
            week,
            week + 7,
        ) > 0,
{
    if weekday_index(week) == 0 && entries_between(entries, week, week + 7) > 0 {
        lemma_entry_in_window(entries, week, week + 7);
        let k = choose|k: int|
            0 <= k < entries.len() && logged_within(#[trigger] entries[k], week, week + 7);
        week_holds_day(week, entries[k].logged_at@);
    }
}

proof fn lemma_same_weeks(a: Seq<WeeklyStat>, b: Seq<WeeklyStat>)
    requires
        weeks_ascend(a),
        weeks_ascend(b),
        forall|week: int| has_week(a, week) <==> has_week(b, week),
    ensures
        a.len() == b.len(),
        forall|i: int| 0 <= i < a.len() ==> (#[trigger] a[i]).week_start@ == b[i].week_start@,
    decreases a.len(),
{
    if a.len() == 0 {
        if b.len() > 0 {
            assert(has_week(b, b[0].week_start@));
        }
    } else if b.len() == 0 {
        assert(has_week(a, a[0].week_start@));
    } else {
        let last_a = a[a.len() - 1].week_start@;
        let last_b = b[b.len() - 1].week_start@;
        assert(has_week(a, last_a));
        assert(has_week(b, last_b));
        let in_b = choose|i: int| 0 <= i < b.len() && (#[trigger] b[i]).week_start@ == last_a;
        let in_a = choose|i: int| 0 <= i < a.len() && (#[trigger] a[i]).week_start@ == last_b;
        assert(last_a == last_b);
        let rest_a = a.drop_last();
        let rest_b = b.drop_last();
        assert forall|week: int| has_week(rest_a, week) <==> has_week(rest_b, week) by {
            if has_week(rest_a, week) {
                let i = choose|i: int|
                    0 <= i < rest_a.len() && (#[trigger] rest_a[i]).week_start@ == week;
                assert(a[i] == rest_a[i]);
                assert(has_week(a, week));
                let j = choose|j: int| 0 <= j < b.len() && (#[trigger] b[j]).week_start@ == week;
                assert(rest_b[j] == b[j]);
            }
            if has_week(rest_b, week) {
                let i = choose|i: int|
                    0 <= i < rest_b.len() && (#[trigger] rest_b[i]).week_start@ == week;
                assert(b[i] == rest_b[i]);
                assert(has_week(b, week));
                let j = choose|j: int| 0 <= j < a.len() && (#[trigger] a[j]).week_start@ == week;
                assert(rest_a[j] == a[j]);
            }
        }
        assert(weeks_ascend(rest_a)) by {
            assert forall|i: int, j: int| 0 <= i < j < rest_a.len() implies (
            #[trigger] rest_a[i]).week_start@ < (#[trigger] rest_a[j]).week_start@ by {
                assert(rest_a[i] == a[i] && rest_a[j] == a[j]);
            }
        }
        assert(weeks_ascend(rest_b)) by {
            assert forall|i: int, j: int| 0 <= i < j < rest_b.len() implies (
            #[trigger] rest_b[i]).week_start@ < (#[trigger] rest_b[j]).week_start@ by {
                assert(rest_b[i] == b[i] && rest_b[j] == b[j]);
            }
        }
        lemma_same_weeks(rest_a, rest_b);
        assert forall|i: int| 0 <= i < a.len() implies (#[trigger] a[i]).week_start@
            == b[i].week_start@ by {
            if i < a.len() - 1 {
                assert(rest_a[i] == a[i] && rest_b[i] == b[i]);
            }
        }
    }
}

/// One list of entries has one weekly history: two lists of stats that both are the
/// history of the same entries are the same, week for week and hour for hour.
pub proof fn weekly_history_is_unique(
    entries: Seq<LogEntry>,
    first: Seq<WeeklyStat>,
    second: Seq<WeeklyStat>,
)
    requires
        is_weekly_history(entries, first),
        is_weekly_history(entries, second),
    ensures
        first.len() == second.len(),
        forall|i: int|
            0 <= i < first.len() ==> {
                &&& (#[trigger] first[i]).week_start@ == second[i].week_start@
                &&& first[i].total_hours == second[i].total_hours
            },
{
    assert forall|week: int| has_week(first, week) <==> has_week(second, week) by {
        lemma_weeks_of_history(entries, first, week);
        lemma_weeks_of_history(entries, second, week);
    }
    lemma_same_weeks(first, second);
}

/// Grouping by week neither drops nor counts twice: the hours of a weekly history add
/// up to the hours of its entries. Both sums are cut off at the largest amount, as
/// every sum of hours is; below it they are equal as they stand.
pub proof fn weekly_history_keeps_total(entries: Seq<LogEntry>, stats: Seq<WeeklyStat>)
    requires
        is_weekly_history(entries, stats),
    ensures
        saturated(stats_total(stats)) == saturated(total_logged(entries)),
        total_logged(entries) <= u64::MAX ==> stats_total(stats) == total_logged(entries),
{
    lemma_hours_in_weeks_is_total(entries, stats);
    lemma_stats_total_saturates(entries, stats);
}

/// Required against done, from the first week of a commitment through the current week.
#[derive(Debug, Clone, Copy, PartialEq, Eq, Structural)]
pub struct HistorySummary {
    pub start_monday: Date,
    /// Weeks from the start week through the current week, both counted: a
    /// commitment that starts this very Monday has one week passed, one that
    /// starts next Monday has none.
    pub weeks_passed: u32,
    pub total_required: Hours,
    pub total_done: Hours,
    /// `total_done` less `total_required`, in millionths of an hour.
    pub delta: i128,
}

/// How far `delta` may be from zero, in millionths of an hour, and still count as on
/// track.
pub const ON_TRACK_TOLERANCE: i128 = 1;

/// Where a commitment stands against its target.
#[derive(Debug, Clone, Copy, PartialEq, Eq, Structural)]
pub enum Standing {
    /// Less was done than required, by this much.
    Behind(Hours),
    /// More was done than required, by this much.
    Ahead(Hours),
    OnTrack,
}

/// The standing that a difference of done less required, in millionths of an hour,
/// amounts to.
pub open spec fn standing_of(delta: int) -> Standing {
    if delta < -ON_TRACK_TOLERANCE {
        Standing::Behind(Hours { micros: saturated(-delta) as u64 })
    } else if delta > ON_TRACK_TOLERANCE {
        Standing::Ahead(Hours { micros: saturated(delta) as u64 })
    } else {
        Standing::OnTrack
    }
}

/// The standing in words.
pub open spec fn status_text_of(delta: int) -> Seq<char> {
    match standing_of(delta) {
        Standing::Behind(by) => ("behind by "@ + one_decimal_text(by@)).push('h'),
        Standing::Ahead(by) => ("ahead by "@ + one_decimal_text(by@)).push('h'),
        Standing::OnTrack => "on track"@,
    }
}

/// Required against done for a commitment that started on `start_monday`, as of `now`.
///
/// The weeks that count are those from `start_monday` through the week that holds
/// `now`; `weekly_stats` is the whole history of the commitment.
pub fn history_summary(
    start_monday: Date,
    weekly_target_hours: Hours,
    weekly_stats: &Vec<WeeklyStat>,
    now: Date,
) -> (summary: HistorySummary)
    ensures
        summary.start_monday == start_monday,
        summary.weeks_passed == weeks_count(start_monday@, monday_on_or_before(now@)),
        summary.total_required@ == saturated(weekly_target_hours@ * summary.weeks_passed),
        summary.total_done@ == saturated(stats_total(weekly_stats@)),
        summary.delta == summary.total_done@ - summary.total_required@,
{
    let weeks_passed: u32 = count_weeks(start_monday, monday_of(now));
    let total_required: Hours = weekly_target_hours.saturating_times(weeks_passed);
    let mut total_done: Hours = Hours::zero();
    let mut k: usize = 0;
    while k < weekly_stats.len()
        invariant
            k <= weekly_stats.len(),
            total_done@ == saturated(stats_total(weekly_stats@.take(k as int))),
        decreases weekly_stats.len() - k,
    {
        proof {
            assert(weekly_stats@.take(k + 1).drop_last() =~= weekly_stats@.take(k as int));
            assert(weekly_stats@.take(k + 1).last() == weekly_stats@[k as int]);
        }
        total_done = total_done.saturating_add(weekly_stats[k].total_hours);
        k = k + 1;
    }
    assert(weekly_stats@.take(weekly_stats.len() as int) =~= weekly_stats@);
    let delta: i128 = total_done.as_micros() as i128 - total_required.as_micros() as i128;
    HistorySummary { start_monday, weeks_passed, total_required, total_done, delta }
}

impl HistorySummary {
    /// Behind, ahead or on track. A difference of no more than `ON_TRACK_TOLERANCE`
    /// either way is on track.
    pub fn standing(&self) -> (r: Standing)
        ensures
            r == standing_of(self.delta as int),
    {
        if self.delta < -ON_TRACK_TOLERANCE {
            if self.delta < -(u64::MAX as i128) {
                Standing::Behind(Hours::from_micros(u64::MAX))
            } else {
                Standing::Behind(Hours::from_micros((-self.delta) as u64))
            }
        } else if self.delta > ON_TRACK_TOLERANCE {
            if self.delta > u64::MAX as i128 {
                Standing::Ahead(Hours::from_micros(u64::MAX))
            } else {
                Standing::Ahead(Hours::from_micros(self.delta as u64))
            }
        } else {
            Standing::OnTrack
        }
    }

    /// The standing in words: `behind by 5.0h`, `ahead by 0.5h` or `on track`.
    pub fn status_text(&self) -> (r: String)
        ensures
            r@ == status_text_of(self.delta as int),
    {
        match self.standing() {
            Standing::Behind(by) => {
                let mut out = String::from_str("behind by ");
                by.push_one_decimal(&mut out);
                out.push('h');
                out
            },
            Standing::Ahead(by) => {
                let mut out = String::from_str("ahead by ");
                by.push_one_decimal(&mut out);
                out.push('h');
                out
            },
            Standing::OnTrack => String::from_str("on track"),
        }
    }
}

/// The hours that the stats hold for the week that starts on day `week_start`: those
/// of the first stat for that week, and zero when there is none.
pub open spec fn week_hours(stats: Seq<WeeklyStat>, week_start: int) -> int
    decreases stats.len(),
{
    if stats.len() == 0 {
        0
    } else if stats.first().week_start@ == week_start {
        stats.first().total_hours@
    } else {
        week_hours(stats.drop_first(), week_start)
    }
}

/// The hours logged in the week that starts on `week_start`; zero for a week that
/// has no stat.
pub fn hours_of_week(stats: &Vec<WeeklyStat>, week_start: Date) -> (hours: Hours)
    ensures
        hours@ == week_hours(stats@, week_start@),
{
    let week_day: i32 = week_start.num_days_from_ce();
    let mut k: usize = 0;
    assert(stats@.skip(0) =~= stats@);
    while k < stats.len()
        invariant
            k <= stats.len(),
            week_day == week_start@,
            week_hours(stats@, week_start@) == week_hours(stats@.skip(k as int), week_start@),
        decreases stats.len() - k,
    {
        proof {
            assert(stats@.skip(k as int).drop_first() =~= stats@.skip(k + 1));
            assert(stats@.skip(k as int).first() == stats@[k as int]);
        }
        if stats[k].week_start.num_days_from_ce() == week_day {
            return stats[k].total_hours;
        }
        k = k + 1;
    }
    Hours::zero()
}

/// The hours of every week from `start_monday` through `end_monday`, one for each week
/// of `weeks_between`; a week without a stat has zero hours.
pub fn weekly_timeline(start_monday: Date, end_monday: Date, stats: &Vec<WeeklyStat>) -> (timeline:
    Vec<Hours>)
    ensures
        timeline@.len() == weeks_count(start_monday@, end_monday@),
        forall|i: int|
            0 <= i < timeline@.len() ==> (#[trigger] timeline@[i])@ == week_hours(
                stats@,
                start_monday@ + 7 * i,
            ),
{
    let weeks: Vec<Date> = weeks_between(start_monday, end_monday);
    let mut timeline: Vec<Hours> = Vec::new();
    let mut k: usize = 0;
    while k < weeks.len()
        invariant
            k <= weeks.len(),
            timeline@.len() == k,
            forall|i: int| 0 <= i < weeks@.len() ==> (#[trigger] weeks@[i])@ == start_monday@ + 7 * i,
            forall|i: int|
                0 <= i < k ==> (#[trigger] timeline@[i])@ == week_hours(
                    stats@,
                    start_monday@ + 7 * i,
                ),
        decreases weeks.len() - k,
    {
        let hours: Hours = hours_of_week(stats, weeks[k]);
        timeline.push(hours);
        k = k + 1;
    }
    timeline
}

} // verus!
