//! The order in which a session lists its commitments: active ones first, archived
//! ones after them, each group by ascending id.

use crate::model::{CommitmentWithProgress, WeeklyStat};
use vstd::prelude::*;

verus! {

/// One row of the list: a commitment with its progress, and its weekly history.
pub type CommitmentDisplayRecord = (CommitmentWithProgress, Vec<WeeklyStat>);

/// Whether `a` may stand before `b` in the list: an active commitment before an
/// archived one, and of two in the same group the one whose id is not the larger.
pub open spec fn shown_before(a: CommitmentWithProgress, b: CommitmentWithProgress) -> bool {
    if a.active == b.active {
        a.id <= b.id
    } else {
        a.active
    }
}

/// Whether the records stand in the order of the list.
pub open spec fn in_display_order(items: Seq<CommitmentDisplayRecord>) -> bool {
    forall|i: int, j: int|
        0 <= i < j < items.len() ==> shown_before((#[trigger] items[i]).0, (#[trigger] items[j]).0)
}

/// Where `record` goes into records that are in display order: before the first one
/// that it may stand before, and at the end if there is none.
pub open spec fn place_index(sorted: Seq<CommitmentDisplayRecord>, record: CommitmentDisplayRecord) -> int
    decreases sorted.len(),
{
    if sorted.len() == 0 || shown_before(record.0, sorted.first().0) {
        0
    } else {
        1 + place_index(sorted.drop_first(), record)
    }
}

/// The records in display order. Records that may stand either way round (same
/// group, same id) keep the order they came in.
pub open spec fn display_order(records: Seq<CommitmentDisplayRecord>) -> Seq<CommitmentDisplayRecord>
    decreases records.len(),
{
    if records.len() == 0 {
        records
    } else {
        let rest = display_order(records.drop_first());
        rest.insert(place_index(rest, records.first()), records.first())
    }
}

proof fn lemma_place_index(sorted: Seq<CommitmentDisplayRecord>, record: CommitmentDisplayRecord)
    ensures
        0 <= place_index(sorted, record) <= sorted.len(),
        forall|i: int|
            0 <= i < place_index(sorted, record) ==> !shown_before(
                record.0,
                (#[trigger] sorted[i]).0,
            ),
        place_index(sorted, record) < sorted.len() ==> shown_before(
            record.0,
            sorted[place_index(sorted, record)].0,
        ),
    decreases sorted.len(),
{
    if !(sorted.len() == 0 || shown_before(record.0, sorted.first().0)) {
        let rest = sorted.drop_first();
        lemma_place_index(rest, record);
        assert forall|i: int| 0 <= i < place_index(sorted, record) implies !shown_before(
            record.0,
            (#[trigger] sorted[i]).0,
        ) by {
            if i > 0 {
                assert(rest[i - 1] == sorted[i]);
            }
        }
        if place_index(sorted, record) < sorted.len() {
            assert(rest[place_index(rest, record)] == sorted[place_index(sorted, record)]);
        }
    }
}

proof fn lemma_place_index_is(
    sorted: Seq<CommitmentDisplayRecord>,
    record: CommitmentDisplayRecord,
    at: int,
)
    requires
        0 <= at <= sorted.len(),
        forall|i: int| 0 <= i < at ==> !shown_before(record.0, (#[trigger] sorted[i]).0),
        at < sorted.len() ==> shown_before(record.0, sorted[at].0),
    ensures
        place_index(sorted, record) == at,
    decreases at,
{
    if at > 0 {
        let rest = sorted.drop_first();
        assert(sorted.first() == sorted[0]);
        assert forall|i: int| 0 <= i < at - 1 implies !shown_before(
            record.0,
            (#[trigger] rest[i]).0,
        ) by {
            assert(rest[i] == sorted[i + 1]);
        }
        if at < sorted.len() {
            assert(rest[at - 1] == sorted[at]);
        }
        lemma_place_index_is(rest, record, at - 1);
    }
}

proof fn lemma_placed_in_order(sorted: Seq<CommitmentDisplayRecord>, record: CommitmentDisplayRecord)
    requires
        in_display_order(sorted),
    ensures
        in_display_order(sorted.insert(place_index(sorted, record), record)),
        sorted.insert(place_index(sorted, record), record).to_multiset()
            == sorted.to_multiset().insert(record),
{
    lemma_place_index(sorted, record);
    let at = place_index(sorted, record);
    let placed = sorted.insert(at, record);
    assert forall|i: int, j: int| 0 <= i < j < placed.len() implies shown_before(
        (#[trigger] placed[i]).0,
        (#[trigger] placed[j]).0,
    ) by {
        if j < at {
            assert(placed[i] == sorted[i] && placed[j] == sorted[j]);
        } else if j == at {
            assert(placed[i] == sorted[i]);
        } else if i == at {
            assert(placed[j] == sorted[j - 1]);
            if j - 1 > at {
                assert(shown_before(sorted[at].0, sorted[j - 1].0));
            }
        } else if i < at {
            assert(placed[i] == sorted[i] && placed[j] == sorted[j - 1]);
        } else {
            assert(placed[i] == sorted[i - 1] && placed[j] == sorted[j - 1]);
        }
    }
    assert(placed.remove(at) =~= sorted);
    vstd::seq_lib::to_multiset_remove(placed, at);
    assert(placed[at] == record);
    placed.to_multiset_ensures();
    assert(placed.contains(record));
    assert(placed.to_multiset() =~= sorted.to_multiset().insert(record));
}

/// What `display_order` gives is in display order and holds the records it was given,
/// each as often as it was given.
pub proof fn display_order_sorts(records: Seq<CommitmentDisplayRecord>)
    ensures
        in_display_order(display_order(records)),
        display_order(records).to_multiset() == records.to_multiset(),
        display_order(records).len() == records.len(),
    decreases records.len(),
{
    if records.len() == 0 {
    } else {
        let rest = records.drop_first();
        display_order_sorts(rest);
        lemma_placed_in_order(display_order(rest), records.first());
        lemma_place_index(display_order(rest), records.first());
        assert(records =~= seq![records.first()] + rest);
        assert(records.to_multiset() =~= rest.to_multiset().insert(records.first())) by {
            let one = seq![records.first()];
            assert(one.remove(0) =~= Seq::<CommitmentDisplayRecord>::empty());
            vstd::seq_lib::lemma_multiset_commutative(one, rest);
            one.to_multiset_ensures();
            Seq::<CommitmentDisplayRecord>::empty().to_multiset_ensures();
            assert(one =~= Seq::<CommitmentDisplayRecord>::empty().push(records.first()));
        }
    }
}

/// Records that are already in display order stay as they are.
pub proof fn display_order_keeps_ordered(records: Seq<CommitmentDisplayRecord>)
    requires
        in_display_order(records),
    ensures
        display_order(records) == records,
    decreases records.len(),
{
    if records.len() > 0 {
        let rest = records.drop_first();
        assert forall|i: int, j: int| 0 <= i < j < rest.len() implies shown_before(
            (#[trigger] rest[i]).0,
            (#[trigger] rest[j]).0,
        ) by {
            assert(rest[i] == records[i + 1] && rest[j] == records[j + 1]);
        }
        display_order_keeps_ordered(rest);
        if rest.len() > 0 {
            assert(rest.first() == records[1]);
            assert(records.first() == records[0]);
        }
        assert(place_index(rest, records.first()) == 0);
        assert(rest.insert(0, records.first()) =~= records);
    }
}

/// Puts the records in display order: active commitments first, archived ones after
/// them, each group by ascending id.
pub fn sort_for_display(records: Vec<CommitmentDisplayRecord>) -> (sorted: Vec<
    CommitmentDisplayRecord,
>)
    ensures
        sorted@ == display_order(records@),
        in_display_order(sorted@),
        sorted@.to_multiset() == records@.to_multiset(),
        sorted@.len() == records@.len(),
{
    let ghost given = records@;
    let mut records = records;
    let mut sorted: Vec<CommitmentDisplayRecord> = Vec::new();
    assert(given.skip(given.len() as int) =~= Seq::<CommitmentDisplayRecord>::empty());
    while records.len() > 0
        invariant
            records@ == given.take(records@.len() as int),
            records@.len() <= given.len(),
            sorted@ == display_order(given.skip(records@.len() as int)),
        decreases records@.len(),
    {
        let ghost before = records@.len() as int;
        let record = records.pop().unwrap();
        let ghost rest = given.skip(before);
        let ghost tail = given.skip(before - 1);
        proof {
            assert(record == given[before - 1]);
            assert(tail.first() == record);
            assert(tail.drop_first() =~= rest);
            assert(records@ =~= given.take(before - 1));
            display_order_sorts(rest);
        }
        let mut at: usize = 0;
        while at < sorted.len() && !comes_before(&record.0, &sorted[at].0)
            invariant
                at <= sorted@.len(),
                forall|i: int| 0 <= i < at ==> !shown_before(record.0, (#[trigger] sorted@[i]).0),
            decreases sorted@.len() - at,
        {
            at = at + 1;
        }
        proof {
            lemma_place_index_is(sorted@, record, at as int);
        }
        sorted.insert(at, record);
    }
    proof {
        assert(given.skip(0) =~= given);
        display_order_sorts(given);
    }
    sorted
}

/// Whether `a` may stand before `b` in the list.
pub fn comes_before(a: &CommitmentWithProgress, b: &CommitmentWithProgress) -> (r: bool)
    ensures
        r == shown_before(*a, *b),
{
    if a.active == b.active {
        a.id <= b.id
    } else {
        a.active
    }
}

} // verus!
