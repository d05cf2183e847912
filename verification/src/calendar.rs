//! The calendar: appointments in the order in which they were entered.

use crate::error::MyError;
use crate::schedule::{Schedule, ScheduleView};
use crate::time::Timestamp;
use vstd::prelude::*;

verus! {

/// Whether `candidate` clashes with an appointment of `entries`.
pub open spec fn conflicts_with(entries: Seq<ScheduleView>, candidate: ScheduleView) -> bool {
    exists|i: int| 0 <= i < entries.len() && #[trigger] entries[i].intersects(candidate)
}

/// No two appointments at different places of `entries` clash.
pub open spec fn conflict_free(entries: Seq<ScheduleView>) -> bool {
    forall|i: int, j: int|
        #![trigger entries[i], entries[j]]
        0 <= i < entries.len() && 0 <= j < entries.len() && i != j ==> !entries[i].intersects(
            entries[j],
        )
}

/// No id occurs at two places of `entries`.
pub open spec fn distinct_ids(entries: Seq<ScheduleView>) -> bool {
    forall|i: int, j: int|
        #![trigger entries[i], entries[j]]
        0 <= i < j < entries.len() ==> entries[i].id != entries[j].id
}

/// Every appointment of `entries` carries its own position as its id, as in
/// a calendar from which nothing was ever deleted.
pub open spec fn numbered_in_order(entries: Seq<ScheduleView>) -> bool {
    forall|i: int| 0 <= i < entries.len() ==> (#[trigger] entries[i]).id == i
}

/// Whether an appointment of `entries` carries `id`.
pub open spec fn has_id(entries: Seq<ScheduleView>, id: nat) -> bool {
    exists|i: int| 0 <= i < entries.len() && (#[trigger] entries[i]).id == id
}

/// Whether `at` is the first place of `entries` that carries `id`.
pub open spec fn first_with_id(entries: Seq<ScheduleView>, id: nat, at: int) -> bool {
    &&& 0 <= at < entries.len()
    &&& entries[at].id == id
    &&& forall|j: int| 0 <= j < at ==> (#[trigger] entries[j]).id != id
}

/// The first place of `entries` that carries `id`, if there is one.
pub open spec fn position_of(entries: Seq<ScheduleView>, id: nat) -> Option<int> {
    if has_id(entries, id) {
        Some(choose|at: int| first_with_id(entries, id, at))
    } else {
        None
    }
}

/// An ordered collection of appointments.
#[derive(Debug, Clone, PartialEq, Eq)]
pub struct Calendar {
    pub schedules: Vec<Schedule>,
}

impl View for Calendar {
    type V = Seq<ScheduleView>;

    open spec fn view(&self) -> Seq<ScheduleView> {
        Seq::new(self.schedules@.len(), |i: int| self.schedules@[i]@)
    }
}

impl Calendar {
    /// The calendar without appointments: what a store holds before its first
    /// use.
    pub fn new() -> (empty: Calendar)
        ensures
            empty.schedules@ == Seq::<Schedule>::empty(),
            empty@ == Seq::<ScheduleView>::empty(),
            conflict_free(empty@),
            distinct_ids(empty@),
            numbered_in_order(empty@),
    {
        Calendar { schedules: Vec::new() }
    }

    /// The appointments in their current order. The calendar is not changed.
    pub fn list(&self) -> (entries: &Vec<Schedule>)
        ensures
            *entries == self.schedules,
    {
        &self.schedules
    }
}

/// Among the places of `entries` that carry `id` there is a first one, and
/// `position_of` names it.
pub proof fn lemma_position_of(entries: Seq<ScheduleView>, id: nat)
    ensures
        match position_of(entries, id) {
            Some(at) => first_with_id(entries, id, at),
            None => forall|i: int| 0 <= i < entries.len() ==> (#[trigger] entries[i]).id != id,
        },
{
    if has_id(entries, id) {
        let found = choose|i: int| 0 <= i < entries.len() && (#[trigger] entries[i]).id == id;
        lemma_first_exists(entries, id, found);
    }
}

/// Below any place that carries `id` lies a first such place.
proof fn lemma_first_exists(entries: Seq<ScheduleView>, id: nat, found: int)
    requires
        0 <= found < entries.len(),
        entries[found].id == id,
    ensures
        exists|at: int| first_with_id(entries, id, at),
    decreases found,
{
    if exists|j: int| 0 <= j < found && (#[trigger] entries[j]).id == id {
        let earlier = choose|j: int| 0 <= j < found && (#[trigger] entries[j]).id == id;
        lemma_first_exists(entries, id, earlier);
    } else {
        assert(first_with_id(entries, id, found));
    }
}

/// In a calendar whose appointments carry their positions as ids, no id
/// occurs twice and none equals the number of appointments: the next
/// appointment to be entered gets an id of its own.
pub proof fn lemma_numbered_in_order_distinct(entries: Seq<ScheduleView>)
    requires
        numbered_in_order(entries),
    ensures
        distinct_ids(entries),
        !has_id(entries, entries.len()),
{
}

/// Tries to enter a new appointment.
///
/// The appointment gets the number of appointments in the calendar as its id.
/// If it clashes with any appointment in the calendar, the calendar stays as
/// it is and the error is `ScheduleConflict`. Otherwise the appointment goes
/// to the end of the calendar and a copy of it is returned.
///
/// Nothing is asked of the fields: the subject may be empty, and the end may
/// lie at or before the start. Because the id is a count, it can equal an id
/// that is still in use once an appointment has been deleted; the last
/// clause says when that cannot happen.
pub fn add_schedule(
    calendar: &mut Calendar,
    subject: String,
    start: Timestamp,
    end: Timestamp,
) -> (added: Result<Schedule, MyError>)
    ensures
        ({
            let candidate = Schedule {
                id: old(calendar).schedules@.len() as u64,
                subject,
                start,
                end,
            };
            if conflicts_with(old(calendar)@, candidate@) {
                &&& added == Err::<Schedule, MyError>(MyError::ScheduleConflict)
                &&& *final(calendar) == *old(calendar)
            } else {
                &&& added == Ok::<Schedule, MyError>(candidate)
                &&& final(calendar).schedules@ == old(calendar).schedules@.push(candidate)
                &&& final(calendar)@ == old(calendar)@.push(candidate@)
            }
        }),
        conflict_free(old(calendar)@) ==> conflict_free(final(calendar)@),
        numbered_in_order(old(calendar)@) ==> numbered_in_order(final(calendar)@),
        distinct_ids(old(calendar)@) && !has_id(old(calendar)@, old(calendar)@.len())
            ==> distinct_ids(final(calendar)@),
{
    let id: u64 = calendar.schedules.len() as u64;
    let new_schedule = Schedule::new(id, subject, start, end);

    let mut i: usize = 0;
    while i < calendar.schedules.len()
        invariant
            i <= calendar.schedules@.len(),
            *calendar == *old(calendar),
            new_schedule == (Schedule {
                id: calendar.schedules@.len() as u64,
                subject,
                start,
                end,
            }),
            forall|j: int| 0 <= j < i ==> !(#[trigger] calendar@[j]).intersects(new_schedule@),
        decreases calendar.schedules@.len() - i,
    {
        if calendar.schedules[i].intersects(&new_schedule) {
            proof {
                lemma_one_conflict_suffices(calendar@, new_schedule@, i as int);
            }
            return Err(MyError::ScheduleConflict);
        }
        i += 1;
    }

    let created = new_schedule.duplicate();
    calendar.schedules.push(new_schedule);
    proof {
        assert(calendar@ =~= old(calendar)@.push(created@));
        lemma_add_preserves(old(calendar)@, created@);
    }
    Ok(created)
}

/// A single clash is enough: if the appointment at one place of `entries`
/// clashes with `candidate`, then `candidate` is in conflict with `entries`,
/// whatever the other appointments are.
pub proof fn lemma_one_conflict_suffices(
    entries: Seq<ScheduleView>,
    candidate: ScheduleView,
    at: int,
)
    requires
        0 <= at < entries.len(),
        entries[at].intersects(candidate),
    ensures
        conflicts_with(entries, candidate),
{
}

/// Entering an appointment that clashes with none keeps a calendar free of
/// conflicts. It keeps the ids in step with the positions if the new id is
/// the old length, and keeps them distinct if the new id was not in use.
pub proof fn lemma_add_preserves(entries: Seq<ScheduleView>, candidate: ScheduleView)
    requires
        !conflicts_with(entries, candidate),
    ensures
        conflict_free(entries) ==> conflict_free(entries.push(candidate)),
        numbered_in_order(entries) && candidate.id == entries.len() ==> numbered_in_order(
            entries.push(candidate),
        ),
        distinct_ids(entries) && !has_id(entries, candidate.id) ==> distinct_ids(
            entries.push(candidate),
        ),
{
    let longer = entries.push(candidate);
    if conflict_free(entries) {
        assert forall|i: int, j: int|
            #![trigger longer[i], longer[j]]
            0 <= i < longer.len() && 0 <= j < longer.len() && i != j implies !longer[i].intersects(
            longer[j],
        ) by {
            if i < entries.len() && j < entries.len() {
                assert(!entries[i].intersects(entries[j]));
            } else if i < entries.len() {
                assert(!entries[i].intersects(candidate));
            } else {
                assert(!entries[j].intersects(candidate));
            }
        }
    }
    if distinct_ids(entries) && !has_id(entries, candidate.id) {
        assert forall|i: int, j: int|
            #![trigger longer[i], longer[j]]
            0 <= i < j < longer.len() implies longer[i].id != longer[j].id by {
            if j < entries.len() {
                assert(entries[i].id != entries[j].id);
            } else {
                assert(entries[i].id != candidate.id);
            }
        }
    }
}

/// Takes the first appointment with the given id out of the calendar.
///
/// The appointments behind it move up by one place and keep their order. If
/// no appointment carries the id, the calendar stays as it is and the error
/// is `ScheduleNotFound` with the id.
pub fn delete_schedule(calendar: &mut Calendar, id: u64) -> (deleted: Result<(), MyError>)
    ensures
        match position_of(old(calendar)@, id as nat) {
            Some(at) => {
                &&& deleted == Ok::<(), MyError>(())
                &&& first_with_id(old(calendar)@, id as nat, at)
                &&& final(calendar).schedules@ == old(calendar).schedules@.remove(at)
                &&& final(calendar)@ == old(calendar)@.remove(at)
            },
            None => {
                &&& deleted == Err::<(), MyError>(MyError::ScheduleNotFound(id))
                &&& *final(calendar) == *old(calendar)
            },
        },
        conflict_free(old(calendar)@) ==> conflict_free(final(calendar)@),
        distinct_ids(old(calendar)@) ==> distinct_ids(final(calendar)@),
{
    let mut i: usize = 0;
    while i < calendar.schedules.len()
        invariant
            i <= calendar.schedules@.len(),
            *calendar == *old(calendar),
            forall|j: int| 0 <= j < i ==> (#[trigger] calendar@[j]).id != id,
        decreases calendar.schedules@.len() - i,
    {
        if calendar.schedules[i].id == id {
            calendar.schedules.remove(i);
            proof {
                let before = old(calendar)@;
                assert(first_with_id(before, id as nat, i as int));
                assert(calendar@ =~= before.remove(i as int));
                lemma_delete_preserves(before, i as int);
            }
            return Ok(());
        }
        i += 1;
    }
    Err(MyError::ScheduleNotFound(id))
}

/// Taking one appointment out keeps a calendar free of conflicts and keeps
/// its ids distinct.
pub proof fn lemma_delete_preserves(entries: Seq<ScheduleView>, at: int)
    requires
        0 <= at < entries.len(),
    ensures
        conflict_free(entries) ==> conflict_free(entries.remove(at)),
        distinct_ids(entries) ==> distinct_ids(entries.remove(at)),
{
    let shorter = entries.remove(at);
    let origin = |i: int| if i < at { i } else { i + 1 };
    assert forall|i: int| 0 <= i < shorter.len() implies #[trigger] shorter[i] == entries[origin(
        i,
    )] by {}
    if conflict_free(entries) {
        assert forall|i: int, j: int|
            #![trigger shorter[i], shorter[j]]
            0 <= i < shorter.len() && 0 <= j < shorter.len() && i != j implies !shorter[i].intersects(
            shorter[j],
        ) by {
            assert(!entries[origin(i)].intersects(entries[origin(j)]));
        }
    }
    if distinct_ids(entries) {
        assert forall|i: int, j: int|
            #![trigger shorter[i], shorter[j]]
            0 <= i < j < shorter.len() implies shorter[i].id != shorter[j].id by {
            assert(entries[origin(i)].id != entries[origin(j)].id);
        }
    }
}

} // verus!
