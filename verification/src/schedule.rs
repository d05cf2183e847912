//! A single appointment and the test that decides whether two of them clash.

use crate::time::{Instant, Timestamp};
use vstd::prelude::*;

verus! {

/// Mathematical model of a [`Schedule`].
pub struct ScheduleView {
    /// The number under which the calendar filed the appointment.
    pub id: nat,
    /// The title, as a sequence of characters.
    pub subject: Seq<char>,
    /// The first instant of the appointment.
    pub start: Instant,
    /// The first instant after the appointment.
    pub end: Instant,
}

impl ScheduleView {
    /// Two appointments clash when each starts strictly before the other
    /// ends. The intervals are half-open: one that ends at the instant at
    /// which the other starts does not clash with it.
    pub open spec fn intersects(self, other: ScheduleView) -> bool {
        self.start.before(other.end) && other.start.before(self.end)
    }
}

/// One appointment. Nothing is asked of its fields: the end may come before
/// the start, and the subject may be empty.
#[derive(Debug, Clone, PartialEq, Eq)]
pub struct Schedule {
    pub id: u64,
    pub subject: String,
    pub start: Timestamp,
    pub end: Timestamp,
}

impl View for Schedule {
    type V = ScheduleView;

    open spec fn view(&self) -> ScheduleView {
        ScheduleView {
            id: self.id as nat,
            subject: self.subject@,
            start: self.start@,
            end: self.end@,
        }
    }
}

impl Schedule {
    /// An appointment with exactly the given fields.
    pub fn new(id: u64, subject: String, start: Timestamp, end: Timestamp) -> (made: Schedule)
        ensures
            made == (Schedule { id, subject, start, end }),
    {
        Schedule { id, subject, start, end }
    }

    /// Whether this appointment and `other` clash.
    pub fn intersects(&self, other: &Schedule) -> (clash: bool)
        ensures
            clash == self@.intersects(other@),
    {
        self.start.is_before(&other.end) && other.start.is_before(&self.end)
    }

    /// A second copy of this appointment.
    pub fn duplicate(&self) -> (copy: Schedule)
        ensures
            copy == *self,
    {
        Schedule { id: self.id, subject: self.subject.clone(), start: self.start, end: self.end }
    }
}

/// Clashing is symmetric: whichever of two appointments is asked about the
/// other, the answer is the same.
pub proof fn lemma_intersects_symmetric(a: Schedule, b: Schedule)
    ensures
        a@.intersects(b@) == b@.intersects(a@),
{
}

/// An appointment that ends at the very instant at which another starts does
/// not clash with it, whichever of the two is asked.
pub proof fn lemma_touching_do_not_intersect(a: Schedule, b: Schedule)
    requires
        a@.end == b@.start,
    ensures
        !a@.intersects(b@),
        !b@.intersects(a@),
{
}

} // verus!
