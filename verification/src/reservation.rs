//! The booking record and its structural invariants: non-empty user and
//! resource ids, a present, well-ordered half-open time window, and the
//! overlap semantics that decide when two windows collide.

use vstd::prelude::*;

use crate::errors::{Error, ErrorView};
use crate::status::ReservationStatus;

verus! {

/// A reservation of one resource by one user over the half-open window
/// `[start_time, end_time)`, in UTC seconds since the epoch. `id` is zero
/// until the record is persisted and immutable afterwards.
#[derive(Debug)]
pub struct Reservation {
    pub id: i64,
    pub user_id: String,
    pub resource_id: String,
    pub start_time: Option<i64>,
    pub end_time: Option<i64>,
    pub status: i32,
    pub note: String,
}

pub struct ReservationView {
    pub id: int,
    pub user_id: Seq<char>,
    pub resource_id: Seq<char>,
    pub start_time: Option<int>,
    pub end_time: Option<int>,
    pub status: int,
    pub note: Seq<char>,
}

impl View for Reservation {
    type V = ReservationView;

    open spec fn view(&self) -> ReservationView {
        ReservationView {
            id: self.id as int,
            user_id: self.user_id@,
            resource_id: self.resource_id@,
            start_time: match self.start_time {
                Some(t) => Some(t as int),
                None => None,
            },
            end_time: match self.end_time {
                Some(t) => Some(t as int),
                None => None,
            },
            status: self.status as int,
            note: self.note@,
        }
    }
}

impl Clone for Reservation {
    fn clone(&self) -> (r: Self)
        ensures
            r@ == self@,
    {
        Reservation {
            id: self.id,
            user_id: self.user_id.clone(),
            resource_id: self.resource_id.clone(),
            start_time: self.start_time,
            end_time: self.end_time,
            status: self.status,
            note: self.note.clone(),
        }
    }
}

/// Two half-open windows overlap exactly when each one starts before the
/// other ends; windows that touch at a single instant do not overlap.
pub open spec fn spec_windows_overlap(
    a_start: int,
    a_end: int,
    b_start: int,
    b_end: int,
) -> bool {
    a_start < b_end && b_start < a_end
}

/// Two half-open windows that touch at one instant do not overlap.
pub proof fn lemma_touching_windows_do_not_overlap(
    a_start: int,
    a_end: int,
    b_start: int,
    b_end: int,
)
    requires
        a_end == b_start,
    ensures
        !spec_windows_overlap(a_start, a_end, b_start, b_end),
{
}

impl ReservationView {
    /// What validation rejects, in the order the checks are made; `None`
    /// means the record is structurally sound.
    pub open spec fn spec_validation_error(self) -> Option<ErrorView> {
        if self.user_id.len() == 0 {
            Some(ErrorView::InvalidUserId(self.user_id))
        } else if self.resource_id.len() == 0 {
            Some(ErrorView::InvalidResourceId(self.resource_id))
        } else if self.start_time is None || self.end_time is None {
            Some(ErrorView::InvalidTime)
        } else if self.start_time->0 >= self.end_time->0 {
            Some(ErrorView::InvalidTime)
        } else {
            None
        }
    }

    pub open spec fn valid(self) -> bool {
        self.spec_validation_error() is None
    }

    /// An active reservation participates in overlap exclusion.
    pub open spec fn active(self) -> bool {
        self.status == ReservationStatus::Pending.spec_code() || self.status
            == ReservationStatus::Confirmed.spec_code()
    }

    /// The windows of two reservations overlap. Meaningful only when both
    /// windows are present.
    pub open spec fn overlaps(self, other: ReservationView) -> bool {
        spec_windows_overlap(
            self.start_time->0,
            self.end_time->0,
            other.start_time->0,
            other.end_time->0,
        )
    }

    /// `other` cannot be inserted beside `self`: both sit on the same
    /// resource, `self` is active, and the windows overlap.
    pub open spec fn excludes(self, other: ReservationView) -> bool {
        self.active() && self.resource_id == other.resource_id && self.overlaps(other)
    }
}

impl Reservation {
    /// A fresh, unsaved reservation: pending, with no id assigned yet.
    /// `start` and `end` are UTC seconds since the epoch.
    pub fn new_pending(uid: &str, rid: &str, start: i64, end: i64, note: &str) -> (r: Reservation)
        ensures
            r@ == (ReservationView {
                id: 0,
                user_id: uid@,
                resource_id: rid@,
                start_time: Some(start as int),
                end_time: Some(end as int),
                status: ReservationStatus::Pending.spec_code(),
                note: note@,
            }),
    {
        Reservation {
            id: 0,
            user_id: uid.to_owned(),
            resource_id: rid.to_owned(),
            start_time: Some(start),
            end_time: Some(end),
            status: ReservationStatus::Pending.code(),
            note: note.to_owned(),
        }
    }
}

/// Structural validation of a record before any storage work.
pub trait Validator {
    fn validate(&self) -> Result<(), Error>;
}

impl Validator for Reservation {
    /// Checks, in order: `user_id` non-empty, `resource_id` non-empty, both
    /// ends of the window present, `start_time < end_time` strictly. Pure:
    /// rejected input is reported without any storage call.
    fn validate(&self) -> (r: Result<(), Error>)
        ensures
            match r {
                Ok(()) => self@.spec_validation_error() is None,
                Err(e) => self@.spec_validation_error() == Some(e@),
            },
    {
        if self.user_id.as_str().is_empty() {
            return Err(Error::InvalidUserId(self.user_id.clone()));
        }
        if self.resource_id.as_str().is_empty() {
            return Err(Error::InvalidResourceId(self.resource_id.clone()));
        }
        match (self.start_time, self.end_time) {
            (Some(start), Some(end)) => {
                if start >= end {
                    Err(Error::InvalidTime)
                } else {
                    Ok(())
                }
            },
            _ => Err(Error::InvalidTime),
        }
    }
}

impl PartialEq for Reservation {
    fn eq(&self, other: &Self) -> (r: bool) {
        self.id == other.id && self.user_id == other.user_id && self.resource_id
            == other.resource_id && (match (self.start_time, other.start_time) {
            (Some(a), Some(b)) => a == b,
            (None, None) => true,
            _ => false,
        }) && (match (self.end_time, other.end_time) {
            (Some(a), Some(b)) => a == b,
            (None, None) => true,
            _ => false,
        }) && self.status == other.status && self.note == other.note
    }
}

impl vstd::std_specs::cmp::PartialEqSpecImpl for Reservation {
    open spec fn obeys_eq_spec() -> bool {
        true
    }

    open spec fn eq_spec(&self, other: &Self) -> bool {
        self@ == other@
    }
}

} // verus!
