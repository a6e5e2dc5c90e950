//! Lifecycle states of a reservation and the explicit, exhaustive mapping
//! between the domain enumeration and the storage-level enumeration (whose
//! cancelled state is named `blocked`).

use vstd::prelude::*;

verus! {

/// Domain-level lifecycle state. `Unknown` is a decode-safety sentinel and is
/// never a valid state to assign.
#[derive(Clone, Copy, Debug, PartialEq, Eq, Structural)]
pub enum ReservationStatus {
    Unknown,
    Pending,
    Confirmed,
    Cancelled,
}

/// Storage-level status enumeration; its third state is named `blocked` where
/// the domain says `cancelled`.
#[derive(Clone, Copy, Debug, PartialEq, Eq, Structural)]
pub enum RsvpStatus {
    Unknown,
    Pending,
    Confirmed,
    Blocked,
}

impl ReservationStatus {
    /// The wire code of each status, as carried in a reservation record.
    pub open spec fn spec_code(self) -> int {
        match self {
            ReservationStatus::Unknown => 0,
            ReservationStatus::Pending => 1,
            ReservationStatus::Confirmed => 2,
            ReservationStatus::Cancelled => 3,
        }
    }

    pub open spec fn spec_from_i32(v: int) -> Option<ReservationStatus> {
        if v == 0 {
            Some(ReservationStatus::Unknown)
        } else if v == 1 {
            Some(ReservationStatus::Pending)
        } else if v == 2 {
            Some(ReservationStatus::Confirmed)
        } else if v == 3 {
            Some(ReservationStatus::Cancelled)
        } else {
            None
        }
    }

    pub fn code(self) -> (r: i32)
        ensures
            r == self.spec_code(),
    {
        match self {
            ReservationStatus::Unknown => 0,
            ReservationStatus::Pending => 1,
            ReservationStatus::Confirmed => 2,
            ReservationStatus::Cancelled => 3,
        }
    }

    /// Decodes a wire code; every code outside the four known ones is refused.
    pub fn from_i32(v: i32) -> (r: Option<ReservationStatus>)
        ensures
            r == ReservationStatus::spec_from_i32(v as int),
    {
        match v {
            0 => Some(ReservationStatus::Unknown),
            1 => Some(ReservationStatus::Pending),
            2 => Some(ReservationStatus::Confirmed),
            3 => Some(ReservationStatus::Cancelled),
            _ => None,
        }
    }

    /// The lower-case name under which a status is bound into storage
    /// statements.
    pub open spec fn spec_name(self) -> Seq<char> {
        match self {
            ReservationStatus::Unknown => "unknown"@,
            ReservationStatus::Pending => "pending"@,
            ReservationStatus::Confirmed => "confirmed"@,
            ReservationStatus::Cancelled => "cancelled"@,
        }
    }

    pub fn name(self) -> (r: String)
        ensures
            r@ == self.spec_name(),
    {
        match self {
            ReservationStatus::Unknown => String::from_str("unknown"),
            ReservationStatus::Pending => String::from_str("pending"),
            ReservationStatus::Confirmed => String::from_str("confirmed"),
            ReservationStatus::Cancelled => String::from_str("cancelled"),
        }
    }

    /// The storage-level state a domain status is written as; the one
    /// difference of naming is `Cancelled`, stored as `Blocked`.
    pub fn to_storage(self) -> (r: RsvpStatus)
        ensures
            r == self.spec_to_storage(),
    {
        match self {
            ReservationStatus::Unknown => RsvpStatus::Unknown,
            ReservationStatus::Pending => RsvpStatus::Pending,
            ReservationStatus::Confirmed => RsvpStatus::Confirmed,
            ReservationStatus::Cancelled => RsvpStatus::Blocked,
        }
    }

    pub open spec fn spec_to_storage(self) -> RsvpStatus {
        match self {
            ReservationStatus::Unknown => RsvpStatus::Unknown,
            ReservationStatus::Pending => RsvpStatus::Pending,
            ReservationStatus::Confirmed => RsvpStatus::Confirmed,
            ReservationStatus::Cancelled => RsvpStatus::Blocked,
        }
    }
}

impl RsvpStatus {
    pub open spec fn spec_to_domain(self) -> ReservationStatus {
        match self {
            RsvpStatus::Unknown => ReservationStatus::Unknown,
            RsvpStatus::Pending => ReservationStatus::Pending,
            RsvpStatus::Confirmed => ReservationStatus::Confirmed,
            RsvpStatus::Blocked => ReservationStatus::Cancelled,
        }
    }
}

impl From<RsvpStatus> for ReservationStatus {
    fn from(status: RsvpStatus) -> (r: ReservationStatus) {
        match status {
            RsvpStatus::Unknown => ReservationStatus::Unknown,
            RsvpStatus::Pending => ReservationStatus::Pending,
            RsvpStatus::Confirmed => ReservationStatus::Confirmed,
            RsvpStatus::Blocked => ReservationStatus::Cancelled,
        }
    }
}

impl vstd::std_specs::convert::FromSpecImpl<RsvpStatus> for ReservationStatus {
    open spec fn obeys_from_spec() -> bool {
        true
    }

    open spec fn from_spec(t: RsvpStatus) -> ReservationStatus {
        t.spec_to_domain()
    }
}

} // verus!
