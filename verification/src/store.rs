//! The reservation store model: the state the persistence manager maintains,
//! with its invariants — ids assigned in increasing order, every record
//! structurally valid, and no two active reservations of one resource with
//! overlapping windows — and the create/confirm/note/cancel/get operations
//! and the query and filter engines over it.

use vstd::prelude::*;

use crate::conflict::{ConflictInfoView, ReservationConflict, ReservationConflictInfo, ReservationWindow, WindowView};
use crate::errors::{Error, ErrorView};
use crate::query::{FilterPager, FilterView, PagerView, QueryView, ReservationFilter, ReservationQuery};
use crate::reservation::{spec_windows_overlap, Reservation, ReservationView, Validator};
use crate::status::ReservationStatus;
use crate::strutil::str_eq;

verus! {

/// Two records that the exclusion rule can never allow to coexist: both
/// active, one resource, overlapping windows. Symmetric.
pub open spec fn active_conflict(a: ReservationView, b: ReservationView) -> bool {
    a.active() && b.active() && a.resource_id == b.resource_id && a.overlaps(b)
}

/// Some stored record shuts the candidate out: it is active, on the
/// candidate's resource, and its window overlaps the candidate's.
pub open spec fn has_conflict(rows: Seq<ReservationView>, r: ReservationView) -> bool {
    exists|i: int| 0 <= i < rows.len() && (#[trigger] rows[i]).excludes(r)
}

/// The index of the record with the given id, or -1 where there is none.
pub open spec fn find_idx(rows: Seq<ReservationView>, id: int) -> int
    decreases rows.len(),
{
    if rows.len() == 0 {
        -1
    } else if rows[0].id == id {
        0
    } else {
        let r = find_idx(rows.drop_first(), id);
        if r < 0 {
            -1
        } else {
            1 + r
        }
    }
}

pub proof fn lemma_find_idx(rows: Seq<ReservationView>, id: int)
    ensures
        find_idx(rows, id) >= 0 ==> 0 <= find_idx(rows, id) < rows.len() && rows[find_idx(
            rows,
            id,
        )].id == id,
        find_idx(rows, id) < 0 ==> forall|j: int| 0 <= j < rows.len() ==> (#[trigger] rows[j]).id
            != id,
        forall|j: int| 0 <= j < find_idx(rows, id) ==> (#[trigger] rows[j]).id != id,
    decreases rows.len(),
{
    if rows.len() != 0 && rows[0].id != id {
        lemma_find_idx(rows.drop_first(), id);
        assert forall|j: int| 0 <= j < rows.len() && find_idx(rows, id) < 0 implies (
        #[trigger] rows[j]).id != id by {
            if j >= 1 {
                assert(rows[j] == rows.drop_first()[j - 1]);
            }
        }
        assert forall|j: int| 0 <= j < find_idx(rows, id) implies (#[trigger] rows[j]).id != id by {
            if j >= 1 {
                assert(rows[j] == rows.drop_first()[j - 1]);
            }
        }
    }
}

/// The store: records in order of assignment, and the id the next record
/// will receive.
pub struct ReservationStore {
    rows: Vec<Reservation>,
    next_id: i64,
}

pub struct StoreView {
    pub rows: Seq<ReservationView>,
    pub next_id: int,
}

impl View for ReservationStore {
    type V = StoreView;

    closed spec fn view(&self) -> StoreView {
        StoreView {
            rows: self.rows@.map_values(|r: Reservation| r@),
            next_id: self.next_id as int,
        }
    }
}

impl StoreView {
    /// The store's invariant: every record valid, with a positive id below
    /// the next to assign, ids strictly increasing, each status one of
    /// pending, confirmed, cancelled, and no two active records of one
    /// resource overlapping.
    pub open spec fn wf(self) -> bool {
        &&& 1 <= self.next_id <= i64::MAX
        &&& forall|i: int|
            0 <= i < self.rows.len() ==> (#[trigger] self.rows[i]).valid()
        &&& forall|i: int|
            0 <= i < self.rows.len() ==> 1 <= (#[trigger] self.rows[i]).id < self.next_id
        &&& forall|i: int, j: int|
            0 <= i < j < self.rows.len() ==> (#[trigger] self.rows[i]).id < (
            #[trigger] self.rows[j]).id
        &&& forall|i: int|
            0 <= i < self.rows.len() ==> ((#[trigger] self.rows[i]).status == 1
                || self.rows[i].status == 2 || self.rows[i].status == 3)
        &&& forall|i: int, j: int|
            0 <= i < self.rows.len() && 0 <= j < self.rows.len() && i != j ==> !active_conflict(
                #[trigger] self.rows[i],
                #[trigger] self.rows[j],
            )
    }
}

/// Every stored reservation's window is present and strictly ordered:
/// `start < end` holds of all records of a well-formed store.
pub proof fn lemma_stored_windows_ordered(s: StoreView, i: int)
    requires
        s.wf(),
        0 <= i < s.rows.len(),
    ensures
        s.rows[i].start_time is Some,
        s.rows[i].end_time is Some,
        s.rows[i].start_time->0 < s.rows[i].end_time->0,
{
    assert(s.rows[i].valid());
}

/// In a well-formed store the id of the record at position `i` is at least
/// `i + 1`: ids start at 1 and increase strictly.
pub proof fn lemma_ids_lower_bound(s: StoreView, i: int)
    requires
        s.wf(),
        0 <= i < s.rows.len(),
    ensures
        s.rows[i].id >= i + 1,
    decreases i,
{
    if i > 0 {
        lemma_ids_lower_bound(s, i - 1);
    }
}

/// A well-formed store holds fewer records than the next id to assign; in
/// particular the record count fits the id type.
pub proof fn lemma_row_count_bound(s: StoreView)
    requires
        s.wf(),
    ensures
        s.rows.len() < s.next_id,
{
    if s.rows.len() > 0 {
        lemma_ids_lower_bound(s, s.rows.len() - 1);
    }
}

/// Repeated lookups of one id on an unchanged store return identical data:
/// the looked-up record is a function of the store state alone.
pub proof fn lemma_get_idempotent(s: StoreView, id: int, r1: ReservationView, r2: ReservationView)
    requires
        find_idx(s.rows, id) >= 0,
        r1 == s.rows[find_idx(s.rows, id)],
        r2 == s.rows[find_idx(s.rows, id)],
    ensures
        r1 == r2,
{
}

impl ReservationStore {
    /// An empty store; the first record will receive id 1.
    pub fn new() -> (s: ReservationStore)
        ensures
            s@.wf(),
            s@.rows.len() == 0,
            s@.next_id == 1,
    {
        let s = ReservationStore { rows: Vec::new(), next_id: 1 };
        proof {
            assert(s@.rows =~= Seq::<ReservationView>::empty());
        }
        s
    }

    /// The position of the record with this id, if any.
    fn position_of(&self, id: i64) -> (r: Option<usize>)
        ensures
            match r {
                Some(i) => 0 <= i < self@.rows.len() && find_idx(self@.rows, id as int) == i as int,
                None => find_idx(self@.rows, id as int) < 0,
            },
    {
        proof {
            lemma_find_idx(self@.rows, id as int);
        }
        let n: usize = self.rows.len();
        let mut i: usize = 0;
        while i < n
            invariant
                i <= n,
                n == self@.rows.len(),
                forall|j: int| 0 <= j < i ==> (#[trigger] self@.rows[j]).id != id as int,
                find_idx(self@.rows, id as int) >= 0 ==> 0 <= find_idx(self@.rows, id as int)
                    < self@.rows.len() && self@.rows[find_idx(self@.rows, id as int)].id
                    == id as int,
                find_idx(self@.rows, id as int) < 0 ==> forall|j: int|
                    0 <= j < self@.rows.len() ==> (#[trigger] self@.rows[j]).id != id as int,
                forall|j: int|
                    0 <= j < find_idx(self@.rows, id as int) ==> (#[trigger] self@.rows[j]).id
                        != id as int,
            decreases n - i,
        {
            if self.rows[i].id == id {
                proof {
                    let fd = find_idx(self@.rows, id as int);
                    assert(self@.rows[i as int].id == id as int);
                    if fd < 0 {
                        assert(self@.rows[i as int].id != id as int);
                    } else if fd < i as int {
                        assert(self@.rows[fd].id != id as int);
                    } else if fd > i as int {
                        assert(self@.rows[i as int].id != id as int);
                    }
                }
                return Some(i);
            }
            i += 1;
        }
        None
    }

    /// Point lookup: the record with this id, or `NotFound`.
    pub fn get(&self, id: i64) -> (r: Result<Reservation, Error>)
        ensures
            match r {
                Ok(found) => find_idx(self@.rows, id as int) >= 0 && found@ == self@.rows[find_idx(
                    self@.rows,
                    id as int,
                )],
                Err(e) => e@ == ErrorView::NotFound && find_idx(self@.rows, id as int) < 0,
            },
    {
        match self.position_of(id) {
            Some(i) => Ok(self.rows[i].clone()),
            None => Err(Error::NotFound),
        }
    }
}

/// The record as it is persisted by a create: the assigned id, status
/// pending, all other fields as given.
pub open spec fn pending_with_id(r: ReservationView, id: int) -> ReservationView {
    ReservationView {
        id: id,
        user_id: r.user_id,
        resource_id: r.resource_id,
        start_time: r.start_time,
        end_time: r.end_time,
        status: ReservationStatus::Pending.spec_code(),
        note: r.note,
    }
}

/// The window a record occupies on its resource.
pub open spec fn spec_window_of_resv(r: ReservationView) -> WindowView {
    WindowView { rid: r.resource_id, start: r.start_time->0, end: r.end_time->0 }
}

impl ReservationStore {
    /// Validates and inserts. A structurally invalid record is refused with
    /// its validation error before any storage work. A record whose window
    /// overlaps an active reservation of the same resource is refused with a
    /// structured conflict report carrying the rejected window and a stored
    /// window it collides with. Otherwise the record is appended with the
    /// next id and status pending, and returned.
    #[verifier::rlimit(100)]
    pub fn create(&mut self, rsvp: &Reservation) -> (r: Result<Reservation, Error>)
        requires
            old(self)@.wf(),
            old(self)@.next_id < i64::MAX,
        ensures
            final(self)@.wf(),
            match r {
                Ok(saved) => {
                    &&& rsvp@.spec_validation_error() is None
                    &&& !has_conflict(old(self)@.rows, rsvp@)
                    &&& saved@ == pending_with_id(rsvp@, old(self)@.next_id)
                    &&& final(self)@.rows == old(self)@.rows.push(saved@)
                    &&& final(self)@.next_id == old(self)@.next_id + 1
                },
                Err(e) => {
                    &&& final(self)@ == old(self)@
                    &&& match e@ {
                        ErrorView::ConflictReservation(info) => {
                            &&& rsvp@.spec_validation_error() is None
                            &&& has_conflict(old(self)@.rows, rsvp@)
                            &&& (info matches ConflictInfoView::Parsed(c) && c.a
                                == spec_window_of_resv(rsvp@) && exists|i: int|
                                0 <= i < old(self)@.rows.len() && (
                                #[trigger] old(self)@.rows[i]).excludes(rsvp@) && c.b
                                    == spec_window_of_resv(old(self)@.rows[i]))
                        },
                        _ => rsvp@.spec_validation_error() == Some(e@),
                    }
                },
            },
    {
        match rsvp.validate() {
            Err(e) => {
                return Err(e);
            },
            Ok(()) => {},
        }
        let cstart = match rsvp.start_time {
            Some(t) => t,
            None => {
                proof {
                    assert(false);
                }
                return Err(Error::InvalidTime);
            },
        };
        let cend = match rsvp.end_time {
            Some(t) => t,
            None => {
                proof {
                    assert(false);
                }
                return Err(Error::InvalidTime);
            },
        };
        let n: usize = self.rows.len();
        let mut i: usize = 0;
        while i < n
            invariant
                i <= n,
                self@ == old(self)@,
                n == self@.rows.len(),
                self@.wf(),
                cstart == rsvp@.start_time->0,
                cend == rsvp@.end_time->0,
                rsvp@.spec_validation_error() is None,
                forall|j: int| 0 <= j < i ==> !(#[trigger] self@.rows[j]).excludes(rsvp@),
            decreases n - i,
        {
            let row = &self.rows[i];
            let active = row.status == ReservationStatus::Pending.code() || row.status
                == ReservationStatus::Confirmed.code();
            if active && str_eq(row.resource_id.as_str(), rsvp.resource_id.as_str()) {
                proof {
                    assert(self@.rows[i as int].valid());
                }
                let es = match row.start_time {
                    Some(t) => t,
                    None => {
                        proof {
                            assert(false);
                        }
                        return Err(Error::Unknown);
                    },
                };
                let ee = match row.end_time {
                    Some(t) => t,
                    None => {
                        proof {
                            assert(false);
                        }
                        return Err(Error::Unknown);
                    },
                };
                if es < cend && cstart < ee {
                    let info = ReservationConflictInfo::Parsed(
                        ReservationConflict {
                            a: ReservationWindow {
                                rid: rsvp.resource_id.clone(),
                                start: cstart,
                                end: cend,
                            },
                            b: ReservationWindow { rid: row.resource_id.clone(), start: es, end: ee },
                        },
                    );
                    proof {
                        let orows = old(self)@.rows;
                        let bwin = WindowView {
                            rid: self@.rows[i as int].resource_id,
                            start: es as int,
                            end: ee as int,
                        };
                        assert(orows[i as int].excludes(rsvp@));
                        assert(spec_window_of_resv(orows[i as int]) == bwin);
                        assert(exists|k: int|
                            0 <= k < orows.len() && (#[trigger] orows[k]).excludes(rsvp@)
                                && spec_window_of_resv(orows[k]) == bwin);
                    }
                    return Err(Error::ConflictReservation(info));
                }
            }
            i += 1;
        }
        let saved = Reservation {
            id: self.next_id,
            user_id: rsvp.user_id.clone(),
            resource_id: rsvp.resource_id.clone(),
            start_time: Some(cstart),
            end_time: Some(cend),
            status: ReservationStatus::Pending.code(),
            note: rsvp.note.clone(),
        };
        let out = saved.clone();
        self.rows.push(saved);
        self.next_id = self.next_id + 1;
        proof {
            let oldrows = old(self)@.rows;
            let newrows = self@.rows;
            let newrow = out@;
            assert(newrows =~= oldrows.push(newrow));
            assert(newrow == pending_with_id(rsvp@, old(self)@.next_id));
            assert forall|a: int| 0 <= a < newrows.len() implies (#[trigger] newrows[a]).valid() by {
                if a < oldrows.len() {
                    assert(oldrows[a].valid());
                }
            }
            assert forall|a: int, b: int|
                0 <= a < newrows.len() && 0 <= b < newrows.len() && a != b implies !active_conflict(
                #[trigger] newrows[a],
                #[trigger] newrows[b],
            ) by {
                let last = oldrows.len() as int;
                if a < last && b < last {
                    assert(!active_conflict(oldrows[a], oldrows[b]));
                } else if a == last {
                    assert(!oldrows[b].excludes(rsvp@));
                } else {
                    assert(!oldrows[a].excludes(rsvp@));
                }
            }
        }
        Ok(out)
    }
}

/// One record with its status replaced, all else kept.
pub open spec fn with_status(r: ReservationView, st: int) -> ReservationView {
    ReservationView {
        id: r.id,
        user_id: r.user_id,
        resource_id: r.resource_id,
        start_time: r.start_time,
        end_time: r.end_time,
        status: st,
        note: r.note,
    }
}

/// One record with its note replaced, all else kept.
pub open spec fn with_note(r: ReservationView, note: Seq<char>) -> ReservationView {
    ReservationView {
        id: r.id,
        user_id: r.user_id,
        resource_id: r.resource_id,
        start_time: r.start_time,
        end_time: r.end_time,
        status: r.status,
        note: note,
    }
}

impl ReservationStore {
    /// The conditional transition pending → confirmed, keyed on the id: a
    /// single compare-and-swap, so that of two racing confirmations exactly
    /// one sees the pending state. A record that is absent, already
    /// confirmed, or cancelled yields `NotFound`.
    pub fn confirm(&mut self, id: i64) -> (r: Result<Reservation, Error>)
        requires
            old(self)@.wf(),
        ensures
            final(self)@.wf(),
            final(self)@.next_id == old(self)@.next_id,
            ({
                let i = find_idx(old(self)@.rows, id as int);
                match r {
                    Ok(updated) => {
                        &&& i >= 0
                        &&& old(self)@.rows[i].status == ReservationStatus::Pending.spec_code()
                        &&& updated@ == with_status(
                            old(self)@.rows[i],
                            ReservationStatus::Confirmed.spec_code(),
                        )
                        &&& final(self)@.rows == old(self)@.rows.update(i, updated@)
                    },
                    Err(e) => {
                        &&& e@ == ErrorView::NotFound
                        &&& final(self)@ == old(self)@
                        &&& (i < 0 || old(self)@.rows[i].status
                            != ReservationStatus::Pending.spec_code())
                    },
                }
            }),
    {
        let i = match self.position_of(id) {
            Some(i) => i,
            None => {
                return Err(Error::NotFound);
            },
        };
        if self.rows[i].status != ReservationStatus::Pending.code() {
            return Err(Error::NotFound);
        }
        self.rows[i].status = ReservationStatus::Confirmed.code();
        let out = self.rows[i].clone();
        proof {
            let orows = old(self)@.rows;
            let nrows = self@.rows;
            let ii = i as int;
            assert(nrows =~= orows.update(ii, out@));
            assert forall|a: int| 0 <= a < nrows.len() implies (#[trigger] nrows[a]).valid() by {
                if a != ii {
                    assert(orows[a].valid());
                } else {
                    assert(orows[ii].valid());
                }
            }
            assert forall|a: int, b: int|
                0 <= a < nrows.len() && 0 <= b < nrows.len() && a != b implies !active_conflict(
                #[trigger] nrows[a],
                #[trigger] nrows[b],
            ) by {
                assert(!active_conflict(orows[a], orows[b]));
                assert(nrows[ii].active() == orows[ii].active());
            }
        }
        Ok(out)
    }

    /// Unconditional note replacement, keyed on the id; `NotFound` where the
    /// id is absent.
    pub fn update_note(&mut self, id: i64, note: String) -> (r: Result<Reservation, Error>)
        requires
            old(self)@.wf(),
        ensures
            final(self)@.wf(),
            final(self)@.next_id == old(self)@.next_id,
            ({
                let i = find_idx(old(self)@.rows, id as int);
                match r {
                    Ok(updated) => {
                        &&& i >= 0
                        &&& updated@ == with_note(old(self)@.rows[i], note@)
                        &&& final(self)@.rows == old(self)@.rows.update(i, updated@)
                    },
                    Err(e) => {
                        &&& e@ == ErrorView::NotFound
                        &&& final(self)@ == old(self)@
                        &&& i < 0
                    },
                }
            }),
    {
        let i = match self.position_of(id) {
            Some(i) => i,
            None => {
                return Err(Error::NotFound);
            },
        };
        self.rows[i].note = note;
        let out = self.rows[i].clone();
        proof {
            let orows = old(self)@.rows;
            let nrows = self@.rows;
            let ii = i as int;
            assert(nrows =~= orows.update(ii, out@));
            assert forall|a: int| 0 <= a < nrows.len() implies (#[trigger] nrows[a]).valid() by {
                if a != ii {
                    assert(orows[a].valid());
                } else {
                    assert(orows[ii].valid());
                }
            }
            assert forall|a: int, b: int|
                0 <= a < nrows.len() && 0 <= b < nrows.len() && a != b implies !active_conflict(
                #[trigger] nrows[a],
                #[trigger] nrows[b],
            ) by {
                assert(!active_conflict(orows[a], orows[b]));
                assert(nrows[ii].active() == orows[ii].active());
            }
        }
        Ok(out)
    }

    /// Marks the record inactive, keyed on the id: its status becomes
    /// cancelled, a terminal state that no longer takes part in overlap
    /// exclusion. `NotFound` where the id is absent.
    pub fn cancel(&mut self, id: i64) -> (r: Result<(), Error>)
        requires
            old(self)@.wf(),
        ensures
            final(self)@.wf(),
            final(self)@.next_id == old(self)@.next_id,
            ({
                let i = find_idx(old(self)@.rows, id as int);
                match r {
                    Ok(()) => {
                        &&& i >= 0
                        &&& final(self)@.rows == old(self)@.rows.update(
                            i,
                            with_status(
                                old(self)@.rows[i],
                                ReservationStatus::Cancelled.spec_code(),
                            ),
                        )
                    },
                    Err(e) => {
                        &&& e@ == ErrorView::NotFound
                        &&& final(self)@ == old(self)@
                        &&& i < 0
                    },
                }
            }),
    {
        let i = match self.position_of(id) {
            Some(i) => i,
            None => {
                return Err(Error::NotFound);
            },
        };
        self.rows[i].status = ReservationStatus::Cancelled.code();
        proof {
            let orows = old(self)@.rows;
            let nrows = self@.rows;
            let ii = i as int;
            assert(nrows =~= orows.update(
                ii,
                with_status(orows[ii], ReservationStatus::Cancelled.spec_code()),
            ));
            assert forall|a: int| 0 <= a < nrows.len() implies (#[trigger] nrows[a]).valid() by {
                if a != ii {
                    assert(orows[a].valid());
                } else {
                    assert(orows[ii].valid());
                }
            }
            assert forall|a: int, b: int|
                0 <= a < nrows.len() && 0 <= b < nrows.len() && a != b implies !active_conflict(
                #[trigger] nrows[a],
                #[trigger] nrows[b],
            ) by {
                assert(!active_conflict(orows[a], orows[b]));
                assert(!nrows[ii].active());
            }
        }
        Ok(())
    }
}

/// The status a search asks for: one of the four codes as given, anything
/// else read as pending.
pub open spec fn normalize_status(s: int) -> int {
    if 0 <= s <= 3 {
        s
    } else {
        ReservationStatus::Pending.spec_code()
    }
}

/// A record answers a range query when user and resource match (an empty
/// string filters nothing), the status equals the normalized requested one,
/// and the record's window intersects the requested half-open range.
pub open spec fn query_matches(r: ReservationView, q: QueryView) -> bool {
    &&& (q.user_id.len() == 0 || r.user_id == q.user_id)
    &&& (q.resource_id.len() == 0 || r.resource_id == q.resource_id)
    &&& r.status == normalize_status(q.status)
    &&& spec_windows_overlap(r.start_time->0, r.end_time->0, q.start->0, q.end->0)
}

/// The records answering a query, in stored (id-ascending) order.
pub open spec fn query_filter(rows: Seq<ReservationView>, q: QueryView) -> Seq<ReservationView>
    decreases rows.len(),
{
    if rows.len() == 0 {
        Seq::empty()
    } else {
        let rest = query_filter(rows.drop_last(), q);
        if query_matches(rows.last(), q) {
            rest.push(rows.last())
        } else {
            rest
        }
    }
}

pub open spec fn spec_min(a: int, b: int) -> int {
    if a <= b {
        a
    } else {
        b
    }
}

/// The requested page of an ordered result: entries are skipped page by
/// page, and at most `size` are kept.
pub open spec fn page_of(s: Seq<ReservationView>, page: int, size: int) -> Seq<ReservationView>
    recommends
        page >= 1,
        size >= 1,
{
    let skip = (page - 1) * size;
    if skip >= s.len() {
        Seq::empty()
    } else {
        s.subrange(skip, spec_min(skip + size, s.len() as int))
    }
}

/// Query results ordered by id, ascending or descending per the flag.
pub open spec fn ordered_matches(rows: Seq<ReservationView>, q: QueryView) -> Seq<ReservationView> {
    if q.desc {
        query_filter(rows, q).reverse()
    } else {
        query_filter(rows, q)
    }
}

/// What a query returns: its time range must be present and ordered, its
/// page and page size at least one; then the matching records, ordered and
/// sliced to the requested page.
pub open spec fn spec_query(rows: Seq<ReservationView>, q: QueryView) -> Result<
    Seq<ReservationView>,
    ErrorView,
> {
    if q.spec_validation_error() is Some {
        Err(ErrorView::InvalidTime)
    } else if q.page_size < 1 {
        Err(ErrorView::InvalidPageSize(q.page_size))
    } else if q.page < 1 {
        Err(ErrorView::InvalidPageSize(q.page))
    } else {
        Ok(page_of(ordered_matches(rows, q), q.page, q.page_size))
    }
}

fn matches_query(row: &Reservation, q: &ReservationQuery, qstart: i64, qend: i64) -> (r: bool)
    requires
        row@.valid(),
        q@.start == Some(qstart as int),
        q@.end == Some(qend as int),
    ensures
        r == query_matches(row@, q@),
{
    let want: i32 = match ReservationStatus::from_i32(q.status) {
        Some(s) => s.code(),
        None => ReservationStatus::Pending.code(),
    };
    proof {
        assert(want as int == normalize_status(q@.status));
    }
    if row.status != want {
        return false;
    }
    if !q.user_id.as_str().is_empty() && !str_eq(row.user_id.as_str(), q.user_id.as_str()) {
        return false;
    }
    if !q.resource_id.as_str().is_empty() && !str_eq(
        row.resource_id.as_str(),
        q.resource_id.as_str(),
    ) {
        return false;
    }
    let rs = match row.start_time {
        Some(t) => t,
        None => {
            proof {
                assert(false);
            }
            return false;
        },
    };
    let re = match row.end_time {
        Some(t) => t,
        None => {
            proof {
                assert(false);
            }
            return false;
        },
    };
    rs < qend && qstart < re
}

/// The records in the opposite order.
fn reverse_rows(v: Vec<Reservation>) -> (r: Vec<Reservation>)
    ensures
        r@.map_values(|x: Reservation| x@) == v@.map_values(|x: Reservation| x@).reverse(),
{
    let mut out: Vec<Reservation> = Vec::new();
    let mut i: usize = v.len();
    while i > 0
        invariant
            i <= v@.len(),
            out@.len() == v@.len() - i,
            forall|j: int| 0 <= j < out@.len() ==> (#[trigger] out@[j])@ == v@[v@.len() - 1 - j]@,
        decreases i,
    {
        i -= 1;
        out.push(v[i].clone());
    }
    proof {
        assert(out@.map_values(|x: Reservation| x@) =~= v@.map_values(
            |x: Reservation| x@,
        ).reverse());
    }
    out
}

/// Copies the records `[from, to)`.
fn slice_clone(v: &Vec<Reservation>, from: usize, to: usize) -> (r: Vec<Reservation>)
    requires
        from <= to <= v@.len(),
    ensures
        r@.map_values(|x: Reservation| x@) == v@.map_values(|x: Reservation| x@).subrange(
            from as int,
            to as int,
        ),
{
    let mut out: Vec<Reservation> = Vec::new();
    let mut i: usize = from;
    while i < to
        invariant
            from <= i <= to <= v@.len(),
            out@.len() == i - from,
            forall|j: int| 0 <= j < out@.len() ==> (#[trigger] out@[j])@ == v@[from + j]@,
        decreases to - i,
    {
        out.push(v[i].clone());
        i += 1;
    }
    proof {
        assert(out@.map_values(|x: Reservation| x@) =~= v@.map_values(
            |x: Reservation| x@,
        ).subrange(from as int, to as int));
    }
    out
}

impl ReservationStore {
    /// Range-based search: the records whose user and resource match the
    /// (optionally wildcarded) query, whose status equals the requested one,
    /// and whose window intersects the requested range, ordered by id
    /// ascending or descending per the flag and sliced to the requested
    /// page. A missing or ill-ordered range, or a page or page size below
    /// one, is refused.
    pub fn query(&self, q: &ReservationQuery) -> (r: Result<Vec<Reservation>, Error>)
        requires
            self@.wf(),
        ensures
            match r {
                Ok(list) => spec_query(self@.rows, q@) == Ok::<Seq<ReservationView>, ErrorView>(
                    list@.map_values(|x: Reservation| x@),
                ),
                Err(e) => spec_query(self@.rows, q@) == Err::<Seq<ReservationView>, ErrorView>(e@),
            },
    {
        match q.validate() {
            Err(e) => {
                return Err(e);
            },
            Ok(()) => {},
        }
        if q.page_size < 1 {
            return Err(Error::InvalidPageSize(q.page_size));
        }
        if q.page < 1 {
            return Err(Error::InvalidPageSize(q.page));
        }
        let qstart = match q.start {
            Some(t) => t,
            None => {
                proof {
                    assert(false);
                }
                return Err(Error::InvalidTime);
            },
        };
        let qend = match q.end {
            Some(t) => t,
            None => {
                proof {
                    assert(false);
                }
                return Err(Error::InvalidTime);
            },
        };
        let n: usize = self.rows.len();
        let mut matched: Vec<Reservation> = Vec::new();
        let mut i: usize = 0;
        while i < n
            invariant
                i <= n,
                n == self@.rows.len(),
                self@.wf(),
                q@.start == Some(qstart as int),
                q@.end == Some(qend as int),
                matched@.map_values(|x: Reservation| x@) == query_filter(
                    self@.rows.take(i as int),
                    q@,
                ),
            decreases n - i,
        {
            proof {
                assert(self@.rows.take(i + 1).drop_last() =~= self@.rows.take(i as int));
                assert(self@.rows.take(i + 1).last() == self@.rows[i as int]);
                assert(self@.rows[i as int].valid());
            }
            if matches_query(&self.rows[i], q, qstart, qend) {
                proof {
                    assert((matched@.push(self.rows[i as int])).map_values(|x: Reservation| x@)
                        =~= matched@.map_values(|x: Reservation| x@).push(self@.rows[i as int]));
                }
                matched.push(self.rows[i].clone());
            }
            i += 1;
        }
        proof {
            assert(self@.rows.take(n as int) =~= self@.rows);
        }
        let ordered = if q.desc {
            reverse_rows(matched)
        } else {
            matched
        };
        let total: usize = ordered.len();
        proof {
            assert((q@.page - 1) * q@.page_size < 0x40000000000000000000000000000000) by (nonlinear_arith)
                requires
                    1 <= q@.page < 0x8000000000000000,
                    1 <= q@.page_size < 0x8000000000000000,
            ;
        }
        let skip128: u128 = (q.page as u128 - 1) * (q.page_size as u128);
        if skip128 >= total as u128 {
            let empty: Vec<Reservation> = Vec::new();
            proof {
                assert(empty@.map_values(|x: Reservation| x@) =~= Seq::<ReservationView>::empty());
            }
            return Ok(empty);
        }
        let skip = skip128 as usize;
        let end128: u128 = skip128 + (q.page_size as u128);
        let end: usize = if end128 >= total as u128 {
            total
        } else {
            end128 as usize
        };
        let page = slice_clone(&ordered, skip, end);
        Ok(page)
    }
}

/// A record answers a cursor filter when user, resource and status match;
/// the cursor and ordering decide which of these are listed.
pub open spec fn filter_matches(r: ReservationView, f: FilterView) -> bool {
    &&& (f.user_id.len() == 0 || r.user_id == f.user_id)
    &&& (f.resource_id.len() == 0 || r.resource_id == f.resource_id)
    &&& r.status == normalize_status(f.status)
}

/// A cursor of zero is no boundary; otherwise only ids beyond the cursor in
/// the listing direction are admitted.
pub open spec fn cursor_admits(r: ReservationView, f: FilterView) -> bool {
    f.cursor <= 0 || (if f.desc {
        r.id < f.cursor
    } else {
        r.id > f.cursor
    })
}

/// All records matching the filter, cursor boundary ignored: what the
/// pager's total counts.
pub open spec fn filter_all(rows: Seq<ReservationView>, f: FilterView) -> Seq<ReservationView>
    decreases rows.len(),
{
    if rows.len() == 0 {
        Seq::empty()
    } else {
        let rest = filter_all(rows.drop_last(), f);
        if filter_matches(rows.last(), f) {
            rest.push(rows.last())
        } else {
            rest
        }
    }
}

/// The records matching the filter and admitted by the cursor, in stored
/// (id-ascending) order.
pub open spec fn filter_eligible(rows: Seq<ReservationView>, f: FilterView) -> Seq<ReservationView>
    decreases rows.len(),
{
    if rows.len() == 0 {
        Seq::empty()
    } else {
        let rest = filter_eligible(rows.drop_last(), f);
        if filter_matches(rows.last(), f) && cursor_admits(rows.last(), f) {
            rest.push(rows.last())
        } else {
            rest
        }
    }
}

/// The page a filter returns: the eligible records ordered by id per the
/// flag, cut to the page size.
pub open spec fn spec_filter_page(rows: Seq<ReservationView>, f: FilterView) -> Seq<
    ReservationView,
> {
    let el = filter_eligible(rows, f);
    let ord = if f.desc {
        el.reverse()
    } else {
        el
    };
    ord.take(spec_min(f.page_size, ord.len() as int))
}

/// The pager beside a returned page: the first and last id of the page (none
/// on an empty page) and the count of all records matching the filter.
pub open spec fn spec_filter_pager(rows: Seq<ReservationView>, f: FilterView) -> PagerView {
    let page = spec_filter_page(rows, f);
    PagerView {
        prev: if page.len() > 0 {
            Some(page[0].id)
        } else {
            None
        },
        next: if page.len() > 0 {
            Some(page.last().id)
        } else {
            None
        },
        total: Some(filter_all(rows, f).len() as int),
    }
}

fn matches_filter(row: &Reservation, f: &ReservationFilter) -> (r: bool)
    ensures
        r == filter_matches(row@, f@),
{
    let want: i32 = match ReservationStatus::from_i32(f.status) {
        Some(s) => s.code(),
        None => ReservationStatus::Pending.code(),
    };
    proof {
        assert(want as int == normalize_status(f@.status));
    }
    if row.status != want {
        return false;
    }
    if !f.user_id.as_str().is_empty() && !str_eq(row.user_id.as_str(), f.user_id.as_str()) {
        return false;
    }
    if !f.resource_id.as_str().is_empty() && !str_eq(
        row.resource_id.as_str(),
        f.resource_id.as_str(),
    ) {
        return false;
    }
    true
}

impl ReservationStore {
    /// Keyset-paginated listing ordered by id, starting after (ascending) or
    /// before (descending) the cursor, bounded by the page size. Returns the
    /// page together with a pager holding the page's first and last id and
    /// the full matching count. A page size below one or a negative cursor
    /// is refused.
    pub fn filter(&self, f: &ReservationFilter) -> (r: Result<(FilterPager, Vec<Reservation>), Error>)
        requires
            self@.wf(),
        ensures
            match r {
                Ok(out) => {
                    &&& f@.page_size >= 1
                    &&& f@.cursor >= 0
                    &&& out.1@.map_values(|x: Reservation| x@) == spec_filter_page(self@.rows, f@)
                    &&& out.0@ == spec_filter_pager(self@.rows, f@)
                },
                Err(e) => match e@ {
                    ErrorView::InvalidPageSize(ps) => ps == f@.page_size && f@.page_size < 1,
                    ErrorView::InvalidCursor(c) => c == f@.cursor && f@.cursor < 0 && f@.page_size
                        >= 1,
                    _ => false,
                },
            },
    {
        if f.page_size < 1 {
            return Err(Error::InvalidPageSize(f.page_size));
        }
        if f.cursor < 0 {
            return Err(Error::InvalidCursor(f.cursor));
        }
        let n: usize = self.rows.len();
        let mut eligible: Vec<Reservation> = Vec::new();
        let mut count: usize = 0;
        let mut i: usize = 0;
        while i < n
            invariant
                i <= n,
                n == self@.rows.len(),
                self@.wf(),
                f@.cursor >= 0,
                count == filter_all(self@.rows.take(i as int), f@).len(),
                count <= i,
                eligible@.map_values(|x: Reservation| x@) == filter_eligible(
                    self@.rows.take(i as int),
                    f@,
                ),
            decreases n - i,
        {
            proof {
                assert(self@.rows.take(i + 1).drop_last() =~= self@.rows.take(i as int));
                assert(self@.rows.take(i + 1).last() == self@.rows[i as int]);
            }
            if matches_filter(&self.rows[i], f) {
                count += 1;
                let admitted = f.cursor == 0 || (if f.desc {
                    self.rows[i].id < f.cursor
                } else {
                    self.rows[i].id > f.cursor
                });
                if admitted {
                    proof {
                        assert((eligible@.push(self.rows[i as int])).map_values(
                            |x: Reservation| x@,
                        ) =~= eligible@.map_values(|x: Reservation| x@).push(
                            self@.rows[i as int],
                        ));
                    }
                    eligible.push(self.rows[i].clone());
                }
            }
            i += 1;
        }
        proof {
            assert(self@.rows.take(n as int) =~= self@.rows);
            lemma_row_count_bound(self@);
        }
        let ordered = if f.desc {
            reverse_rows(eligible)
        } else {
            eligible
        };
        let len: usize = ordered.len();
        let k: usize = if (f.page_size as u128) >= (len as u128) {
            len
        } else {
            f.page_size as usize
        };
        let page = slice_clone(&ordered, 0, k);
        proof {
            assert(page@.map_values(|x: Reservation| x@) =~= spec_filter_page(self@.rows, f@));
        }
        let prev = if page.len() > 0 {
            Some(page[0].id)
        } else {
            None
        };
        let next = if page.len() > 0 {
            Some(page[page.len() - 1].id)
        } else {
            None
        };
        let pager = FilterPager { prev, next, total: Some(count as i64) };
        Ok((pager, page))
    }
}

/// Two windows that touch at a single instant never collide: the half-open
/// semantics keep back-to-back reservations of one resource compatible.
pub proof fn lemma_touching_reservations_never_conflict(a: ReservationView, b: ReservationView)
    requires
        a.end_time->0 == b.start_time->0,
    ensures
        !a.overlaps(b),
        !active_conflict(a, b),
        !a.excludes(b),
{
}

/// The index found for an id depends on the ids alone.
pub proof fn lemma_find_idx_same_ids(a: Seq<ReservationView>, b: Seq<ReservationView>, id: int)
    requires
        a.len() == b.len(),
        forall|k: int| 0 <= k < a.len() ==> (#[trigger] a[k]).id == b[k].id,
    ensures
        find_idx(a, id) == find_idx(b, id),
    decreases a.len(),
{
    if a.len() != 0 {
        assert(a[0].id == b[0].id);
        assert forall|k: int| 0 <= k < a.drop_first().len() implies (
        #[trigger] a.drop_first()[k]).id == b.drop_first()[k].id by {
            assert(a[k + 1].id == b[k + 1].id);
        }
        lemma_find_idx_same_ids(a.drop_first(), b.drop_first(), id);
    }
}

/// A confirmation cannot be repeated: once the pending record has been
/// switched to confirmed, a second conditional confirmation of the same id
/// finds no pending record, so of two racing confirmations exactly one wins.
pub proof fn lemma_confirm_once(s: StoreView, id: int)
    requires
        s.wf(),
        find_idx(s.rows, id) >= 0,
        s.rows[find_idx(s.rows, id)].status == ReservationStatus::Pending.spec_code(),
    ensures
        ({
            let i = find_idx(s.rows, id);
            let after = s.rows.update(
                i,
                with_status(s.rows[i], ReservationStatus::Confirmed.spec_code()),
            );
            find_idx(after, id) == i && after[find_idx(after, id)].status
                != ReservationStatus::Pending.spec_code()
        }),
{
    let i = find_idx(s.rows, id);
    let after = s.rows.update(i, with_status(s.rows[i], ReservationStatus::Confirmed.spec_code()));
    lemma_find_idx(s.rows, id);
    lemma_find_idx_same_ids(s.rows, after, id);
}

} // verus!
