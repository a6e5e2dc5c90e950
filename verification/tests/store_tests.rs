//! Tests of the store operations: create with conflict exclusion, the status
//! transitions, note edits, lookup, and the query and filter engines.

use rorder::{
    Error, Reservation, ReservationConflict, ReservationConflictInfo, ReservationFilter,
    ReservationQuery, ReservationStatus, ReservationStore, ReservationWindow,
};

/// UTC seconds of an instant written with a numeric offset.
fn ts(s: &str) -> i64 {
    chrono::DateTime::parse_from_str(s, "%Y-%m-%dT%H:%M:%S%z")
        .unwrap()
        .timestamp()
}

fn pending_query(user: &str, start: &str, end: &str, status: ReservationStatus) -> ReservationQuery {
    ReservationQuery {
        user_id: user.to_string(),
        resource_id: String::new(),
        start: Some(ts(start)),
        end: Some(ts(end)),
        status: status.code(),
        page: 1,
        page_size: 10,
        desc: false,
    }
}

fn make_alice_reservation(store: &mut ReservationStore) -> Reservation {
    let rsvp = Reservation::new_pending(
        "aliceid",
        "ixia-test-1",
        ts("2023-01-25T15:00:00-0700"),
        ts("2023-02-25T12:00:00-0700"),
        "I need to book this for xyz project for a month.",
    );
    store.create(&rsvp).unwrap()
}

#[test]
fn reservation_should_be_work() {
    let mut store = ReservationStore::new();
    let start = ts("2022-11-01T15:00:00+0800");
    let end = ts("2022-11-07T12:00:00+0800");
    let rsvp = Reservation::new_pending(
        "tosei",
        "ocean roon-745",
        start,
        end,
        "please check the room for me",
    );
    let rsvp = store.create(&rsvp).unwrap();
    assert!(rsvp.id != 0);
}

#[test]
fn reservation_should_be_conflict() {
    let mut store = ReservationStore::new();
    let rsvp1 = Reservation::new_pending(
        "tosei",
        "ocean roon-745",
        ts("2022-11-01T15:00:00+0800"),
        ts("2022-11-07T12:00:00+0800"),
        "please check the room for me",
    );
    let rsvp2 = Reservation::new_pending(
        "wxy",
        "ocean roon-745",
        ts("2022-11-04T15:00:00+0800"),
        ts("2022-11-08T12:00:00+0800"),
        "love this room",
    );
    let _rsvp1 = store.create(&rsvp1).unwrap();
    let error_rsvp2: Error = store.create(&rsvp2).unwrap_err();
    let info = ReservationConflictInfo::Parsed(ReservationConflict {
        a: ReservationWindow {
            rid: "ocean roon-745".to_string(),
            start: ts("2022-11-04T15:00:00+0800"),
            end: ts("2022-11-08T12:00:00+0800"),
        },
        b: ReservationWindow {
            rid: "ocean roon-745".to_string(),
            start: ts("2022-11-01T15:00:00+0800"),
            end: ts("2022-11-07T12:00:00+0800"),
        },
    });
    assert_eq!(error_rsvp2, Error::ConflictReservation(info));
}

#[test]
fn update_reservation_status_should_be_work() {
    let mut store = ReservationStore::new();
    let start = ts("2022-12-03T15:00:00+0800");
    let end = ts("2022-12-11T12:00:00+0800");
    let rsvp = Reservation::new_pending("tosei", "room-test-1", start, end, "book room");
    let rsvp = store.create(&rsvp).unwrap();
    let rsvp = store.confirm(rsvp.id).unwrap();
    assert_eq!(
        ReservationStatus::Confirmed,
        ReservationStatus::from_i32(rsvp.status).unwrap()
    );
}

#[test]
fn update_reservation_status_twice_should_not_be_work() {
    let mut store = ReservationStore::new();
    let start = ts("2022-12-03T15:00:00+0800");
    let end = ts("2022-12-11T12:00:00+0800");
    let rsvp = Reservation::new_pending("tosei", "room-test-1", start, end, "book room");
    let rsvp = store.create(&rsvp).unwrap();
    let rsvp = store.confirm(rsvp.id).unwrap();
    let err = store.confirm(rsvp.id).unwrap_err();
    assert_eq!(Error::NotFound, err);
}

#[test]
fn update_reservation_note_should_be_work() {
    let mut store = ReservationStore::new();
    let start = ts("2022-12-03T15:00:00+0800");
    let end = ts("2022-12-11T12:00:00+0800");
    let rsvp = Reservation::new_pending(
        "tosei",
        "room-test-1",
        start,
        end,
        "i love this room very much, please book this room for me",
    );
    let rsvp = store.create(&rsvp).unwrap();
    let rsvp = store
        .update_note(rsvp.id, "please cancel this room".into())
        .unwrap();
    assert_eq!("please cancel this room".to_string(), rsvp.note);
    assert_ne!(
        "i love this room very much, please book this room for me".to_string(),
        rsvp.note
    )
}

#[test]
fn cancel_reservation_should_be_work() {
    let mut store = ReservationStore::new();
    let start = ts("2022-12-03T15:00:00+0800");
    let end = ts("2022-12-11T12:00:00+0800");
    let rsvp = Reservation::new_pending(
        "tosei",
        "room-test-1",
        start,
        end,
        "i love this room very much, please book this room for me",
    );
    let rsvp = store.create(&rsvp).unwrap();
    store.cancel(rsvp.id).unwrap();
    let get_rsvp_info = store.get(rsvp.id).unwrap();
    assert_eq!(get_rsvp_info.status, ReservationStatus::Cancelled.code());
}

#[test]
fn get_reservation_should_be_work() {
    let mut store = ReservationStore::new();
    let start = ts("2022-12-03T15:00:00+0800");
    let end = ts("2022-12-11T12:00:00+0800");
    let rsvp = Reservation::new_pending(
        "tosei",
        "room-test-1",
        start,
        end,
        "i love this room very much, please book this room for me",
    );
    let rsvp = store.create(&rsvp).unwrap();
    let get_rsvp_info = store.get(rsvp.id).unwrap();
    assert_eq!(get_rsvp_info, rsvp);
}

#[test]
fn query_reservations_should_be_work() {
    let mut store = ReservationStore::new();
    let rsvp = make_alice_reservation(&mut store);

    let query = pending_query(
        "aliceid",
        "2021-10-01T15:00:00-0700",
        "2023-12-30T15:00:00-0700",
        ReservationStatus::Pending,
    );
    let rsvps = store.query(&query).unwrap();
    assert_eq!(1, rsvps.len());
    assert_eq!(rsvp, rsvps[0]);

    // a window outside the reservation returns nothing
    let query = pending_query(
        "aliceid",
        "2023-01-01T15:00:00-0700",
        "2023-02-01T15:00:00-0700",
        ReservationStatus::Confirmed,
    );
    let rsvps = store.query(&query).unwrap();
    assert_eq!(0, rsvps.len());

    // the right window but the wrong status returns nothing
    let query = pending_query(
        "aliceid",
        "2021-10-01T15:00:00-0700",
        "2023-12-30T15:00:00-0700",
        ReservationStatus::Confirmed,
    );
    let rsvps = store.query(&query).unwrap();
    assert_eq!(0, rsvps.len());

    // once confirmed, the same query finds it
    let rsvp = store.confirm(rsvp.id).unwrap();
    let rsvps = store.query(&query).unwrap();
    assert_eq!(1, rsvps.len());
    assert_eq!(rsvp, rsvps[0]);
}

#[test]
fn filter_reservations_should_be_work() {
    let mut store = ReservationStore::new();
    let rsvp = make_alice_reservation(&mut store);
    let filter = ReservationFilter {
        user_id: String::new(),
        resource_id: String::new(),
        status: ReservationStatus::Pending.code(),
        cursor: 0,
        desc: true,
        page_size: 10,
    };
    let (filter_page, rsvps) = store.filter(&filter).unwrap();
    assert_eq!(1, rsvps.len());
    assert_eq!(rsvp, rsvps[0]);
    assert_eq!(1, filter_page.prev.unwrap());
    assert_eq!(1, filter_page.next.unwrap());
}

#[test]
fn note_update_is_visible_through_get() {
    let mut store = ReservationStore::new();
    let rsvp = make_alice_reservation(&mut store);
    store.update_note(rsvp.id, "new note".to_string()).unwrap();
    assert_eq!(store.get(rsvp.id).unwrap().note, "new note");
}
