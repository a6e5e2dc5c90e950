//! Tests of the conflict-diagnostic parser: locating the two key/value
//! groups, reading one group as a window, and assembling the full conflict.

use rorder::conflict::{KvGroup, ParsedInfo};
use rorder::datetime::parse_datetime;
use rorder::{ReservationConflict, ReservationWindow};

const ERR_MSG: &str = "Key (resource_id, rperiod)=(ocean roon-745, [\"2022-11-04 07:00:00+00\",
    \"2022-11-08 04:00:00+00\")) conflicts with existing key (resource_id, rperiod)=(ocean roon-745,
        [\"2022-11-01 07:00:00+00\",\"2022-11-07 04:00:00+00\"))";

#[test]
fn parse_datatime_should_work() {
    let dt = parse_datetime("2022-11-04 07:00:00+00").unwrap();
    let expected = chrono::DateTime::parse_from_rfc3339("2022-11-04T07:00:00+00:00")
        .unwrap()
        .timestamp();
    assert_eq!(dt, expected);
}

#[test]
fn get_regex_content() {
    let result: ParsedInfo = ParsedInfo::parse(ERR_MSG).unwrap();
    assert_eq!(
        result.a.get("resource_id").unwrap(),
        "ocean roon-745".to_string()
    );
}

#[test]
fn hash_map_to_reservation_window_should_work() {
    let group = KvGroup {
        k1: "resource_id".to_string(),
        v1: "ocean roon-745".to_string(),
        k2: "rperiod".to_string(),
        v2: "[\"2022-11-04 07:00:00+00\",\"2022-11-08 04:00:00+00\"".to_string(),
    };
    let reservation_window: ReservationWindow = ReservationWindow::from_group(&group).unwrap();
    assert_eq!("ocean roon-745", reservation_window.rid);
    let start = parse_datetime("2022-11-04 07:00:00+00").unwrap();
    assert_eq!(start, reservation_window.start);
    let end = parse_datetime("2022-11-08 04:00:00+00").unwrap();
    assert_eq!(end, reservation_window.end);
}

#[test]
fn conflict_error_message_should_parse() {
    let result: ParsedInfo = ParsedInfo::parse(ERR_MSG).unwrap();
    println!("result is : {:?}", result);
    let reservation_conflict: ReservationConflict =
        ReservationConflict::from_parsed(&result).unwrap();
    assert_eq!("ocean roon-745", reservation_conflict.a.rid);
    assert_eq!(
        parse_datetime("2022-11-04 07:00:00+00").unwrap(),
        reservation_conflict.a.start
    );
    assert_eq!(
        parse_datetime("2022-11-08 04:00:00+00").unwrap(),
        reservation_conflict.a.end
    );
    assert_eq!("ocean roon-745", reservation_conflict.b.rid);
    assert_eq!(
        parse_datetime("2022-11-01 07:00:00+00").unwrap(),
        reservation_conflict.b.start
    );
    assert_eq!(
        parse_datetime("2022-11-07 04:00:00+00").unwrap(),
        reservation_conflict.b.end
    );
}

#[test]
fn whole_message_parses_to_structured_conflict() {
    let info = rorder::ReservationConflictInfo::from_message(ERR_MSG);
    match info {
        rorder::ReservationConflictInfo::Parsed(c) => {
            assert_eq!(c.a.rid, "ocean roon-745");
            assert_eq!(c.b.rid, "ocean roon-745");
        }
        rorder::ReservationConflictInfo::Unparsed(_) => panic!("expected a parsed conflict"),
    }
}

#[test]
fn drifted_message_degrades_to_unparsed() {
    let msg = "duplicate key value violates unique constraint";
    let info = rorder::ReservationConflictInfo::from_message(msg);
    match info {
        rorder::ReservationConflictInfo::Unparsed(raw) => assert_eq!(raw, msg.to_string()),
        rorder::ReservationConflictInfo::Parsed(_) => panic!("expected the raw message"),
    }
}

#[test]
fn one_group_is_not_a_conflict_message() {
    let msg = "Key (resource_id, rperiod)=(room-a, [\"2022-11-04 07:00:00+00\",\"2022-11-08 04:00:00+00\"))";
    assert!(ParsedInfo::parse(msg).is_err());
    assert!(matches!(
        rorder::ReservationConflictInfo::from_message(msg),
        rorder::ReservationConflictInfo::Unparsed(_)
    ));
}

#[test]
fn three_groups_are_not_a_conflict_message() {
    let one = "(resource_id, rperiod)=(room-a, [\"2022-11-04 07:00:00+00\",\"2022-11-08 04:00:00+00\"))";
    let msg = format!("{} {} {}", one, one, one);
    assert!(ParsedInfo::parse(&msg).is_err());
}
