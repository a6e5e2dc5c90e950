//! The error taxonomy of the engine, the classification of storage-layer
//! failures into it, and the mapping onto transport-level status classes.

use vstd::prelude::*;

use crate::conflict::{spec_conflict_info_of, ConflictInfoView, ReservationConflictInfo};
use crate::strutil::str_eq;

verus! {

/// Every failure of the engine reaches the caller as one of these.
#[derive(Debug)]
pub enum Error {
    /// Any storage failure that is not an overlap violation or a missing row;
    /// carries the storage engine's own description.
    DbError(String),
    ConfigReadError,
    ConfigParseError,
    /// The storage engine rejected an insert because its window overlaps an
    /// active reservation of the same resource.
    ConflictReservation(ReservationConflictInfo),
    InvalidTime,
    InvalidUserId(String),
    InvalidResourceId(String),
    InvalidReservationId(String),
    InvalidPageSize(i64),
    InvalidCursor(i64),
    InvalidStatus(i32),
    NotFound,
    Unknown,
}

pub enum ErrorView {
    DbError(Seq<char>),
    ConfigReadError,
    ConfigParseError,
    ConflictReservation(ConflictInfoView),
    InvalidTime,
    InvalidUserId(Seq<char>),
    InvalidResourceId(Seq<char>),
    InvalidReservationId(Seq<char>),
    InvalidPageSize(int),
    InvalidCursor(int),
    InvalidStatus(int),
    NotFound,
    Unknown,
}

impl View for Error {
    type V = ErrorView;

    open spec fn view(&self) -> ErrorView {
        match self {
            Error::DbError(s) => ErrorView::DbError(s@),
            Error::ConfigReadError => ErrorView::ConfigReadError,
            Error::ConfigParseError => ErrorView::ConfigParseError,
            Error::ConflictReservation(i) => ErrorView::ConflictReservation(i@),
            Error::InvalidTime => ErrorView::InvalidTime,
            Error::InvalidUserId(s) => ErrorView::InvalidUserId(s@),
            Error::InvalidResourceId(s) => ErrorView::InvalidResourceId(s@),
            Error::InvalidReservationId(s) => ErrorView::InvalidReservationId(s@),
            Error::InvalidPageSize(n) => ErrorView::InvalidPageSize(*n as int),
            Error::InvalidCursor(n) => ErrorView::InvalidCursor(*n as int),
            Error::InvalidStatus(n) => ErrorView::InvalidStatus(*n as int),
            Error::NotFound => ErrorView::NotFound,
            Error::Unknown => ErrorView::Unknown,
        }
    }
}

/// What equality of two errors means: any two storage failures compare equal
/// (their descriptions are not part of the comparison), the variants that
/// carry data compare by it, and the remaining comparable variants by tag
/// alone; variants outside this list never compare equal.
pub open spec fn spec_error_eq(a: ErrorView, b: ErrorView) -> bool {
    match (a, b) {
        (ErrorView::DbError(_), ErrorView::DbError(_)) => true,
        (ErrorView::InvalidTime, ErrorView::InvalidTime) => true,
        (
            ErrorView::ConflictReservation(v1),
            ErrorView::ConflictReservation(v2),
        ) => v1 == v2,
        (ErrorView::NotFound, ErrorView::NotFound) => true,
        (ErrorView::InvalidResourceId(v1), ErrorView::InvalidResourceId(v2)) => v1 == v2,
        (ErrorView::InvalidUserId(v1), ErrorView::InvalidUserId(v2)) => v1 == v2,
        (ErrorView::Unknown, ErrorView::Unknown) => true,
        _ => false,
    }
}

impl PartialEq for Error {
    fn eq(&self, other: &Self) -> (r: bool) {
        match (self, other) {
            (Error::DbError(_), Error::DbError(_)) => true,
            (Error::InvalidTime, Error::InvalidTime) => true,
            (Error::ConflictReservation(v1), Error::ConflictReservation(v2)) => *v1 == *v2,
            (Error::NotFound, Error::NotFound) => true,
            (Error::InvalidResourceId(v1), Error::InvalidResourceId(v2)) => *v1 == *v2,
            (Error::InvalidUserId(v1), Error::InvalidUserId(v2)) => *v1 == *v2,
            (Error::Unknown, Error::Unknown) => true,
            _ => false,
        }
    }
}

impl vstd::std_specs::cmp::PartialEqSpecImpl for Error {
    open spec fn obeys_eq_spec() -> bool {
        true
    }

    open spec fn eq_spec(&self, other: &Self) -> bool {
        spec_error_eq(self@, other@)
    }
}

/// The transport-level status class an error is reported under.
#[derive(Clone, Copy, Debug, PartialEq, Eq, Structural)]
pub enum ErrorClass {
    Internal,
    InvalidArgument,
    FailedPrecondition,
    NotFound,
    Unknown,
}

pub open spec fn spec_class_of(e: ErrorView) -> ErrorClass {
    match e {
        ErrorView::DbError(_) => ErrorClass::Internal,
        ErrorView::ConfigReadError => ErrorClass::Internal,
        ErrorView::ConfigParseError => ErrorClass::Internal,
        ErrorView::InvalidTime => ErrorClass::InvalidArgument,
        ErrorView::InvalidReservationId(_) => ErrorClass::InvalidArgument,
        ErrorView::InvalidUserId(_) => ErrorClass::InvalidArgument,
        ErrorView::InvalidResourceId(_) => ErrorClass::InvalidArgument,
        ErrorView::InvalidPageSize(_) => ErrorClass::InvalidArgument,
        ErrorView::InvalidCursor(_) => ErrorClass::InvalidArgument,
        ErrorView::InvalidStatus(_) => ErrorClass::InvalidArgument,
        ErrorView::ConflictReservation(_) => ErrorClass::FailedPrecondition,
        ErrorView::NotFound => ErrorClass::NotFound,
        ErrorView::Unknown => ErrorClass::Unknown,
    }
}

impl Error {
    /// The status class the transport collaborator reports this error under:
    /// storage and configuration failures are internal, rejected input is an
    /// invalid argument, an overlap violation is a failed precondition.
    pub fn class(&self) -> (r: ErrorClass)
        ensures
            r == spec_class_of(self@),
    {
        match self {
            Error::DbError(_) => ErrorClass::Internal,
            Error::ConfigReadError => ErrorClass::Internal,
            Error::ConfigParseError => ErrorClass::Internal,
            Error::InvalidTime => ErrorClass::InvalidArgument,
            Error::InvalidReservationId(_) => ErrorClass::InvalidArgument,
            Error::InvalidUserId(_) => ErrorClass::InvalidArgument,
            Error::InvalidResourceId(_) => ErrorClass::InvalidArgument,
            Error::InvalidPageSize(_) => ErrorClass::InvalidArgument,
            Error::InvalidCursor(_) => ErrorClass::InvalidArgument,
            Error::InvalidStatus(_) => ErrorClass::InvalidArgument,
            Error::ConflictReservation(_) => ErrorClass::FailedPrecondition,
            Error::NotFound => ErrorClass::NotFound,
            Error::Unknown => ErrorClass::Unknown,
        }
    }
}

pub open spec fn opt_str_view(o: Option<&str>) -> Option<Seq<char>> {
    match o {
        Some(s) => Some(s@),
        None => None,
    }
}

/// How a storage-layer failure is read: the overlap-exclusion violation is
/// recognised by its code, schema and table, and its diagnostic is parsed
/// into a structured conflict; everything else is a generic storage error
/// carrying the engine's own message.
pub open spec fn spec_classify_db_error(
    code: Seq<char>,
    schema: Option<Seq<char>>,
    table: Option<Seq<char>>,
    detail: Seq<char>,
    message: Seq<char>,
) -> ErrorView {
    if code == "23P01"@ && schema == Some("rsvt"@) && table == Some("reservations"@) {
        ErrorView::ConflictReservation(spec_conflict_info_of(detail))
    } else {
        ErrorView::DbError(message)
    }
}

/// Classifies a storage failure by its code, schema and table: the range
/// exclusion constraint's violation becomes a conflict whose detail message
/// is parsed, anything else a generic storage error.
pub fn classify_db_error(
    code: &str,
    schema: Option<&str>,
    table: Option<&str>,
    detail: &str,
    message: &str,
) -> (r: Error)
    ensures
        r@ == spec_classify_db_error(
            code@,
            opt_str_view(schema),
            opt_str_view(table),
            detail@,
            message@,
        ),
{
    let schema_ok = match schema {
        Some(s) => str_eq(s, "rsvt"),
        None => false,
    };
    let table_ok = match table {
        Some(s) => str_eq(s, "reservations"),
        None => false,
    };
    if str_eq(code, "23P01") && schema_ok && table_ok {
        Error::ConflictReservation(ReservationConflictInfo::from_message(detail))
    } else {
        Error::DbError(message.to_owned())
    }
}

} // verus!
