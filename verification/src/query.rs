//! Range-based search and cursor-based paginated listing: the query and
//! filter shapes, their validation, and the pager returned beside a filtered
//! page.

use vstd::prelude::*;

use crate::errors::{Error, ErrorView};
use crate::reservation::Validator;

verus! {

/// Range-based search: optional user and resource (an empty string is a
/// wildcard), a required half-open time range, a required status, 1-based
/// page selection, and the ordering flag.
#[derive(Debug)]
pub struct ReservationQuery {
    pub user_id: String,
    pub resource_id: String,
    pub start: Option<i64>,
    pub end: Option<i64>,
    pub status: i32,
    pub page: i64,
    pub page_size: i64,
    pub desc: bool,
}

pub struct QueryView {
    pub user_id: Seq<char>,
    pub resource_id: Seq<char>,
    pub start: Option<int>,
    pub end: Option<int>,
    pub status: int,
    pub page: int,
    pub page_size: int,
    pub desc: bool,
}

impl View for ReservationQuery {
    type V = QueryView;

    open spec fn view(&self) -> QueryView {
        QueryView {
            user_id: self.user_id@,
            resource_id: self.resource_id@,
            start: match self.start {
                Some(t) => Some(t as int),
                None => None,
            },
            end: match self.end {
                Some(t) => Some(t as int),
                None => None,
            },
            status: self.status as int,
            page: self.page as int,
            page_size: self.page_size as int,
            desc: self.desc,
        }
    }
}

impl QueryView {
    /// A query's time range must be present and well-ordered.
    pub open spec fn spec_validation_error(self) -> Option<ErrorView> {
        if self.start is None || self.end is None {
            Some(ErrorView::InvalidTime)
        } else if self.start->0 >= self.end->0 {
            Some(ErrorView::InvalidTime)
        } else {
            None
        }
    }

    pub open spec fn valid(self) -> bool {
        self.spec_validation_error() is None
    }
}

impl Validator for ReservationQuery {
    /// Checks that both ends of the range are present and strictly ordered.
    fn validate(&self) -> (r: Result<(), Error>)
        ensures
            match r {
                Ok(()) => self@.spec_validation_error() is None,
                Err(e) => self@.spec_validation_error() == Some(e@),
            },
    {
        match (self.start, self.end) {
            (Some(start), Some(end)) => {
                if start >= end {
                    Err(Error::InvalidTime)
                } else {
                    Ok(())
                }
            },
            _ => Err(Error::InvalidTime),
        }
    }
}

/// Cursor-based listing: optional user and resource (empty is a wildcard), a
/// status, the last-seen id boundary (0 for none), the ordering flag, and
/// the page bound.
#[derive(Debug)]
pub struct ReservationFilter {
    pub user_id: String,
    pub resource_id: String,
    pub status: i32,
    pub cursor: i64,
    pub desc: bool,
    pub page_size: i64,
}

pub struct FilterView {
    pub user_id: Seq<char>,
    pub resource_id: Seq<char>,
    pub status: int,
    pub cursor: int,
    pub desc: bool,
    pub page_size: int,
}

impl View for ReservationFilter {
    type V = FilterView;

    open spec fn view(&self) -> FilterView {
        FilterView {
            user_id: self.user_id@,
            resource_id: self.resource_id@,
            status: self.status as int,
            cursor: self.cursor as int,
            desc: self.desc,
            page_size: self.page_size as int,
        }
    }
}

/// The id boundaries of a returned page (`prev` the first id, `next` the
/// last, absent on an empty page) and the full matching count.
#[derive(Debug)]
pub struct FilterPager {
    pub prev: Option<i64>,
    pub next: Option<i64>,
    pub total: Option<i64>,
}

pub struct PagerView {
    pub prev: Option<int>,
    pub next: Option<int>,
    pub total: Option<int>,
}

impl View for FilterPager {
    type V = PagerView;

    open spec fn view(&self) -> PagerView {
        PagerView {
            prev: match self.prev {
                Some(t) => Some(t as int),
                None => None,
            },
            next: match self.next {
                Some(t) => Some(t as int),
                None => None,
            },
            total: match self.total {
                Some(t) => Some(t as int),
                None => None,
            },
        }
    }
}

/// An empty string stands for "no filter"; any other is the filter value.
pub fn str_to_option(s: &str) -> (r: Option<&str>)
    ensures
        match r {
            Some(t) => t@ == s@ && s@.len() > 0,
            None => s@.len() == 0,
        },
{
    if s.is_empty() {
        None
    } else {
        Some(s)
    }
}

} // verus!
