use vstd::prelude::*;

verus! {

/// A position as the geocoder wrote it, in decimal degrees.
#[derive(Clone, Debug, PartialEq, Eq)]
pub struct Coordinate {
    pub latitude: String,
    pub longitude: String,
}

/// A library branch, with an id of the form `<resolver id>:<backend id>`.
#[derive(Clone, Debug, PartialEq, Eq)]
pub struct Library {
    pub id: String,
    pub name: String,
    pub coordinate: Option<Coordinate>,
}

#[derive(Clone, Copy, Debug, PartialEq, Eq)]
pub struct Date {
    pub year: i32,
    pub month: i32,
    pub day: i32,
}

#[derive(Clone, Copy, Debug, PartialEq, Eq)]
pub struct TimeOfDay {
    pub hours: i32,
    pub minutes: i32,
    pub seconds: i32,
}

/// A possibly partial timestamp.
#[derive(Clone, Copy, Debug, PartialEq, Eq)]
pub struct DateTime {
    pub date: Option<Date>,
    pub time: Option<TimeOfDay>,
}

#[derive(Clone, Debug, PartialEq, Eq)]
pub struct Book {
    pub isbn: String,
    pub title: String,
    pub author: Option<String>,
    pub publisher: Option<String>,
    pub description: Option<String>,
    pub publish_date: Option<Date>,
}

/// Whether a copy can be borrowed now.
#[derive(Clone, Debug, PartialEq, Eq)]
pub enum HoldingState {
    Available { detail: Option<String>, available_count: Option<u32> },
    OnLoan { detail: Option<String>, due: Option<DateTime> },
    Unavailable { detail: Option<String> },
}

#[derive(Clone, Debug, PartialEq, Eq)]
pub struct HoldingStatus {
    pub is_requested: Option<bool>,
    pub requests: Option<u32>,
    pub requests_available: Option<bool>,
    pub state: Option<HoldingState>,
}

/// A copy of a book at one library branch.
#[derive(Clone, Debug, PartialEq, Eq)]
pub struct HoldingSummary {
    pub library_id: String,
    pub location: Option<String>,
    pub call_number: Option<String>,
    pub status: Option<HoldingStatus>,
}

/// One result row of one backend.
#[derive(Clone, Debug, PartialEq, Eq)]
pub struct SearchEntity {
    pub book: Option<Book>,
    pub holding_summaries: Vec<HoldingSummary>,
    pub url: String,
}

/// One resolver's batch of matches.
#[derive(Clone, Debug, PartialEq, Eq)]
pub struct SearchResponse {
    pub entities: Vec<SearchEntity>,
}

/// Why a resolver contributed nothing.
#[derive(Clone, Debug, PartialEq, Eq)]
pub enum ResolverError {
    Unavailable { msg: String },
    DeadlineExceeded,
}

/// A copy of `c` with the same text.
pub fn copy_coordinate(c: &Coordinate) -> (r: Coordinate)
    ensures
        r == *c,
{
    Coordinate { latitude: c.latitude.clone(), longitude: c.longitude.clone() }
}

} // verus!
