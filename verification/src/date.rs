//! Calendar dates of matches, read from their textual form.

use std::str::FromStr;
use vstd::prelude::*;

verus! {

/// The day on which a match is played.
#[derive(Clone, Copy, Debug, PartialEq, Eq, Structural)]
pub struct MatchDate {
    pub year: i32,
    pub month: u32,
    pub day: u32,
}

/// What `chrono` reads from a date text: year, month and day of the calendar
/// date it denotes, or `None` where it rejects the text.
pub uninterp spec fn calendar_date_of(text: Seq<char>) -> Option<(i32, u32, u32)>;

/// Calls `<chrono::NaiveDate as FromStr>::from_str` and takes the year, month
/// and day of the date it returns through `chrono::Datelike`. Unproved: the
/// result is a function of the text alone, and a date that was read has its
/// month between 1 and 12 and its day between 1 and 31.
#[verifier::external_body]
fn read_calendar_date(text: &str) -> (parts: Option<(i32, u32, u32)>)
    ensures
        parts == calendar_date_of(text@),
        parts matches Some(p) ==> 1 <= p.1 <= 12 && 1 <= p.2 <= 31,
{
    match chrono::NaiveDate::from_str(text) {
        Ok(d) => Some(
            (chrono::Datelike::year(&d), chrono::Datelike::month(&d), chrono::Datelike::day(&d)),
        ),
        Err(_) => None,
    }
}

impl MatchDate {
    /// Month and day lie in the ranges of the calendar.
    pub open spec fn well_formed(&self) -> bool {
        1 <= self.month <= 12 && 1 <= self.day <= 31
    }

    /// Tells whether month and day lie in the ranges of the calendar.
    pub fn is_well_formed(&self) -> (ok: bool)
        ensures
            ok == self.well_formed(),
    {
        1 <= self.month && self.month <= 12 && 1 <= self.day && self.day <= 31
    }

    /// The date made of the parts that were read, if any were.
    pub open spec fn spec_from_parts(parts: Option<(i32, u32, u32)>) -> Option<MatchDate> {
        match parts {
            Some(p) => Some(MatchDate { year: p.0, month: p.1, day: p.2 }),
            None => None,
        }
    }

    /// The date that a text denotes, if it denotes one.
    pub open spec fn spec_parse(text: Seq<char>) -> Option<MatchDate> {
        Self::spec_from_parts(calendar_date_of(text))
    }

    /// Builds the date from year, month and day as they were read.
    pub fn from_parts(parts: Option<(i32, u32, u32)>) -> (date: Option<MatchDate>)
        ensures
            date == Self::spec_from_parts(parts),
    {
        match parts {
            Some(p) => Some(MatchDate { year: p.0, month: p.1, day: p.2 }),
            None => None,
        }
    }

    /// Reads a date written as year, month and day with `-` between them.
    pub fn parse(text: &str) -> (date: Option<MatchDate>)
        ensures
            date == Self::spec_parse(text@),
            date matches Some(d) ==> d.well_formed(),
    {
        Self::from_parts(read_calendar_date(text))
    }
}

} // verus!
