//! Calendar dates: the `YYYY.M.D` literal of the metadata, the order of dates,
//! and the two texts a date is shown as.

use chrono::Datelike;
use chrono::NaiveDate;
use std::fmt::Write;
use vstd::prelude::*;
use crate::error::{ParseError, ParseErrorView};
use crate::text::text_view;

verus! {

/// A calendar date, held as its year, month and day.
#[derive(Clone, Copy, Debug, PartialEq, Eq, Structural)]
pub struct Date {
    pub year: i32,
    pub month: u32,
    pub day: u32,
}

impl Date {
    /// The month and the day lie in the ranges of a calendar.
    pub open spec fn well_formed(&self) -> bool {
        &&& 1 <= self.month <= 12
        &&& 1 <= self.day <= 31
    }

    /// The date as a triple of integers.
    pub open spec fn ymd(&self) -> (int, int, int) {
        (self.year as int, self.month as int, self.day as int)
    }

    /// `self` is strictly earlier than `other`.
    pub open spec fn precedes(&self, other: Date) -> bool {
        ||| self.year < other.year
        ||| self.year == other.year && self.month < other.month
        ||| self.year == other.year && self.month == other.month && self.day < other.day
    }

    /// Tells whether `self` is strictly earlier than `other`.
    pub fn is_before(&self, other: &Date) -> (b: bool)
        ensures
            b == self.precedes(*other),
    {
        self.year < other.year || (self.year == other.year && (self.month < other.month || (
        self.month == other.month && self.day < other.day)))
    }

    /// The long form shown to readers, such as `Tuesday, August 29, 2023`;
    /// `None` when the fields name no day of the calendar.
    pub fn display(&self) -> (r: Option<String>)
        ensures
            text_view(r) == formatted_date(self.ymd().0, self.ymd().1, self.ymd().2, DISPLAY_FORMAT@),
    {
        chrono_format(self, DISPLAY_FORMAT)
    }

    /// The machine-readable timestamp of the day's start, such as
    /// `2023-08-29T00:00:00.000Z`; `None` when the fields name no day of the
    /// calendar.
    pub fn timestamp(&self) -> (r: Option<String>)
        ensures
            text_view(r) == formatted_date(
                self.ymd().0,
                self.ymd().1,
                self.ymd().2,
                TIMESTAMP_FORMAT@,
            ),
    {
        chrono_format(self, TIMESTAMP_FORMAT)
    }
}

/// The pattern of a date literal in metadata.
pub const DATE_FORMAT: &'static str = "%Y.%m.%d";

/// The pattern of the long form of a date.
pub const DISPLAY_FORMAT: &'static str = "%A, %B %-d, %Y";

/// The pattern of the timestamp of a date.
pub const TIMESTAMP_FORMAT: &'static str = "%Y-%m-%dT00:00:00.000Z";

/// The triple of an optional date.
pub open spec fn ymd_of(d: Option<Date>) -> Option<(int, int, int)> {
    match d {
        Some(d) => Some(d.ymd()),
        None => None,
    }
}

/// The sort key `a` is strictly earlier than the sort key `b`. An absent date
/// is earlier than every date.
pub open spec fn key_precedes(a: Option<Date>, b: Option<Date>) -> bool {
    match (a, b) {
        (None, Some(_)) => true,
        (Some(x), Some(y)) => x.precedes(y),
        _ => false,
    }
}

/// Tells whether the sort key `a` is strictly earlier than `b`.
pub fn key_is_before(a: &Option<Date>, b: &Option<Date>) -> (r: bool)
    ensures
        r == key_precedes(*a, *b),
{
    match (a, b) {
        (None, Some(_)) => true,
        (Some(x), Some(y)) => x.is_before(y),
        _ => false,
    }
}

/// The year, month and day that chrono reads from `text` under the strftime
/// pattern `format`, or `None` where it rejects the text.
pub uninterp spec fn parsed_ymd(text: Seq<char>, format: Seq<char>) -> Option<(int, int, int)>;

/// The text that chrono writes for the given day under the strftime pattern
/// `format`, or `None` where there is no such day or the pattern is invalid.
pub uninterp spec fn formatted_date(year: int, month: int, day: int, format: Seq<char>) -> Option<
    Seq<char>,
>;

/// Calls `chrono::NaiveDate::parse_from_str` and reads the year, month and
/// day of the date it returns. Trusted: the outcome is a function of the two
/// texts, and chrono's getters give a month from 1 to 12 and a day from 1 to 31.
#[verifier::external_body]
fn chrono_parse(text: &str, format: &str) -> (r: Option<Date>)
    ensures
        ymd_of(r) == parsed_ymd(text@, format@),
        r matches Some(d) ==> d.well_formed(),
{
    match NaiveDate::parse_from_str(text, format) {
        Ok(d) => Some(Date { year: d.year(), month: d.month(), day: d.day() }),
        Err(_) => None,
    }
}

/// Builds the day with `chrono::NaiveDate::from_ymd_opt` and writes it with
/// `chrono::NaiveDate::format`. Trusted: the outcome is a function of the
/// three numbers and the pattern.
#[verifier::external_body]
fn chrono_format(date: &Date, format: &str) -> (r: Option<String>)
    ensures
        text_view(r) == formatted_date(date.ymd().0, date.ymd().1, date.ymd().2, format@),
{
    let mut out = String::new();
    match NaiveDate::from_ymd_opt(date.year, date.month, date.day) {
        Some(d) => match write!(out, "{}", d.format(format)) {
            Ok(()) => Some(out),
            Err(_) => None,
        },
        None => None,
    }
}

/// What reading a date literal yields, given what the calendar made of it.
pub open spec fn date_result_spec(parsed: Option<Date>, literal: Seq<char>) -> Result<
    Date,
    ParseErrorView,
> {
    match parsed {
        Some(d) => Ok(d),
        None => Err(ParseErrorView::InvalidDate { literal }),
    }
}

/// The model of a date reading's outcome.
pub open spec fn date_result_view(r: Result<Date, ParseError>) -> Result<Date, ParseErrorView> {
    match r {
        Ok(d) => Ok(d),
        Err(e) => Err(e@),
    }
}

/// Turns what the calendar made of a literal into the outcome of reading it:
/// the date, or `InvalidDate` with the offending literal.
pub fn date_result(parsed: Option<Date>, literal: &str) -> (r: Result<Date, ParseError>)
    ensures
        date_result_view(r) == date_result_spec(parsed, literal@),
{
    match parsed {
        Some(d) => Ok(d),
        None => Err(ParseError::InvalidDate { literal: literal.to_owned() }),
    }
}

/// Reads a `YYYY.M.D` date literal.
///
/// Succeeds exactly when the calendar accepts the literal under
/// `DATE_FORMAT`, with the date it read; otherwise fails with `InvalidDate`
/// and the literal.
pub fn parse_date(literal: &str) -> (r: Result<Date, ParseError>)
    ensures
        r matches Ok(d) ==> d.well_formed() && parsed_ymd(literal@, DATE_FORMAT@) == Some(d.ymd()),
        r matches Err(e) ==> parsed_ymd(literal@, DATE_FORMAT@) is None && e@
            == (ParseErrorView::InvalidDate { literal: literal@ }),
{
    let parsed = chrono_parse(literal, DATE_FORMAT);
    date_result(parsed, literal)
}

} // verus!
