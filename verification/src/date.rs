//! Publication dates and their text form `<YYYY-MM-DD Weekday>`.

use chrono::{Datelike, NaiveDate};
use std::fmt::Write;
use vstd::prelude::*;

verus! {

/// The format of a date keyword, in the notation of `chrono`.
pub const ORG_DATE_FMT: &'static str = "<%Y-%m-%d %a>";

/// A calendar date, held by its numbers.
#[derive(Clone, Copy, Debug, PartialEq, Eq, Structural)]
pub struct PostDate {
    pub year: i32,
    pub month: u32,
    pub day: u32,
}

/// Why a text is not read as a date.
#[derive(Clone, Copy, Debug, PartialEq, Eq, Structural)]
pub enum DateError {
    /// The text is not of the form of a date, or names a day that the
    /// calendar does not have.
    NotADate,
}

impl PostDate {
    /// The month is one of twelve and the day one of at most thirty-one.
    pub open spec fn wf(self) -> bool {
        1 <= self.month <= 12 && 1 <= self.day <= 31
    }

    /// `self` is not later than `other`.
    pub open spec fn not_after(self, other: PostDate) -> bool {
        ||| self.year < other.year
        ||| self.year == other.year && self.month < other.month
        ||| self.year == other.year && self.month == other.month && self.day <= other.day
    }

    /// Whether `self` is not later than `other`.
    pub fn is_not_after(&self, other: &PostDate) -> (r: bool)
        ensures
            r == self.not_after(*other),
    {
        self.year < other.year || (self.year == other.year && (self.month < other.month || (
        self.month == other.month && self.day <= other.day)))
    }
}

/// The order of publication dates: a missing date comes before every date,
/// and dates are ordered by the calendar.
pub open spec fn date_le(a: Option<PostDate>, b: Option<PostDate>) -> bool {
    match (a, b) {
        (None, _) => true,
        (Some(_), None) => false,
        (Some(x), Some(y)) => x.not_after(y),
    }
}

/// Whether `a` comes before `b` or with it in the order of publication dates.
pub fn is_date_le(a: &Option<PostDate>, b: &Option<PostDate>) -> (r: bool)
    ensures
        r == date_le(*a, *b),
{
    match (a, b) {
        (None, _) => true,
        (Some(_), None) => false,
        (Some(x), Some(y)) => x.is_not_after(y),
    }
}

/// The order of publication dates is total: reflexive, transitive, and
/// any two dates are comparable; two that are each before the other are equal.
pub proof fn lemma_date_le_total_order(a: Option<PostDate>, b: Option<PostDate>, c: Option<PostDate>)
    ensures
        date_le(a, a),
        date_le(a, b) || date_le(b, a),
        date_le(a, b) && date_le(b, c) ==> date_le(a, c),
        date_le(a, b) && date_le(b, a) ==> a == b,
{
}

/// What `chrono` reads from `text` under `format`: year, month and day of
/// the date, or nothing where it reports an error.
pub uninterp spec fn chrono_parse_date(text: Seq<char>, format: Seq<char>) -> Option<(i32, u32, u32)>;

/// What `chrono` writes for the date of the given year, month and day under
/// `format`: nothing where it knows no such date or cannot write it.
pub uninterp spec fn chrono_format_date(year: i32, month: u32, day: u32, format: Seq<char>) -> Option<Seq<char>>;

/// Calls `chrono::NaiveDate::parse_from_str` and reads year, month and day
/// off the date with `chrono::Datelike`; nothing is returned where `chrono`
/// reports an error. The result is a function of the two texts; a month is
/// from 1 to 12 and a day from 1 to 31.
#[verifier::external_body]
fn parse_date_with(text: &str, format: &str) -> (r: Option<(i32, u32, u32)>)
    ensures
        r == chrono_parse_date(text@, format@),
        r matches Some((_, month, day)) ==> 1 <= month <= 12 && 1 <= day <= 31,
{
    match NaiveDate::parse_from_str(text, format) {
        Ok(date) => Some((date.year(), date.month(), date.day())),
        Err(_) => None,
    }
}

/// Makes the date with `chrono::NaiveDate::from_ymd_opt` and writes it with
/// `chrono::NaiveDate::format`. The result is a function of the numbers and
/// the format.
#[verifier::external_body]
fn format_date_with(year: i32, month: u32, day: u32, format: &str) -> (r: Option<String>)
    ensures
        match r {
            Some(text) => chrono_format_date(year, month, day, format@) == Some(text@),
            None => chrono_format_date(year, month, day, format@) is None,
        },
{
    let date = NaiveDate::from_ymd_opt(year, month, day)?;
    let mut text = String::new();
    match write!(text, "{}", date.format(format)) {
        Ok(()) => Some(text),
        Err(_) => None,
    }
}

/// The date that a text of the form `<YYYY-MM-DD Weekday>` stands for.
pub open spec fn org_date_of(text: Seq<char>) -> Result<PostDate, DateError> {
    match chrono_parse_date(text, ORG_DATE_FMT@) {
        Some((year, month, day)) => Ok(PostDate { year, month, day }),
        None => Err(DateError::NotADate),
    }
}

/// The text `<YYYY-MM-DD Weekday>` of a date.
pub open spec fn org_text_of(date: PostDate) -> Option<Seq<char>> {
    chrono_format_date(date.year, date.month, date.day, ORG_DATE_FMT@)
}

/// Reads a date in the form `<YYYY-MM-DD Weekday>`.
pub fn org_date_parse(text: &str) -> (r: Result<PostDate, DateError>)
    ensures
        r == org_date_of(text@),
        r matches Ok(date) ==> date.wf(),
{
    match parse_date_with(text, ORG_DATE_FMT) {
        Some((year, month, day)) => Ok(PostDate { year, month, day }),
        None => Err(DateError::NotADate),
    }
}

/// Writes a date in the form `<YYYY-MM-DD Weekday>`.
pub fn org_date_format(date: PostDate) -> (r: Option<String>)
    ensures
        match r {
            Some(text) => org_text_of(date) == Some(text@),
            None => org_text_of(date) is None,
        },
{
    format_date_with(date.year, date.month, date.day, ORG_DATE_FMT)
}

} // verus!
