//! Calendar dates and instants, held as plain numbers; chrono reads the
//! clock, parses and formats them.
use vstd::prelude::*;
use chrono::Datelike;

verus! {

/// A calendar date, held as chrono holds it: days counted from the common
/// era, 0001-01-01 being day 1. Dates compare as their day numbers.
#[derive(Clone, Copy, Debug, PartialEq, Eq, Structural)]
pub struct Date {
    pub days_from_ce: i32,
}

/// An instant in UTC: seconds since the Unix epoch and the nanoseconds
/// past that second. Instants compare as the pair, seconds first.
#[derive(Clone, Copy, Debug, PartialEq, Eq, Structural)]
pub struct Timestamp {
    pub secs: i64,
    pub nanos: u32,
}

impl Date {
    /// Whether this date lies before `other`.
    pub fn is_before(&self, other: &Date) -> (r: bool)
        ensures
            r == (self.days_from_ce < other.days_from_ce),
    {
        self.days_from_ce < other.days_from_ce
    }
}

/// The day number of the date that `%Y-%m-%d` reads from a text, if it reads
/// one; named, since chrono's parser is not restated here.
pub uninterp spec fn ymd_date(text: Seq<char>) -> Option<int>;

/// `NaiveDate::parse_from_str(text, "%Y-%m-%d")`, taken as a day number.
/// The contract claims that the outcome is a function of the text.
#[verifier::external_body]
pub(crate) fn parse_ymd(text: &str) -> (r: Option<Date>)
    ensures
        r is Some <==> ymd_date(text@) is Some,
        r matches Some(d) ==> d.days_from_ce as int == ymd_date(text@)->0,
{
    match chrono::NaiveDate::parse_from_str(text, "%Y-%m-%d") {
        Ok(d) => Some(Date { days_from_ce: d.num_days_from_ce() }),
        Err(_) => None,
    }
}

/// The `YYYY-MM-DD` text of a day number, as chrono's `Display` writes it.
pub uninterp spec fn iso_date(days: int) -> Seq<char>;

/// Writes a date as `YYYY-MM-DD` through chrono's `Display`. The contract
/// claims that the text is a function of the day number.
#[verifier::external_body]
pub(crate) fn iso_date_text(d: Date) -> (r: String)
    ensures
        r@ == iso_date(d.days_from_ce as int),
{
    match chrono::NaiveDate::from_num_days_from_ce_opt(d.days_from_ce) {
        Some(n) => n.to_string(),
        None => String::new(),
    }
}

/// The `MM-DD` text of a day number, as chrono's `%m-%d` format writes it.
pub uninterp spec fn month_day(days: int) -> Seq<char>;

/// Writes a date as `MM-DD` through chrono's formatter. The contract claims
/// that the text is a function of the day number.
#[verifier::external_body]
pub(crate) fn month_day_text(d: Date) -> (r: String)
    ensures
        r@ == month_day(d.days_from_ce as int),
{
    match chrono::NaiveDate::from_num_days_from_ce_opt(d.days_from_ce) {
        Some(n) => n.format("%m-%d").to_string(),
        None => String::new(),
    }
}

/// The current instant (`Utc::now()`). Nothing is claimed of the value.
#[verifier::external_body]
pub(crate) fn now_utc() -> (r: Timestamp) {
    let t = chrono::Utc::now();
    Timestamp { secs: t.timestamp(), nanos: t.timestamp_subsec_nanos() }
}

/// Today's date in the machine's time zone (`Local::now().date_naive()`).
/// Nothing is claimed of the value.
#[verifier::external_body]
pub fn today_local() -> (r: Date) {
    Date { days_from_ce: chrono::Local::now().date_naive().num_days_from_ce() }
}

} // verus!
