use chrono::Datelike;
use chrono::NaiveDate;
use vstd::prelude::*;

verus! {

/// A calendar date as three plain numbers.
///
/// Any three numbers make a `Date`; [`Date::month_slot`] says how a month
/// outside 1..=12 is bucketed.
#[derive(Debug, Clone, Copy, PartialEq, Eq, Hash, Structural)]
pub struct Date {
    pub year: i32,
    pub month: u32,
    pub day: u32,
}

/// What `chrono::NaiveDate::parse_from_str` reads from `text` under
/// `format`: the year, month and day of the date, or nothing where it
/// reports an error.
pub uninterp spec fn chrono_ymd(text: Seq<char>, format: Seq<char>) -> Option<(int, int, int)>;

/// Calls `chrono::NaiveDate::parse_from_str` and copies year, month and day
/// out of the date it returns, through `Datelike::year`, `month` and `day`.
/// Nothing is claimed about which texts are dates: only that the outcome
/// depends on the text and the format alone, and that, as chrono documents
/// of every date, the month is one of 1..=12 and the day one of 1..=31.
/// The one format that the library uses is the one that it may be called with.
#[verifier::external_body]
fn parse_ymd(text: &str, format: &str) -> (r: Option<Date>)
    requires
        format@ == "%Y-%m-%d"@,
    ensures
        match r {
            Some(d) => chrono_ymd(text@, format@) == Some(
                (d.year as int, d.month as int, d.day as int),
            ),
            None => chrono_ymd(text@, format@) is None,
        },
        r matches Some(d) ==> 1 <= d.month <= 12 && 1 <= d.day <= 31,
{
    match NaiveDate::parse_from_str(text, format) {
        Ok(d) => Some(Date { year: d.year(), month: d.month(), day: d.day() }),
        Err(_) => None,
    }
}

impl Date {
    pub fn new(year: i32, month: u32, day: u32) -> (r: Date)
        ensures
            r == (Date { year, month, day }),
    {
        Date { year, month, day }
    }

    pub fn year(&self) -> (r: i32)
        ensures
            r == self.year,
    {
        self.year
    }

    pub fn month(&self) -> (r: u32)
        ensures
            r == self.month,
    {
        self.month
    }

    pub fn day(&self) -> (r: u32)
        ensures
            r == self.day,
    {
        self.day
    }

    /// The date that a `YYYY-MM-DD` text names, as chrono reads it.
    pub open spec fn spec_parse(text: Seq<char>) -> Option<Date> {
        match chrono_ymd(text, "%Y-%m-%d"@) {
            Some((y, m, d)) => Some(Date { year: y as i32, month: m as u32, day: d as u32 }),
            None => None,
        }
    }

    /// Reads a `YYYY-MM-DD` text; `None` where it names no date. A date
    /// that was read has its own month slot: none falls back to slot 0.
    pub fn parse(text: &str) -> (r: Option<Date>)
        ensures
            r == Date::spec_parse(text@),
            r matches Some(d) ==> 1 <= d.month <= 12 && 1 <= d.day <= 31 && d.month_slot()
                == d.month - 1,
    {
        parse_ymd(text, "%Y-%m-%d")
    }

    /// Index of the month's slot in a year of twelve: January is 0. A month
    /// outside 1..=12 goes to slot 0.
    pub open spec fn month_slot(self) -> int {
        if 1 <= self.month <= 12 {
            self.month - 1
        } else {
            0
        }
    }

    pub fn month_index(&self) -> (r: usize)
        ensures
            r == self.month_slot(),
            r < 12,
    {
        if 1 <= self.month && self.month <= 12 {
            (self.month - 1) as usize
        } else {
            0
        }
    }

    /// `self` is no later than `other`: by year, then month, then day.
    pub open spec fn spec_on_or_before(self, other: Date) -> bool {
        ||| self.year < other.year
        ||| self.year == other.year && self.month < other.month
        ||| self.year == other.year && self.month == other.month && self.day <= other.day
    }

    pub fn on_or_before(&self, other: &Date) -> (r: bool)
        ensures
            r == self.spec_on_or_before(*other),
    {
        self.year < other.year || (self.year == other.year && (self.month < other.month || (
        self.month == other.month && self.day <= other.day)))
    }
}

} // verus!
