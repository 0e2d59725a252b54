use vstd::prelude::*;

verus! {

/// Whether `y` is a leap year of the proleptic Gregorian calendar.
pub open spec fn is_leap(y: int) -> bool {
    let a = if y < 0 { -y } else { y };
    (a % 4 == 0 && a % 100 != 0) || a % 400 == 0
}

/// Number of days in month `m` of year `y`.
pub open spec fn days_in_month(y: int, m: int) -> int {
    if m == 2 {
        if is_leap(y) { 29 } else { 28 }
    } else if m == 4 || m == 6 || m == 9 || m == 11 {
        30
    } else {
        31
    }
}

/// A calendar day that exists.
pub open spec fn valid_ymd(y: int, m: int, d: int) -> bool {
    1 <= m <= 12 && 1 <= d <= days_in_month(y, m)
}

/// What `time::Date::parse` with the ISO 8601 date format gives for a text,
/// as (year, month, day), or `None` when it refuses the text.
pub uninterp spec fn iso_date_of(s: Seq<char>) -> Option<(int, int, int)>;

/// Relies on `time::Date::parse` with `Iso8601::DATE`: a parsed `time::Date`
/// is always a day that exists, with month and day read back by `month()` and
/// `day()`.
#[verifier::external_body]
fn parse_iso_date(s: &str) -> (r: Option<(i32, u8, u8)>)
    ensures
        match r {
            Some(d) => iso_date_of(s@) == Some((d.0 as int, d.1 as int, d.2 as int))
                && valid_ymd(d.0 as int, d.1 as int, d.2 as int),
            None => iso_date_of(s@) is None,
        },
{
    let format = time::format_description::well_known::Iso8601::DATE;
    time::Date::parse(s, &format).ok().map(|d| (d.year(), d.month() as u8, d.day()))
}

/// A calendar date, without time of day.
#[derive(Debug, Clone, Copy, PartialEq, Eq, Hash, Structural)]
pub struct Date {
    year: i32,
    month: u8,
    day: u8,
}

impl View for Date {
    type V = (int, int, int);

    closed spec fn view(&self) -> (int, int, int) {
        (self.year as int, self.month as int, self.day as int)
    }
}

/// Chronological order on (year, month, day) triples.
pub open spec fn date_before(a: (int, int, int), b: (int, int, int)) -> bool {
    a.0 < b.0 || (a.0 == b.0 && (a.1 < b.1 || (a.1 == b.1 && a.2 < b.2)))
}

impl Date {
    pub open spec fn wf(&self) -> bool {
        valid_ymd(self@.0, self@.1, self@.2)
    }

    /// The date with these parts, if that day exists.
    pub fn from_calendar_date(year: i32, month: u8, day: u8) -> (r: Option<Date>)
        ensures
            valid_ymd(year as int, month as int, day as int) ==> (r matches Some(d) && d@ == (year as int, month as int, day as int)),
            !valid_ymd(year as int, month as int, day as int) ==> r is None,
    {
        if month < 1 || month > 12 || day < 1 {
            return None;
        }
        let a: u64 = if year < 0 { (0 - (year as i64)) as u64 } else { year as u64 };
        let leap = (a % 4 == 0 && a % 100 != 0) || a % 400 == 0;
        assert(leap == is_leap(year as int));
        let limit: u8 = if month == 2 {
            if leap { 29 } else { 28 }
        } else if month == 4 || month == 6 || month == 9 || month == 11 {
            30
        } else {
            31
        };
        if day > limit {
            None
        } else {
            Some(Date { year, month, day })
        }
    }

    /// Reads a date written in ISO 8601 form (`2025-01-15`).
    pub fn parse_iso(s: &str) -> (r: Option<Date>)
        ensures
            match r {
                Some(d) => iso_date_of(s@) == Some(d@) && d.wf(),
                None => iso_date_of(s@) is None,
            },
    {
        match parse_iso_date(s) {
            Some((y, m, d)) => Some(Date { year: y, month: m, day: d }),
            None => None,
        }
    }

    pub fn year(&self) -> (r: i32)
        ensures
            r as int == self@.0,
    {
        self.year
    }

    pub fn month(&self) -> (r: u8)
        ensures
            r as int == self@.1,
    {
        self.month
    }

    pub fn day(&self) -> (r: u8)
        ensures
            r as int == self@.2,
    {
        self.day
    }

    /// Whether this date comes strictly before `other`.
    pub fn is_before(&self, other: &Date) -> (r: bool)
        ensures
            r == date_before(self@, other@),
    {
        self.year < other.year || (self.year == other.year && (self.month < other.month
            || (self.month == other.month && self.day < other.day)))
    }
}

} // verus!
