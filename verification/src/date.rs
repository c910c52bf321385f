//! Calendar days as day numbers of the proleptic Gregorian calendar.

use chrono::Datelike;
use vstd::prelude::*;

verus! {

/// The largest day number, in either direction, that the library accepts as a date.
pub const DAY_NUMBER_LIMIT: i32 = 95_000_000;

/// The number of days in a week.
pub const WEEK_LENGTH: i32 = 7;

/// The month, 1 to 12, in which the day with the given number falls.
pub uninterp spec fn month_of_day_number(number: int) -> int;

/// What a text denotes as a date under a format: the date's day number, or
/// nothing where the text is no date of that format.
pub uninterp spec fn parsed_day_number(text: Seq<char>, format: Seq<char>) -> Option<int>;

/// The text that a format gives for the day with the given number.
pub uninterp spec fn formatted_day_number(number: int, format: Seq<char>) -> Seq<char>;

/// The format of a date written as year, month and day: `YYYY-MM-DD`.
pub open spec fn iso_format() -> Seq<char> {
    "%Y-%m-%d"@
}

/// Whether the calendar can represent the day with this number: the
/// accepted dates and one week around them.
pub open spec fn representable(number: int) -> bool {
    -(DAY_NUMBER_LIMIT + WEEK_LENGTH) <= number <= DAY_NUMBER_LIMIT + WEEK_LENGTH
}

/// Calls chrono's `NaiveDate::from_num_days_from_ce_opt` and then
/// `Datelike::month` on the date. Trusted: within the stated range chrono has
/// a date for the number (its dates reach from year -262143 to year 262142),
/// and the month it reports is between 1 and 12.
#[verifier::external_body]
fn calendar_month(number: i32) -> (r: u32)
    requires
        representable(number as int),
    ensures
        r as int == month_of_day_number(number as int),
        1 <= r <= 12,
{
    chrono::NaiveDate::from_num_days_from_ce_opt(number).unwrap().month()
}

/// Calls chrono's `NaiveDate::parse_from_str` and, on success,
/// `Datelike::num_days_from_ce`. Trusted: the outcome is a function of the
/// text and the format alone.
#[verifier::external_body]
fn calendar_parse(text: &str, format: &str) -> (r: Option<i32>)
    ensures
        r is Some <==> parsed_day_number(text@, format@) is Some,
        r matches Some(n) ==> parsed_day_number(text@, format@) == Some(n as int),
{
    match chrono::NaiveDate::parse_from_str(text, format) {
        Ok(date) => Some(date.num_days_from_ce()),
        Err(_) => None,
    }
}

/// Calls chrono's `NaiveDate::from_num_days_from_ce_opt`, then
/// `NaiveDate::format` and the `to_string` of what it returns. Trusted: the
/// text is a function of the day number and the format alone. The format is
/// held to year, month and day, whose specifiers chrono knows: an unknown
/// specifier would make `to_string` panic.
#[verifier::external_body]
fn calendar_format(number: i32, format: &str) -> (r: String)
    requires
        representable(number as int),
        format@ == iso_format(),
    ensures
        r@ == formatted_day_number(number as int, format@),
{
    chrono::NaiveDate::from_num_days_from_ce_opt(number).unwrap().format(format).to_string()
}

/// A calendar day, held as its day number: 0001-01-01 is day 1, and each
/// following day has the next number.
#[derive(Clone, Copy, Debug, PartialEq, Eq, Structural)]
pub struct Day {
    pub number: i32,
}

impl Day {
    /// A date that the library accepts: its number is within the limit.
    pub open spec fn wf(self) -> bool {
        -DAY_NUMBER_LIMIT <= self.number <= DAY_NUMBER_LIMIT
    }

    /// A day that the calendar can represent: an accepted date, or one up to
    /// a week outside, as the days that complete a week may be.
    pub open spec fn in_calendar(self) -> bool {
        representable(self.number as int)
    }

    /// The day of the week, counted from Sunday: 0 for Sunday, 6 for Saturday.
    pub open spec fn weekday_spec(self) -> int {
        self.number as int % 7
    }

    /// The month of the year, 1 to 12.
    pub open spec fn month_spec(self) -> int {
        month_of_day_number(self.number as int)
    }

    /// What a text in the form `YYYY-MM-DD` denotes: an accepted date, or nothing.
    pub open spec fn parse_spec(text: Seq<char>) -> Option<Day> {
        match parsed_day_number(text, iso_format()) {
            Some(n) => if -DAY_NUMBER_LIMIT <= n <= DAY_NUMBER_LIMIT {
                Some(Day { number: n as i32 })
            } else {
                None
            },
            None => None,
        }
    }

    /// The day with the given number, where that is an accepted date.
    pub fn from_number(number: i32) -> (r: Option<Day>)
        ensures
            -DAY_NUMBER_LIMIT <= number <= DAY_NUMBER_LIMIT ==> r == Some(Day { number }),
            !(-DAY_NUMBER_LIMIT <= number <= DAY_NUMBER_LIMIT) ==> r is None,
    {
        if -DAY_NUMBER_LIMIT <= number && number <= DAY_NUMBER_LIMIT {
            Some(Day { number })
        } else {
            None
        }
    }

    /// The day of the week, counted from Sunday.
    pub fn weekday(&self) -> (r: u8)
        requires
            self.in_calendar(),
        ensures
            r as int == self.weekday_spec(),
            r < 7,
    {
        // 14_000_000 weeks lift every representable number above zero.
        let lifted: i64 = self.number as i64 + 98_000_000;
        (lifted % 7) as u8
    }

    /// Whether the day is a Sunday.
    pub fn is_sunday(&self) -> (r: bool)
        requires
            self.in_calendar(),
        ensures
            r == (self.weekday_spec() == 0),
    {
        self.weekday() == 0
    }

    /// Whether the day is a Saturday.
    pub fn is_saturday(&self) -> (r: bool)
        requires
            self.in_calendar(),
        ensures
            r == (self.weekday_spec() == 6),
    {
        self.weekday() == 6
    }

    /// The month of the year, 1 to 12.
    pub fn month(&self) -> (r: u32)
        requires
            self.in_calendar(),
        ensures
            r as int == self.month_spec(),
            1 <= r <= 12,
    {
        calendar_month(self.number)
    }

    /// Reads a date written as `YYYY-MM-DD`.
    pub fn parse(text: &str) -> (r: Option<Day>)
        ensures
            r == Day::parse_spec(text@),
            r matches Some(day) ==> day.wf(),
    {
        Day::from_parsed(calendar_parse(text, "%Y-%m-%d"))
    }

    /// Turns what the calendar read into a date: the day with that number
    /// where it is an accepted date, else nothing.
    pub fn from_parsed(parsed: Option<i32>) -> (r: Option<Day>)
        ensures
            r == (match parsed {
                Some(n) => if -DAY_NUMBER_LIMIT <= n <= DAY_NUMBER_LIMIT {
                    Some(Day { number: n })
                } else {
                    None
                },
                None => None,
            }),
    {
        match parsed {
            Some(n) => Day::from_number(n),
            None => None,
        }
    }

    /// The date written as `YYYY-MM-DD`.
    pub fn format(&self) -> (r: String)
        requires
            self.in_calendar(),
        ensures
            r@ == formatted_day_number(self.number as int, iso_format()),
    {
        calendar_format(self.number, "%Y-%m-%d")
    }

    /// The Sunday on or before the day.
    pub open spec fn week_start_spec(self) -> int {
        self.number - self.weekday_spec()
    }

    /// The Sunday on or before the day.
    pub fn week_start(&self) -> (r: Day)
        requires
            self.wf(),
        ensures
            r.number as int == self.week_start_spec(),
            r.weekday_spec() == 0,
            r.in_calendar(),
            self.number - 6 <= r.number <= self.number,
    {
        let back: i32 = self.weekday() as i32;
        Day { number: self.number - back }
    }
}

/// The three-letter English name of a month, empty for a number that is no month.
pub open spec fn month_name_spec(month: int) -> Seq<char> {
    if month == 1 {
        "Jan"@
    } else if month == 2 {
        "Feb"@
    } else if month == 3 {
        "Mar"@
    } else if month == 4 {
        "Apr"@
    } else if month == 5 {
        "May"@
    } else if month == 6 {
        "Jun"@
    } else if month == 7 {
        "Jul"@
    } else if month == 8 {
        "Aug"@
    } else if month == 9 {
        "Sep"@
    } else if month == 10 {
        "Oct"@
    } else if month == 11 {
        "Nov"@
    } else if month == 12 {
        "Dec"@
    } else {
        ""@
    }
}

/// The three-letter English name of a month.
pub fn month_name(month: u32) -> (r: &'static str)
    ensures
        r@ == month_name_spec(month as int),
{
    match month {
        1 => "Jan",
        2 => "Feb",
        3 => "Mar",
        4 => "Apr",
        5 => "May",
        6 => "Jun",
        7 => "Jul",
        8 => "Aug",
        9 => "Sep",
        10 => "Oct",
        11 => "Nov",
        12 => "Dec",
        _ => "",
    }
}

} // verus!
