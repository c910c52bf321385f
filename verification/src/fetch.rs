//! The order in which the ways of reading a user's records are tried, and
//! the made-up records that stand in when none of them gives any.

use crate::date::{Day, DAY_NUMBER_LIMIT};
use crate::error::GhHeatError;
use crate::records::{has_day, Contributions, DayCount};
use crate::scrape::{scrape, scraped};
use vstd::prelude::*;

verus! {

/// The number of days before today with which the made-up records begin.
pub const SYNTHETIC_DAYS: i32 = 365;

/// Calls rand's `random` for `u32`. Nothing is stated of the number.
#[verifier::external_body]
fn random_number() -> u32 {
    rand::random::<u32>()
}

/// The bound below which a made-up count stays: 5 on Saturdays and Sundays,
/// 10 on the other days.
pub open spec fn synthetic_bound(day: Day) -> int {
    if day.weekday_spec() == 0 || day.weekday_spec() == 6 {
        5
    } else {
        10
    }
}

/// The made-up count that a random number gives for a day.
pub fn synthetic_count(day: Day, random: u32) -> (r: u32)
    requires
        day.in_calendar(),
    ensures
        r as int == random as int % synthetic_bound(day),
        r < synthetic_bound(day),
{
    let weekday = day.weekday();
    if weekday == 0 || weekday == 6 {
        random % 5
    } else {
        random % 10
    }
}

/// Whether the records are made up for `today`: one for each of the 366
/// days that end with today, in order, each count below its day's bound.
pub open spec fn is_synthetic(records: Seq<DayCount>, today: Day) -> bool {
    &&& records.len() == SYNTHETIC_DAYS + 1
    &&& forall|i: int|
        0 <= i < records.len() ==> (#[trigger] records[i]).day.number == today.number
            - SYNTHETIC_DAYS + i && 0 <= records[i].count < synthetic_bound(records[i].day)
}

/// Makes up records for the 366 days that end with today.
pub fn synthetic(today: Day) -> (r: Contributions)
    requires
        today.wf(),
        today.number - SYNTHETIC_DAYS >= -DAY_NUMBER_LIMIT,
    ensures
        r.wf(),
        is_synthetic(r@, today),
{
    let mut records = Contributions::new();
    let first: i32 = today.number - SYNTHETIC_DAYS;
    let mut i: i32 = 0;
    while i <= SYNTHETIC_DAYS
        invariant
            0 <= i <= SYNTHETIC_DAYS + 1,
            today.wf(),
            first == today.number - SYNTHETIC_DAYS,
            first >= -DAY_NUMBER_LIMIT,
            records.wf(),
            records@.len() == i,
            forall|k: int|
                0 <= k < i ==> (#[trigger] records@[k]).day.number == first + k && 0
                    <= records@[k].count < synthetic_bound(records@[k].day),
        decreases SYNTHETIC_DAYS + 1 - i,
    {
        let day = Day { number: first + i };
        let count = synthetic_count(day, random_number());
        proof {
            assert(!has_day(records@, day));
        }
        records.insert(day, count);
        i += 1;
    }
    records
}

/// A way of reading the records from the service.
#[derive(Clone, Copy, Debug, PartialEq, Eq, Structural)]
pub enum Tier {
    /// The structured query, which needs a credential.
    Structured,
    /// The public profile page.
    Markup,
}

/// The way to try first: the structured query where there is a credential
/// that is not empty, else the profile page.
pub fn first_tier(credential: Option<&str>) -> (r: Tier)
    ensures
        r == (match credential {
            Some(token) => if token@.len() > 0 {
                Tier::Structured
            } else {
                Tier::Markup
            },
            None => Tier::Markup,
        }),
{
    match credential {
        Some(token) => if token.is_empty() {
            Tier::Markup
        } else {
            Tier::Structured
        },
        None => Tier::Markup,
    }
}

/// What the structured query settles: its records where it gave any answer,
/// nothing where it failed and the profile page is to be tried.
pub fn after_structured(outcome: Result<Contributions, GhHeatError>) -> (r: Option<Contributions>)
    ensures
        match outcome {
            Ok(records) => r == Some(records),
            Err(_) => r is None,
        },
{
    match outcome {
        Ok(records) => Some(records),
        Err(_) => None,
    }
}

/// Whether a profile page leaves the records to be made up: the page could
/// not be had, a date in it is no date, or no pattern found a cell.
pub open spec fn needs_synthetic(page: Result<String, GhHeatError>) -> bool {
    match page {
        Ok(markup) => match scraped(markup@) {
            Ok(records) => records.len() == 0,
            Err(_) => true,
        },
        Err(_) => true,
    }
}

/// The records that a fetch ends with, and whether they are made up.
#[derive(Debug)]
pub struct Fetched {
    pub records: Contributions,
    pub synthetic: bool,
}

/// The records after the profile page was asked for: what the page gives
/// where it gives any, else records made up for `today`.
pub fn after_markup(page: Result<String, GhHeatError>, today: Day) -> (r: Fetched)
    requires
        today.wf(),
        today.number - SYNTHETIC_DAYS >= -DAY_NUMBER_LIMIT,
    ensures
        r.records.wf(),
        r.records@.len() > 0,
        r.synthetic == needs_synthetic(page),
        (page matches Ok(markup) && markup@.len() == 0) ==> r.synthetic,
        r.synthetic ==> is_synthetic(r.records@, today),
        !r.synthetic ==> (page matches Ok(markup) && scraped(markup@) == Ok::<
            Seq<DayCount>,
            Seq<char>,
        >(r.records@)),
{
    match page {
        Ok(markup) => match scrape(markup.as_str()) {
            Ok(records) => {
                if records.is_empty() {
                    Fetched { records: synthetic(today), synthetic: true }
                } else {
                    Fetched { records, synthetic: false }
                }
            },
            Err(_) => Fetched { records: synthetic(today), synthetic: true },
        },
        Err(_) => Fetched { records: synthetic(today), synthetic: true },
    }
}

} // verus!
