//! Reading activity records out of the answer to a structured query.

use crate::date::{formatted_day_number, iso_format, Day, DAY_NUMBER_LIMIT};
use crate::error::{append, GhHeatError};
use crate::reading::{collected, dated, first_bad_date, records_of_readings, Reading};
use crate::records::Contributions;
use vstd::prelude::*;

verus! {

/// The answer to a structured query, decoded: the failures that the service
/// reports, and under the data the user's weeks, each with its days. The
/// data may be missing, and under it the user.
#[derive(Debug)]
pub struct QueryAnswer {
    pub errors: Option<Vec<String>>,
    pub data: Option<Option<Vec<Vec<Reading>>>>,
}

/// The days that a query asks for: from `days` days before today to today.
pub fn query_window(today: Day, days: u32) -> (r: (Day, Day))
    requires
        today.wf(),
        today.number - days >= -DAY_NUMBER_LIMIT,
    ensures
        r.0.number == today.number - days,
        r.1 == today,
        r.0.wf(),
{
    let back: i64 = today.number as i64 - days as i64;
    (Day { number: back as i32 }, today)
}

/// The two moments between which a query asks for days, as the service
/// reads them: the first second of the window's first day and the last
/// second of today.
pub fn window_texts(today: Day, days: u32) -> (r: (String, String))
    requires
        today.wf(),
        today.number - days >= -DAY_NUMBER_LIMIT,
    ensures
        r.0@ == formatted_day_number(today.number - days, iso_format()) + "T00:00:00"@,
        r.1@ == formatted_day_number(today.number as int, iso_format()) + "T23:59:59"@,
{
    let (first, last) = query_window(today, days);
    let mut from = first.format();
    append(&mut from, "T00:00:00");
    let mut to = last.format();
    append(&mut to, "T23:59:59");
    (from, to)
}

/// The value of the header that carries a credential: the word `Bearer`, a
/// blank, and the credential.
pub fn authorization(credential: &str) -> (r: String)
    ensures
        r@ == "Bearer "@ + credential@,
{
    let mut value = String::new();
    append(&mut value, "Bearer ");
    append(&mut value, credential);
    proof {
        assert(value@ =~= "Bearer "@ + credential@);
    }
    value
}

/// Whether a status code stands for success: 200 to 299.
pub open spec fn is_success(code: int) -> bool {
    200 <= code <= 299
}

/// The failure that a page's status stands for, if any: none for a
/// success, else a failure that names the status.
pub fn page_failure(code: u16, status: &str) -> (r: Option<GhHeatError>)
    ensures
        is_success(code as int) ==> r is None,
        !is_success(code as int) ==> (r matches Some(GhHeatError::Api(text)) && text@
            == "Failed to fetch data: "@ + status@),
{
    if 200 <= code && code <= 299 {
        None
    } else {
        let mut text = String::new();
        append(&mut text, "Failed to fetch data: ");
        append(&mut text, status);
        proof {
            assert(text@ =~= "Failed to fetch data: "@ + status@);
        }
        Some(GhHeatError::Api(text))
    }
}

/// The failure that a query's status stands for, if any: none for a
/// success, a refusal for now for 403, else a failure that names the status.
pub fn status_failure(code: u16, status: &str) -> (r: Option<GhHeatError>)
    ensures
        is_success(code as int) ==> r is None,
        code == 403 ==> r == Some(GhHeatError::RateLimit),
        !is_success(code as int) && code != 403 ==> (r matches Some(GhHeatError::Api(text))
            && text@ == "Failed to fetch data: "@ + status@),
{
    if code == 403 {
        Some(GhHeatError::RateLimit)
    } else {
        page_failure(code, status)
    }
}

/// The messages in one line, a comma and a blank between each two.
pub open spec fn joined(messages: Seq<String>) -> Seq<char>
    decreases messages.len(),
{
    if messages.len() == 0 {
        Seq::empty()
    } else if messages.len() == 1 {
        messages[0]@
    } else {
        joined(messages.drop_last()) + ", "@ + messages.last()@
    }
}

/// The messages in one line.
pub fn join_messages(messages: &Vec<String>) -> (r: String)
    ensures
        r@ == joined(messages@),
{
    let mut line = String::new();
    let mut i: usize = 0;
    while i < messages.len()
        invariant
            i <= messages@.len(),
            line@ == joined(messages@.take(i as int)),
        decreases messages@.len() - i,
    {
        proof {
            assert(messages@.take(i + 1).drop_last() =~= messages@.take(i as int));
        }
        if i > 0 {
            append(&mut line, ", ");
        }
        append(&mut line, messages[i].as_str());
        proof {
            assert(line@ =~= joined(messages@.take(i + 1)));
        }
        i += 1;
    }
    proof {
        assert(messages@.take(i as int) =~= messages@);
    }
    line
}

/// The days of all the weeks, week after week, as pairs of a date's text
/// and a count.
pub open spec fn week_days(weeks: Seq<Vec<Reading>>) -> Seq<(Seq<char>, u32)>
    decreases weeks.len(),
{
    if weeks.len() == 0 {
        Seq::empty()
    } else {
        week_days(weeks.drop_last()) + dated(weeks.last()@)
    }
}

/// The days of all the weeks in one list, week after week.
pub fn days_of_weeks(weeks: &Vec<Vec<Reading>>) -> (days: Vec<Reading>)
    ensures
        dated(days@) == week_days(weeks@),
{
    let mut days: Vec<Reading> = Vec::new();
    let mut w: usize = 0;
    while w < weeks.len()
        invariant
            w <= weeks@.len(),
            dated(days@) == week_days(weeks@.take(w as int)),
        decreases weeks@.len() - w,
    {
        let week = &weeks[w];
        let ghost before = dated(days@);
        let mut d: usize = 0;
        while d < week.len()
            invariant
                d <= week@.len(),
                dated(days@) == before + dated(week@.take(d as int)),
            decreases week@.len() - d,
        {
            let ghost earlier = days@;
            days.push(Reading { date: week[d].date.clone(), count: week[d].count });
            proof {
                assert(dated(days@) =~= dated(earlier).push((week@[d as int].date@, week@[d as int].count)));
                assert(dated(week@.take(d + 1)) =~= dated(week@.take(d as int)).push(
                    (week@[d as int].date@, week@[d as int].count),
                ));
                assert(dated(days@) =~= before + dated(week@.take(d + 1)));
            }
            d += 1;
        }
        proof {
            assert(week@.take(d as int) =~= week@);
            assert(weeks@.take(w + 1).drop_last() =~= weeks@.take(w as int));
            assert(weeks@.take(w + 1).last() == weeks@[w as int]);
        }
        w += 1;
    }
    proof {
        assert(weeks@.take(w as int) =~= weeks@);
    }
    days
}

/// Reads the records out of a decoded answer. Failures that the service
/// reports come first, in one line; then missing data, then a missing user;
/// then the days of every week are read, week after week.
pub fn records_of_answer(answer: &QueryAnswer) -> (r: Result<Contributions, GhHeatError>)
    ensures
        match answer.errors {
            Some(messages) => r matches Err(GhHeatError::Api(text)) && text@ == joined(messages@),
            None => match answer.data {
                None => r matches Err(GhHeatError::Parse(text)) && text@ == "No data in response"@,
                Some(None) => r matches Err(GhHeatError::Parse(text)) && text@
                    == "User not found"@,
                Some(Some(weeks)) => match first_bad_date(week_days(weeks@)) {
                    None => r matches Ok(records) && records.wf() && records@ == collected(
                        week_days(weeks@),
                    ),
                    Some(i) => r matches Err(GhHeatError::InvalidDate(text)) && 0 <= i
                        < week_days(weeks@).len() && text@ == week_days(weeks@)[i].0,
                },
            },
        },
{
    match &answer.errors {
        Some(messages) => Err(GhHeatError::Api(join_messages(messages))),
        None => match &answer.data {
            None => Err(GhHeatError::Parse("No data in response".to_owned())),
            Some(None) => Err(GhHeatError::Parse("User not found".to_owned())),
            Some(Some(weeks)) => {
                let days = days_of_weeks(weeks);
                records_of_readings(&days)
            },
        },
    }
}

} // verus!
