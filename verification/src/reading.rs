//! Days as they are read from the service, and the records that they give.

use crate::date::Day;
use crate::error::GhHeatError;
use crate::records::{has_day, inserted, Contributions, DayCount};
use vstd::prelude::*;

verus! {

/// A day as it was read: the text of its date, and its count.
#[derive(Debug)]
pub struct Reading {
    pub date: String,
    pub count: u32,
}

/// The readings as pairs of a date's text and a count.
pub open spec fn dated(readings: Seq<Reading>) -> Seq<(Seq<char>, u32)> {
    readings.map_values(|reading: Reading| (reading.date@, reading.count))
}

/// The place of the first reading whose date is no date, where there is one.
pub open spec fn first_bad_date(readings: Seq<(Seq<char>, u32)>) -> Option<int>
    decreases readings.len(),
{
    if readings.len() == 0 {
        None
    } else {
        match first_bad_date(readings.drop_last()) {
            Some(i) => Some(i),
            None => if Day::parse_spec(readings.last().0) is None {
                Some(readings.len() - 1)
            } else {
                None
            },
        }
    }
}

/// The records that the readings give, taken in order: a later reading of a
/// day replaces an earlier one. Readings whose date is no date give nothing.
pub open spec fn collected(readings: Seq<(Seq<char>, u32)>) -> Seq<DayCount>
    decreases readings.len(),
{
    if readings.len() == 0 {
        Seq::empty()
    } else {
        let earlier = collected(readings.drop_last());
        match Day::parse_spec(readings.last().0) {
            Some(day) => inserted(earlier, day, readings.last().1),
            None => earlier,
        }
    }
}

/// What is first bad in a part from the front is first bad in the whole, and
/// a first bad date lies in the readings and is no date.
pub proof fn lemma_first_bad_date(readings: Seq<(Seq<char>, u32)>, part: int)
    requires
        0 <= part <= readings.len(),
    ensures
        first_bad_date(readings.take(part)) is Some ==> first_bad_date(readings) == first_bad_date(
            readings.take(part),
        ),
        first_bad_date(readings) matches Some(i) ==> 0 <= i < readings.len() && Day::parse_spec(
            readings[i].0,
        ) is None,
    decreases readings.len(),
{
    if readings.len() > 0 {
        let front = readings.drop_last();
        if part == readings.len() {
            assert(readings.take(part) =~= readings);
            lemma_first_bad_date(front, front.len() as int);
        } else {
            assert(front.take(part) =~= readings.take(part));
            lemma_first_bad_date(front, part);
        }
        if let Some(i) = first_bad_date(front) {
            assert(front[i] == readings[i]);
        }
    } else {
        assert(readings.take(part) =~= readings);
    }
}

/// Readings that all hold dates give no records only where there is no reading.
pub proof fn lemma_collected_len(readings: Seq<(Seq<char>, u32)>)
    requires
        first_bad_date(readings) is None,
    ensures
        (collected(readings).len() == 0) == (readings.len() == 0),
    decreases readings.len(),
{
    if readings.len() > 0 {
        lemma_collected_len(readings.drop_last());
    }
}

/// No two readings are of the same day.
pub open spec fn distinct_dates(readings: Seq<(Seq<char>, u32)>) -> bool {
    forall|i: int, j: int|
        0 <= i < j < readings.len() ==> Day::parse_spec((#[trigger] readings[i]).0)
            != Day::parse_spec((#[trigger] readings[j]).0)
}

/// Readings that all hold dates, no two of the same day, give one record
/// each, in their order: the day that the reading's date denotes, with the
/// reading's count.
pub proof fn lemma_collected_distinct(readings: Seq<(Seq<char>, u32)>)
    requires
        first_bad_date(readings) is None,
        distinct_dates(readings),
    ensures
        collected(readings).len() == readings.len(),
        forall|k: int|
            0 <= k < readings.len() ==> Day::parse_spec(readings[k].0) == Some(
                (#[trigger] collected(readings)[k]).day,
            ) && collected(readings)[k].count == readings[k].1,
    decreases readings.len(),
{
    if readings.len() > 0 {
        let front = readings.drop_last();
        let end = readings.len() - 1;
        assert(distinct_dates(front)) by {
            assert forall|i: int, j: int| 0 <= i < j < front.len() implies Day::parse_spec(
                (#[trigger] front[i]).0,
            ) != Day::parse_spec((#[trigger] front[j]).0) by {
                assert(front[i] == readings[i] && front[j] == readings[j]);
            }
        }
        lemma_collected_distinct(front);
        let earlier = collected(front);
        let day = Day::parse_spec(readings.last().0)->0;
        if has_day(earlier, day) {
            let k = choose|k: int| 0 <= k < earlier.len() && (#[trigger] earlier[k]).day == day;
            assert(front[k] == readings[k]);
            assert(Day::parse_spec(readings[k].0) != Day::parse_spec(readings[end].0));
        }
        assert forall|k: int| 0 <= k < readings.len() implies Day::parse_spec(readings[k].0)
            == Some((#[trigger] collected(readings)[k]).day) && collected(readings)[k].count
            == readings[k].1 by {
            if k < end {
                assert(front[k] == readings[k]);
                assert(collected(readings)[k] == earlier[k]);
            }
        }
    }
}

/// Turns readings into records, in order. The first date that is no date
/// ends the reading with that text as the failure.
pub fn records_of_readings(readings: &Vec<Reading>) -> (r: Result<Contributions, GhHeatError>)
    ensures
        match first_bad_date(dated(readings@)) {
            None => r matches Ok(records) && records.wf() && records@ == collected(
                dated(readings@),
            ),
            Some(i) => r matches Err(GhHeatError::InvalidDate(text)) && 0 <= i < readings@.len()
                && text@ == readings@[i].date@,
        },
{
    let ghost pairs = dated(readings@);
    let mut records = Contributions::new();
    let mut i: usize = 0;
    while i < readings.len()
        invariant
            i <= readings@.len(),
            pairs == dated(readings@),
            records.wf(),
            first_bad_date(pairs.take(i as int)) is None,
            records@ == collected(pairs.take(i as int)),
        decreases readings@.len() - i,
    {
        proof {
            assert(pairs.take(i + 1).drop_last() =~= pairs.take(i as int));
            assert(pairs.take(i + 1).last() == (readings@[i as int].date@, readings@[i as int].count));
        }
        match Day::parse(readings[i].date.as_str()) {
            Some(day) => {
                records.insert(day, readings[i].count);
            },
            None => {
                proof {
                    lemma_first_bad_date(pairs, i + 1);
                }
                return Err(GhHeatError::InvalidDate(readings[i].date.clone()));
            },
        }
        i += 1;
    }
    proof {
        assert(pairs.take(i as int) =~= pairs);
    }
    Ok(records)
}

} // verus!
