//! Reading activity records out of the markup of a profile page.

use crate::date::Day;
use crate::error::{append, GhHeatError};
use crate::reading::{
    collected, dated, distinct_dates, first_bad_date, lemma_collected_distinct,
    lemma_collected_len, lemma_first_bad_date, records_of_readings, Reading,
};
use crate::records::{Contributions, DayCount};
use vstd::prelude::*;

verus! {

/// The pairs of texts that a pattern with two groups captures in a text, one
/// pair for each match, from left to right.
pub uninterp spec fn pattern_captures(pattern: Seq<char>, text: Seq<char>) -> Seq<
    (Seq<char>, Seq<char>),
>;

/// Whether a character is one of the ten decimal digits.
pub open spec fn is_digit(c: char) -> bool {
    '0' <= c <= '9'
}

/// The number that decimal digits denote.
pub open spec fn digits_value(digits: Seq<char>) -> int
    decreases digits.len(),
{
    if digits.len() == 0 {
        0
    } else {
        10 * digits_value(digits.drop_last()) + (digits.last() as int - '0' as int)
    }
}

/// Whether every character is a decimal digit.
pub open spec fn all_digits(digits: Seq<char>) -> bool {
    forall|i: int| 0 <= i < digits.len() ==> is_digit(#[trigger] digits[i])
}

/// A text without the `+` that may stand before a number.
pub open spec fn unsigned_part(text: Seq<char>) -> Seq<char> {
    if text.len() > 0 && text[0] == '+' {
        text.subrange(1, text.len() as int)
    } else {
        text
    }
}

/// The number that a text denotes, where it denotes one that fits 32 bits:
/// the text is decimal digits, at least one, with or without a `+` before
/// them, and nothing else.
pub open spec fn parsed_count(text: Seq<char>) -> Option<int> {
    let digits = unsigned_part(text);
    if digits.len() > 0 && all_digits(digits) && digits_value(digits) <= u32::MAX {
        Some(digits_value(digits))
    } else {
        None
    }
}

/// The address of the page that shows a user's calendar.
pub fn profile_address(username: &str) -> (r: String)
    ensures
        r@ == "https://github.com/users/"@ + username@ + "/contributions"@,
{
    let mut address = String::new();
    append(&mut address, "https://github.com/users/");
    append(&mut address, username);
    append(&mut address, "/contributions");
    proof {
        assert(address@ =~= "https://github.com/users/"@ + username@ + "/contributions"@);
    }
    address
}

/// What one cell of the calendar gave: the text of its date and the text of
/// its number.
#[derive(Debug)]
pub struct Capture {
    pub date: String,
    pub value: String,
}

/// The texts of the captures, as pairs.
pub open spec fn texts_of(captures: Seq<Capture>) -> Seq<(Seq<char>, Seq<char>)> {
    captures.map_values(|capture: Capture| (capture.date@, capture.value@))
}

/// A shape in which the calendar's cells are known to be written.
#[derive(Clone, Copy, Debug, PartialEq, Eq, Structural)]
pub enum CellPattern {
    /// An element with a date and a level.
    DateLevel,
    /// A `rect` element with a date and a count.
    DateCount,
    /// A table cell of the calendar's class with a date and a level.
    TableCell,
}

impl CellPattern {
    /// The pattern as a regular expression with two groups: the date and the number.
    pub open spec fn expression_spec(self) -> Seq<char> {
        match self {
            CellPattern::DateLevel => r#"data-date="([0-9]{4}-[0-9]{2}-[0-9]{2})"[^>]*data-level="([0-9]+)"[^>]*>"#@,
            CellPattern::DateCount => r#"<rect[^>]*data-date="([0-9]{4}-[0-9]{2}-[0-9]{2})"[^>]*data-count="([0-9]+)"[^>]*>"#@,
            CellPattern::TableCell => r#"<td[^>]*data-date="([0-9]{4}-[0-9]{2}-[0-9]{2})"[^>]*class="ContributionCalendar-day"[^>]*data-level="([0-9]+)"[^>]*>"#@,
        }
    }

    /// Whether the pattern's number is a level, to be turned into a count.
    pub open spec fn reads_levels_spec(self) -> bool {
        self != CellPattern::DateCount
    }

    /// The pattern as a regular expression.
    pub fn expression(self) -> (r: &'static str)
        ensures
            r@ == self.expression_spec(),
    {
        match self {
            CellPattern::DateLevel => r#"data-date="([0-9]{4}-[0-9]{2}-[0-9]{2})"[^>]*data-level="([0-9]+)"[^>]*>"#,
            CellPattern::DateCount => r#"<rect[^>]*data-date="([0-9]{4}-[0-9]{2}-[0-9]{2})"[^>]*data-count="([0-9]+)"[^>]*>"#,
            CellPattern::TableCell => r#"<td[^>]*data-date="([0-9]{4}-[0-9]{2}-[0-9]{2})"[^>]*class="ContributionCalendar-day"[^>]*data-level="([0-9]+)"[^>]*>"#,
        }
    }

    /// Whether the pattern's number is a level.
    pub fn reads_levels(self) -> (r: bool)
        ensures
            r == self.reads_levels_spec(),
    {
        match self {
            CellPattern::DateLevel => true,
            CellPattern::DateCount => false,
            CellPattern::TableCell => true,
        }
    }
}

/// The known patterns in the order in which they are tried.
pub open spec fn known_pattern(place: int) -> CellPattern {
    if place <= 0 {
        CellPattern::DateLevel
    } else if place == 1 {
        CellPattern::DateCount
    } else {
        CellPattern::TableCell
    }
}

/// The number of known patterns.
pub const PATTERN_COUNT: usize = 3;

/// The known pattern at a place.
pub fn pattern_at(place: usize) -> (r: CellPattern)
    ensures
        r == known_pattern(place as int),
{
    if place == 0 {
        CellPattern::DateLevel
    } else if place == 1 {
        CellPattern::DateCount
    } else {
        CellPattern::TableCell
    }
}

/// Calls regex's `Regex::new`, then `Regex::captures_iter` on the text, and
/// takes groups 1 and 2 of each match by index. Trusted: the pairs are a
/// function of the pattern and the text alone, and there are no more of them
/// than the text has characters, since the matches do not overlap and none
/// of a known pattern is empty. The pattern is held to the known ones: each
/// of them compiles, and in each both groups take part in every match, so
/// that neither `unwrap` nor the index panics.
#[verifier::external_body]
fn find_captures(pattern: &str, text: &str) -> (r: Vec<Capture>)
    requires
        exists|place: int| 0 <= place < 3 && pattern@ == known_pattern(place).expression_spec(),
    ensures
        texts_of(r@) == pattern_captures(pattern@, text@),
        r@.len() <= text@.len(),
{
    regex::Regex::new(pattern)
        .unwrap()
        .captures_iter(text)
        .map(|found| Capture { date: found[1].to_string(), value: found[2].to_string() })
        .collect()
}

/// Calls std's `str::parse` for `u32`. Trusted: a text is read as a number
/// where it is decimal digits, at least one, after at most one `+`, and the
/// number fits 32 bits; every other text is refused.
#[verifier::external_body]
fn parse_count(text: &str) -> (r: Option<u32>)
    ensures
        r is Some <==> parsed_count(text@) is Some,
        r matches Some(n) ==> parsed_count(text@) == Some(n as int),
{
    text.parse::<u32>().ok()
}

/// The count that a level stands for: 0, 1, 4, 8 and 12 for the levels 0 to
/// 4, and the level itself above that.
pub open spec fn level_to_count_spec(level: int) -> int {
    if level <= 0 {
        0
    } else if level == 1 {
        1
    } else if level == 2 {
        4
    } else if level == 3 {
        8
    } else if level == 4 {
        12
    } else {
        level
    }
}

/// The count that a level stands for.
pub fn level_to_count(level: u32) -> (r: u32)
    ensures
        r as int == level_to_count_spec(level as int),
{
    match level {
        0 => 0,
        1 => 1,
        2 => 4,
        3 => 8,
        4 => 12,
        _ => level,
    }
}

/// The count of a cell whose number was read as `parsed`: a number that
/// could not be read counts as zero, and a level stands for its count.
pub open spec fn cell_count_spec(parsed: Option<int>, levels: bool) -> int {
    let number = match parsed {
        Some(n) => n,
        None => 0,
    };
    if levels {
        level_to_count_spec(number)
    } else {
        number
    }
}

/// The count of a cell whose number was read as `parsed`.
pub fn cell_count(parsed: Option<u32>, levels: bool) -> (r: u32)
    ensures
        r as int == cell_count_spec(
            match parsed {
                Some(n) => Some(n as int),
                None => None,
            },
            levels,
        ),
{
    let number: u32 = match parsed {
        Some(n) => n,
        None => 0,
    };
    if levels {
        level_to_count(number)
    } else {
        number
    }
}

/// What the captured texts give as readings: each date's text with the
/// count that its number stands for.
pub open spec fn readings_of(texts: Seq<(Seq<char>, Seq<char>)>, levels: bool) -> Seq<
    (Seq<char>, u32),
> {
    texts.map_values(
        |text: (Seq<char>, Seq<char>)| (text.0, cell_count_spec(parsed_count(text.1), levels) as u32),
    )
}

/// Turns captures into readings, one for one: the number of each is read
/// and, where it is a level, turned into a count.
pub fn readings_of_captures(captures: &Vec<Capture>, levels: bool) -> (readings: Vec<Reading>)
    ensures
        dated(readings@) == readings_of(texts_of(captures@), levels),
{
    let mut readings: Vec<Reading> = Vec::new();
    let mut i: usize = 0;
    while i < captures.len()
        invariant
            i <= captures@.len(),
            readings@.len() == i,
            forall|k: int|
                0 <= k < i ==> (#[trigger] readings@[k]).date@ == captures@[k].date@
                    && readings@[k].count as int == cell_count_spec(
                    parsed_count(captures@[k].value@),
                    levels,
                ),
        decreases captures@.len() - i,
    {
        let count = cell_count(parse_count(captures[i].value.as_str()), levels);
        readings.push(Reading { date: captures[i].date.clone(), count });
        i += 1;
    }
    proof {
        assert(dated(readings@) =~= readings_of(texts_of(captures@), levels));
    }
    readings
}

/// What the patterns from a place on read out of a markup: the records of
/// the first pattern that gives any, none where no pattern does, or the
/// text of the first date that is no date.
pub open spec fn scraped_from(markup: Seq<char>, place: int) -> Result<Seq<DayCount>, Seq<char>>
    decreases 3 - place,
{
    if place < 0 || place >= 3 {
        Ok(Seq::empty())
    } else {
        let pattern = known_pattern(place);
        let readings = readings_of(
            pattern_captures(pattern.expression_spec(), markup),
            pattern.reads_levels_spec(),
        );
        match first_bad_date(readings) {
            Some(i) => Err(readings[i].0),
            None => if readings.len() > 0 {
                Ok(collected(readings))
            } else {
                scraped_from(markup, place + 1)
            },
        }
    }
}

/// What the known patterns read out of a markup.
pub open spec fn scraped(markup: Seq<char>) -> Result<Seq<DayCount>, Seq<char>> {
    scraped_from(markup, 0)
}

/// What the pattern of dates and counts reads in a markup: for each cell
/// that it finds, the text of the date and the count.
pub open spec fn count_cells(markup: Seq<char>) -> Seq<(Seq<char>, u32)> {
    readings_of(pattern_captures(CellPattern::DateCount.expression_spec(), markup), false)
}

/// Where the pattern of dates and levels finds nothing in a markup, and
/// the pattern of dates and counts finds cells whose dates are all dates,
/// the records are those of that second pattern's cells. Where no two of
/// the cells are of the same day, there is one record for each cell, in the
/// cells' order: the cell's day with the cell's count.
pub proof fn lemma_count_pattern_is_used(markup: Seq<char>)
    requires
        pattern_captures(CellPattern::DateLevel.expression_spec(), markup).len() == 0,
        count_cells(markup).len() > 0,
        first_bad_date(count_cells(markup)) is None,
    ensures
        scraped(markup) == Ok::<Seq<DayCount>, Seq<char>>(collected(count_cells(markup))),
        count_cells(markup).len() == pattern_captures(
            CellPattern::DateCount.expression_spec(),
            markup,
        ).len(),
        distinct_dates(count_cells(markup)) ==> collected(count_cells(markup)).len()
            == count_cells(markup).len(),
        distinct_dates(count_cells(markup)) ==> forall|k: int|
            0 <= k < count_cells(markup).len() ==> Day::parse_spec(count_cells(markup)[k].0)
                == Some((#[trigger] collected(count_cells(markup))[k]).day) && collected(
                count_cells(markup),
            )[k].count == count_cells(markup)[k].1,
{
    reveal_with_fuel(scraped_from, 3);
    let first = readings_of(
        pattern_captures(CellPattern::DateLevel.expression_spec(), markup),
        true,
    );
    let second = count_cells(markup);
    assert(first.len() == 0);
    assert(first_bad_date(first) is None);
    assert(known_pattern(0) == CellPattern::DateLevel);
    assert(known_pattern(1) == CellPattern::DateCount);
    assert(scraped_from(markup, 0) == scraped_from(markup, 1));
    if distinct_dates(second) {
        lemma_collected_distinct(second);
    }
}

/// Reads the activity records out of a profile page's markup, trying the
/// known patterns in order and keeping what the first one with any match gives.
pub fn scrape(markup: &str) -> (r: Result<Contributions, GhHeatError>)
    ensures
        match scraped(markup@) {
            Ok(records) => r matches Ok(found) && found.wf() && found@ == records,
            Err(date) => r matches Err(GhHeatError::InvalidDate(text)) && text@ == date,
        },
        markup@.len() == 0 ==> (r matches Ok(found) && found@.len() == 0),
{
    let mut place: usize = 0;
    while place < PATTERN_COUNT
        invariant
            place <= 3,
            scraped(markup@) == scraped_from(markup@, place as int),
        decreases 3 - place,
    {
        let pattern = pattern_at(place);
        let captures = find_captures(pattern.expression(), markup);
        let readings = readings_of_captures(&captures, pattern.reads_levels());
        proof {
            assert(dated(readings@).len() == texts_of(captures@).len());
            lemma_first_bad_date(dated(readings@), 0);
            if first_bad_date(dated(readings@)) is None {
                lemma_collected_len(dated(readings@));
            }
        }
        match records_of_readings(&readings) {
            Ok(records) => {
                if !records.is_empty() {
                    return Ok(records);
                }
            },
            Err(failure) => {
                return Err(failure);
            },
        }
        place += 1;
    }
    Ok(Contributions::new())
}

} // verus!
