//! The week-by-week layout of a user's records.

use crate::date::{month_of_day_number, Day};
use crate::records::{
    active_count, count_on, is_earliest, is_latest, is_peak, total_of, Contributions,
    DayCount,
};
use vstd::prelude::*;

verus! {

/// Where a month's name stands above the grid: the number of Sundays that
/// came before it, and the month, 1 to 12.
#[derive(Clone, Copy, Debug, PartialEq, Eq, Structural)]
pub struct MonthLabel {
    pub position: usize,
    pub month: u32,
}

/// The number of Sundays among the days from `from` up to, not including, `to`.
pub open spec fn sundays_between(from: int, to: int) -> int {
    (to + 6) / 7 - (from + 6) / 7
}

/// The labels of the months that end within the days after `start` up to
/// `upto`: for each day on which the month differs from that of the day
/// before, the Sundays counted before that day, and the month that ended.
pub open spec fn month_changes(start: int, upto: int) -> Seq<MonthLabel>
    decreases upto - start,
{
    if upto <= start {
        Seq::empty()
    } else {
        let earlier = month_changes(start, upto - 1);
        if month_of_day_number(upto) != month_of_day_number(upto - 1) {
            earlier.push(
                MonthLabel {
                    position: sundays_between(start, upto) as usize,
                    month: month_of_day_number(upto - 1) as u32,
                },
            )
        } else {
            earlier
        }
    }
}

/// The labels above a grid from `start` to `end`: the months that end within
/// it, and last the month of `end`, with all the grid's Sundays before it.
pub open spec fn month_labels_of(start: int, end: int) -> Seq<MonthLabel> {
    month_changes(start, end).push(
        MonthLabel {
            position: sundays_between(start, end + 1) as usize,
            month: month_of_day_number(end) as u32,
        },
    )
}

/// The number of weeks of a grid from `start` to `end`.
pub open spec fn week_count_of(start: int, end: int) -> int {
    (end - start) / 7 + 1
}

/// The number of days in each week of a grid that begins on `start`: seven,
/// but for the one-day grid of a Saturday, whose week closes at once.
pub open spec fn week_length_of(start: int) -> int {
    if start % 7 == 6 {
        1
    } else {
        7
    }
}

/// Whether `grid` is the grid from `start` to `end`: its weeks follow one
/// another, and the days of each are successive days.
pub open spec fn is_grid(grid: Seq<Vec<Day>>, start: int, end: int) -> bool {
    &&& grid.len() == week_count_of(start, end)
    &&& forall|w: int| 0 <= w < grid.len() ==> (#[trigger] grid[w])@.len() == week_length_of(start)
    &&& forall|w: int, s: int|
        0 <= w < grid.len() && 0 <= s < week_length_of(start) ==> (#[trigger] grid[w]@[s]).number
            == start + 7 * w + s
}

/// The width of the border lines: the grid's width or the width of the line
/// of month names, whichever is larger.
pub open spec fn border_width_of(start: int, end: int) -> int {
    let grid_width = 4 + 2 * week_count_of(start, end);
    let label_width = 4 + 2 * sundays_between(start, end + 1) + 10;
    if grid_width >= label_width {
        grid_width
    } else {
        label_width
    }
}

/// The counts of a grid by weekday: row `k` holds, for each week that has a
/// day `k`, the count recorded on that day.
pub open spec fn is_rows(rows: Seq<Vec<u32>>, records: Seq<DayCount>, start: int, end: int) -> bool {
    &&& rows.len() == 7
    &&& forall|k: int|
        0 <= k < 7 ==> (#[trigger] rows[k])@.len() == if k < week_length_of(start) {
            week_count_of(start, end)
        } else {
            0
        }
    &&& forall|k: int, w: int|
        0 <= k < week_length_of(start) && 0 <= w < week_count_of(start, end) ==> (
        #[trigger] rows[k]@[w]) as int == count_on(records, Day { number: (start + 7 * w + k) as i32 })
}

/// The cell of a grid that begins on `start` in which the day with the
/// given number stands.
pub open spec fn cell_of(grid: Seq<Vec<Day>>, start: int, number: int) -> Day {
    grid[(number - start) / 7]@[(number - start) % 7]
}

/// For records that are not empty, the grid begins on the Sunday on or
/// before their earliest day, every week of it has seven days, and every
/// day from that Sunday to the latest day of the records stands in it, in
/// its week and at its weekday; the grid ends with the Saturday on or after
/// the latest day.
pub proof fn lemma_grid_covers_records(map: Heatmap, grid: Seq<Vec<Day>>, first: Day, last: Day)
    requires
        map.wf(),
        map.records().len() > 0,
        is_earliest(map.records(), first),
        is_latest(map.records(), last),
        is_grid(grid, map.start_spec().number as int, map.end_spec().number as int),
    ensures
        grid.len() >= 1,
        forall|w: int| 0 <= w < grid.len() ==> (#[trigger] grid[w])@.len() == 7,
        grid[0]@[0].number == first.week_start_spec(),
        grid[0]@[0].weekday_spec() == 0,
        first.number - 6 <= grid[0]@[0].number <= first.number,
        forall|number: int|
            first.week_start_spec() <= number <= last.number ==> 0 <= (number
                - first.week_start_spec()) / 7 < grid.len() && (#[trigger] cell_of(
                grid,
                first.week_start_spec(),
                number,
            )).number == number,
        last.number <= grid.last()@[6].number < last.number + 7,
        grid.last()@[6].weekday_spec() == 6,
{
    let records = map.records();
    let start = map.start_spec().number as int;
    let end = map.end_spec().number as int;
    let found = choose|found: Day| #[trigger]
        is_earliest(records, found) && map.start_spec().number == found.week_start_spec();
    let k = choose|k: int| 0 <= k < records.len() && (#[trigger] records[k]).day == found;
    let j = choose|j: int| 0 <= j < records.len() && (#[trigger] records[j]).day == first;
    assert(first.number == found.number);
    let m = choose|m: int| 0 <= m < records.len() && (#[trigger] records[m]).day == last;
    let n = choose|n: int| 0 <= n < records.len() && (#[trigger] records[n]).day == map.end_spec();
    assert(last.number == end);
    assert(grid[0]@[0].number == start + 7 * 0 + 0);
    assert forall|number: int| start <= number <= end implies 0 <= (number - start) / 7 < grid.len()
        && (#[trigger] cell_of(grid, start, number)).number == number by {
        let w = (number - start) / 7;
        let s = (number - start) % 7;
        assert(grid[w]@[s].number == start + 7 * w + s);
    }
    let w = grid.len() - 1;
    assert(grid[w]@[6].number == start + 7 * w + 6);
}

/// A user's records with the range of days that their grid shows.
#[derive(Debug)]
pub struct Heatmap {
    contributions: Contributions,
    start: Day,
    end: Day,
}

impl Heatmap {
    /// The records.
    pub closed spec fn records(&self) -> Seq<DayCount> {
        self.contributions@
    }

    /// The first day of the grid.
    pub closed spec fn start_spec(&self) -> Day {
        self.start
    }

    /// The last day of the range.
    pub closed spec fn end_spec(&self) -> Day {
        self.end
    }

    /// The records are well formed, and the range is theirs: from the Sunday
    /// on or before their earliest day to their latest day, or one single
    /// day where there is no record.
    pub open spec fn wf(&self) -> bool {
        &&& crate::records::distinct_days(self.records())
        &&& crate::records::accepted_days(self.records())
        &&& self.end_spec().wf()
        &&& self.start_spec().in_calendar()
        &&& self.start_spec().number <= self.end_spec().number
        &&& if self.records().len() == 0 {
            self.start_spec() == self.end_spec()
        } else {
            &&& is_latest(self.records(), self.end_spec())
            &&& self.start_spec().weekday_spec() == 0
            &&& exists|first: Day| #[trigger]
                is_earliest(self.records(), first) && self.start_spec().number
                    == first.week_start_spec()
        }
    }

    /// Lays the range over the records. Without records the range is the one
    /// day `today`.
    pub fn new(contributions: Contributions, today: Day) -> (r: Heatmap)
        requires
            contributions.wf(),
            today.wf(),
        ensures
            r.wf(),
            r.records() == contributions@,
            contributions@.len() == 0 ==> r.start_spec() == today && r.end_spec() == today,
    {
        match contributions.span() {
            Some((first, last)) => {
                proof {
                    let k = choose|k: int|
                        0 <= k < contributions@.len() && (#[trigger] contributions@[k]).day == first;
                    let j = choose|j: int|
                        0 <= j < contributions@.len() && (#[trigger] contributions@[j]).day == last;
                    assert(first.wf() && last.wf());
                    assert(first.number <= contributions@[j].day.number);
                }
                let start = first.week_start();
                Heatmap { contributions, start, end: last }
            },
            None => Heatmap { contributions, start: today, end: today },
        }
    }

    /// The first day of the grid.
    pub fn start(&self) -> (r: Day)
        ensures
            r == self.start_spec(),
    {
        self.start
    }

    /// The last day of the range.
    pub fn end(&self) -> (r: Day)
        ensures
            r == self.end_spec(),
    {
        self.end
    }

    /// The records.
    pub fn contributions(&self) -> (r: &Contributions)
        ensures
            r@ == self.records(),
    {
        &self.contributions
    }

    /// The sum of all counts.
    pub fn total_contributions(&self) -> (r: u128)
        ensures
            r as int == total_of(self.records()),
    {
        self.contributions.total()
    }

    /// The number of days with a count above zero.
    pub fn active_days(&self) -> (r: usize)
        ensures
            r as int == active_count(self.records()),
    {
        self.contributions.active()
    }

    /// The largest count of a single day, or zero without records.
    pub fn max_contributions_in_day(&self) -> (r: u32)
        ensures
            is_peak(self.records(), r as int),
    {
        self.contributions.peak()
    }

    /// The grid: week after week from the first day of the range, the last
    /// week filled up with the days that follow the range.
    pub fn create_grid(&self) -> (grid: Vec<Vec<Day>>)
        requires
            self.wf(),
        ensures
            is_grid(grid@, self.start_spec().number as int, self.end_spec().number as int),
    {
        let start = self.start;
        let end = self.end;
        let mut grid: Vec<Vec<Day>> = Vec::new();
        let mut week: Vec<Day> = Vec::new();
        if !start.is_sunday() {
            // Without records the range is one day, whatever its weekday.
            week.push(start);
            if !start.is_saturday() {
                complete_week(&mut week);
            }
            grid.push(week);
            return grid;
        }
        let mut current = start;
        while current.number <= end.number
            invariant
                start.number % 7 == 0,
                start.in_calendar(),
                end.wf(),
                start.number <= current.number <= end.number + 1,
                current.number == start.number + 7 * grid@.len() + week@.len(),
                week@.len() < 7,
                forall|s: int|
                    0 <= s < week@.len() ==> (#[trigger] week@[s]).number == start.number + 7
                        * grid@.len() + s,
                forall|w: int| 0 <= w < grid@.len() ==> (#[trigger] grid@[w])@.len() == 7,
                forall|w: int, s: int|
                    0 <= w < grid@.len() && 0 <= s < 7 ==> (#[trigger] grid@[w]@[s]).number
                        == start.number + 7 * w + s,
            decreases end.number + 1 - current.number,
        {
            week.push(current);
            if current.is_saturday() {
                grid.push(week);
                week = Vec::new();
            }
            current = Day { number: current.number + 1 };
        }
        if week.len() > 0 {
            complete_week(&mut week);
            grid.push(week);
        }
        grid
    }

    /// The labels of the months above the grid, from left to right.
    pub fn month_labels(&self) -> (labels: Vec<MonthLabel>)
        requires
            self.wf(),
        ensures
            labels@ == month_labels_of(
                self.start_spec().number as int,
                self.end_spec().number as int,
            ),
            forall|i: int|
                0 <= i < labels@.len() ==> (#[trigger] labels@[i]).position
                    <= self.end_spec().number - self.start_spec().number + 1,
    {
        let start = self.start;
        let end = self.end;
        let mut labels: Vec<MonthLabel> = Vec::new();
        let mut month: u32 = start.month();
        let mut position: usize = 0;
        let mut current = start;
        while current.number <= end.number
            invariant
                start.in_calendar(),
                end.wf(),
                start.number <= current.number <= end.number + 1,
                labels@ == month_changes(start.number as int, current.number - 1),
                month as int == month_of_day_number(
                    if current.number > start.number {
                        current.number - 1
                    } else {
                        start.number as int
                    },
                ),
                position as int == sundays_between(start.number as int, current.number as int),
                position <= current.number - start.number,
                forall|i: int| 0 <= i < labels@.len() ==> (#[trigger] labels@[i]).position <= position,
            decreases end.number + 1 - current.number,
        {
            let here = current.month();
            if here != month {
                labels.push(MonthLabel { position, month });
                month = here;
            }
            if current.is_sunday() {
                position += 1;
            }
            current = Day { number: current.number + 1 };
        }
        labels.push(MonthLabel { position, month });
        labels
    }

    /// The width of the border lines above and below the grid.
    pub fn border_width(&self) -> (r: usize)
        requires
            self.wf(),
        ensures
            r as int == border_width_of(
                self.start_spec().number as int,
                self.end_spec().number as int,
            ),
    {
        // 14_000_000 weeks lift every day number of the calendar above zero.
        let start: i64 = self.start.number as i64 + 98_000_000;
        let end: i64 = self.end.number as i64 + 98_000_000;
        let weeks: i64 = (end - start) / 7 + 1;
        let sundays: i64 = (end + 7) / 7 - (start + 6) / 7;
        let grid_width: i64 = 4 + 2 * weeks;
        let label_width: i64 = 4 + 2 * sundays + 10;
        if grid_width >= label_width {
            grid_width as usize
        } else {
            label_width as usize
        }
    }

    /// The counts to show, by weekday: one row for each day of the week, and
    /// in it one count for each week.
    pub fn counts_by_weekday(&self) -> (rows: Vec<Vec<u32>>)
        requires
            self.wf(),
        ensures
            is_rows(
                rows@,
                self.records(),
                self.start_spec().number as int,
                self.end_spec().number as int,
            ),
    {
        let grid = self.create_grid();
        let ghost start = self.start.number as int;
        let ghost end = self.end.number as int;
        let mut rows: Vec<Vec<u32>> = Vec::new();
        let mut k: usize = 0;
        while k < 7
            invariant
                k <= 7,
                self.wf(),
                start == self.start_spec().number,
                end == self.end_spec().number,
                is_grid(grid@, start, end),
                rows@.len() == k,
                forall|j: int|
                    0 <= j < k ==> (#[trigger] rows@[j])@.len() == if j < week_length_of(start) {
                        week_count_of(start, end)
                    } else {
                        0
                    },
                forall|j: int, w: int|
                    0 <= j < k && j < week_length_of(start) && 0 <= w < week_count_of(start, end)
                        ==> (#[trigger] rows@[j]@[w]) as int == count_on(
                        self.records(),
                        Day { number: (start + 7 * w + j) as i32 },
                    ),
            decreases 7 - k,
        {
            let mut row: Vec<u32> = Vec::new();
            let mut w: usize = 0;
            while w < grid.len()
                invariant
                    k < 7,
                    w <= grid@.len(),
                    self.wf(),
                    start == self.start_spec().number,
                    end == self.end_spec().number,
                    is_grid(grid@, start, end),
                    row@.len() == if (k as int) < week_length_of(start) {
                        w as int
                    } else {
                        0
                    },
                    forall|v: int|
                        0 <= v < w && (k as int) < week_length_of(start) ==> (#[trigger] row@[v]) as int
                            == count_on(
                            self.records(),
                            Day { number: (start + 7 * v + k) as i32 },
                        ),
                decreases grid@.len() - w,
            {
                assert(grid@[w as int]@.len() == week_length_of(start));
                if k < grid[w].len() {
                    let day = grid[w][k];
                    assert(grid@[w as int]@[k as int].number == start + 7 * w + k);
                    row.push(self.contributions.count_for(day));
                }
                w += 1;
            }
            rows.push(row);
            k += 1;
        }
        rows
    }
}

/// Fills a week up to seven days with the days that follow its last.
fn complete_week(week: &mut Vec<Day>)
    requires
        0 < old(week)@.len() <= 7,
        old(week)@.last().in_calendar(),
        old(week)@.last().number + 7 - old(week)@.len() <= i32::MAX,
        forall|s: int|
            0 <= s < old(week)@.len() ==> (#[trigger] old(week)@[s]).number == old(week)@[0].number
                + s,
    ensures
        final(week)@.len() == 7,
        forall|s: int| 0 <= s < 7 ==> (#[trigger] final(week)@[s]).number == old(week)@[0].number + s,
{
    let ghost first = week@[0].number;
    while week.len() < 7
        invariant
            0 < week@.len() <= 7,
            first + 6 <= i32::MAX,
            forall|s: int| 0 <= s < week@.len() ==> (#[trigger] week@[s]).number == first + s,
        decreases 7 - week@.len(),
    {
        let last = week[week.len() - 1];
        week.push(Day { number: last.number + 1 });
    }
}

} // verus!
