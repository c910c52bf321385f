//! The activity records of one user: at most one count for each day.

use crate::date::Day;
use vstd::prelude::*;

verus! {

/// One activity record: a day and the number of actions counted on it.
#[derive(Clone, Copy, Debug, PartialEq, Eq, Structural)]
pub struct DayCount {
    pub day: Day,
    pub count: u32,
}

/// No day occurs in two records.
pub open spec fn distinct_days(records: Seq<DayCount>) -> bool {
    forall|i: int, j: int|
        0 <= i < j < records.len() ==> (#[trigger] records[i]).day != (#[trigger] records[j]).day
}

/// Every record is of an accepted date.
pub open spec fn accepted_days(records: Seq<DayCount>) -> bool {
    forall|i: int| 0 <= i < records.len() ==> (#[trigger] records[i]).day.wf()
}

/// Whether some record is of the given day.
pub open spec fn has_day(records: Seq<DayCount>, day: Day) -> bool {
    exists|i: int| 0 <= i < records.len() && (#[trigger] records[i]).day == day
}

/// The place of the record of the given day, where there is one.
pub open spec fn position_of(records: Seq<DayCount>, day: Day) -> Option<int> {
    if has_day(records, day) {
        Some(choose|i: int| 0 <= i < records.len() && (#[trigger] records[i]).day == day)
    } else {
        None
    }
}

/// The count recorded for a day; a day without a record counts as zero.
pub open spec fn count_on(records: Seq<DayCount>, day: Day) -> int {
    match position_of(records, day) {
        Some(i) => records[i].count as int,
        None => 0,
    }
}

/// The records after a count is recorded for a day: a record of the same
/// day is replaced where it stands, a new day's record goes to the end.
pub open spec fn inserted(records: Seq<DayCount>, day: Day, count: u32) -> Seq<DayCount> {
    match position_of(records, day) {
        Some(i) => records.update(i, DayCount { day, count }),
        None => records.push(DayCount { day, count }),
    }
}

/// The sum of all counts.
pub open spec fn total_of(records: Seq<DayCount>) -> int
    decreases records.len(),
{
    if records.len() == 0 {
        0
    } else {
        total_of(records.drop_last()) + records.last().count
    }
}

/// The number of records with a count above zero.
pub open spec fn active_count(records: Seq<DayCount>) -> int
    decreases records.len(),
{
    if records.len() == 0 {
        0
    } else {
        active_count(records.drop_last()) + if records.last().count > 0 {
            1int
        } else {
            0int
        }
    }
}

/// Whether `peak` is the largest count, or zero where there is no record.
pub open spec fn is_peak(records: Seq<DayCount>, peak: int) -> bool {
    &&& forall|i: int| 0 <= i < records.len() ==> (#[trigger] records[i]).count <= peak
    &&& if records.len() == 0 {
        peak == 0
    } else {
        exists|i: int| 0 <= i < records.len() && (#[trigger] records[i]).count == peak
    }
}

/// Whether `day` is the earliest day of the records.
pub open spec fn is_earliest(records: Seq<DayCount>, day: Day) -> bool {
    &&& has_day(records, day)
    &&& forall|i: int| 0 <= i < records.len() ==> day.number <= (#[trigger] records[i]).day.number
}

/// Whether `day` is the latest day of the records.
pub open spec fn is_latest(records: Seq<DayCount>, day: Day) -> bool {
    &&& has_day(records, day)
    &&& forall|i: int| 0 <= i < records.len() ==> day.number >= (#[trigger] records[i]).day.number
}

/// In records of distinct days, the record at a place is the one found for its day.
pub proof fn lemma_position_of_index(records: Seq<DayCount>, i: int)
    requires
        distinct_days(records),
        0 <= i < records.len(),
    ensures
        position_of(records, records[i].day) == Some(i),
        count_on(records, records[i].day) == records[i].count,
{
    let day = records[i].day;
    assert(has_day(records, day));
    let j = choose|j: int| 0 <= j < records.len() && (#[trigger] records[j]).day == day;
    if j < i {
        assert(records[j].day != records[i].day);
    } else if i < j {
        assert(records[i].day != records[j].day);
    }
}

/// The days on which the records show any activity.
pub open spec fn active_day_set(records: Seq<DayCount>) -> Set<Day> {
    Set::new(|day: Day| count_on(records, day) > 0)
}

/// Dropping the last record changes the count of no other day, and leaves
/// the last record's own day without a count.
pub proof fn lemma_count_on_drop_last(records: Seq<DayCount>, day: Day)
    requires
        distinct_days(records),
        records.len() > 0,
    ensures
        distinct_days(records.drop_last()),
        day != records.last().day ==> count_on(records.drop_last(), day) == count_on(records, day),
        day == records.last().day ==> count_on(records.drop_last(), day) == 0 && count_on(
            records,
            day,
        ) == records.last().count,
{
    let front = records.drop_last();
    let end = records.len() - 1;
    assert forall|i: int, j: int| 0 <= i < j < front.len() implies (#[trigger] front[i]).day != (
    #[trigger] front[j]).day by {
        assert(records[i].day != records[j].day);
    }
    if day == records.last().day {
        lemma_position_of_index(records, end);
        if has_day(front, day) {
            let k = choose|k: int| 0 <= k < front.len() && (#[trigger] front[k]).day == day;
            assert(records[k].day != records[end].day);
        }
    } else {
        if has_day(front, day) {
            let k = choose|k: int| 0 <= k < front.len() && (#[trigger] front[k]).day == day;
            assert(records[k] == front[k]);
            lemma_position_of_index(front, k);
            lemma_position_of_index(records, k);
        } else if has_day(records, day) {
            let k = choose|k: int| 0 <= k < records.len() && (#[trigger] records[k]).day == day;
            assert(front[k] == records[k]);
        }
    }
}

/// The number of records with a count above zero is the number of days on
/// which the records show any activity.
pub proof fn lemma_active_count_is_day_count(records: Seq<DayCount>)
    requires
        distinct_days(records),
    ensures
        active_day_set(records).finite(),
        active_day_set(records).len() == active_count(records),
    decreases records.len(),
{
    if records.len() == 0 {
        assert(active_day_set(records) =~= Set::<Day>::empty());
    } else {
        let front = records.drop_last();
        let last = records.last();
        lemma_count_on_drop_last(records, last.day);
        lemma_active_count_is_day_count(front);
        assert forall|day: Day|
            active_day_set(records).contains(day) == (if last.count > 0 {
                active_day_set(front).insert(last.day)
            } else {
                active_day_set(front)
            }).contains(day) by {
            lemma_count_on_drop_last(records, day);
        }
        if last.count > 0 {
            assert(active_day_set(records) =~= active_day_set(front).insert(last.day));
            assert(!active_day_set(front).contains(last.day));
        } else {
            assert(active_day_set(records) =~= active_day_set(front));
        }
    }
}

/// The records of one user, in the order in which their days first came.
#[derive(Debug)]
pub struct Contributions {
    entries: Vec<DayCount>,
}

impl View for Contributions {
    type V = Seq<DayCount>;

    closed spec fn view(&self) -> Seq<DayCount> {
        self.entries@
    }
}

impl Contributions {
    /// Every record is of an accepted date, and no day has two records.
    pub open spec fn wf(&self) -> bool {
        distinct_days(self@) && accepted_days(self@)
    }

    /// No records.
    pub fn new() -> (r: Contributions)
        ensures
            r@ == Seq::<DayCount>::empty(),
            r.wf(),
    {
        Contributions { entries: Vec::new() }
    }

    /// The number of records.
    pub fn len(&self) -> (r: usize)
        ensures
            r == self@.len(),
    {
        self.entries.len()
    }

    /// Whether there is no record.
    pub fn is_empty(&self) -> (r: bool)
        ensures
            r == (self@.len() == 0),
    {
        self.entries.len() == 0
    }

    /// The record at a place.
    pub fn entry(&self, index: usize) -> (r: DayCount)
        requires
            index < self@.len(),
        ensures
            r == self@[index as int],
    {
        self.entries[index]
    }

    /// The place of the record of a day.
    fn find(&self, day: Day) -> (r: Option<usize>)
        requires
            distinct_days(self@),
        ensures
            r is Some <==> has_day(self@, day),
            r matches Some(i) ==> position_of(self@, day) == Some(i as int) && i < self@.len()
                && self@[i as int].day == day,
            r is None ==> position_of(self@, day) is None,
    {
        let mut i: usize = 0;
        while i < self.entries.len()
            invariant
                i <= self.entries.len(),
                distinct_days(self@),
                forall|k: int| 0 <= k < i ==> (#[trigger] self@[k]).day != day,
            decreases self.entries.len() - i,
        {
            if self.entries[i].day.number == day.number {
                proof {
                    lemma_position_of_index(self@, i as int);
                }
                return Some(i);
            }
            i += 1;
        }
        None
    }

    /// The count recorded for a day, where there is a record of it.
    pub fn get(&self, day: Day) -> (r: Option<u32>)
        requires
            self.wf(),
        ensures
            r is Some <==> has_day(self@, day),
            r matches Some(c) ==> c as int == count_on(self@, day),
    {
        match self.find(day) {
            Some(i) => Some(self.entries[i].count),
            None => None,
        }
    }

    /// The count to show for a day: what is recorded, or zero.
    pub fn count_for(&self, day: Day) -> (r: u32)
        requires
            self.wf(),
        ensures
            r as int == count_on(self@, day),
    {
        match self.find(day) {
            Some(i) => self.entries[i].count,
            None => 0,
        }
    }

    /// Records a count for a day. A record of the same day is replaced where
    /// it stands; a new day's record goes to the end.
    pub fn insert(&mut self, day: Day, count: u32)
        requires
            old(self).wf(),
            day.wf(),
        ensures
            final(self).wf(),
            final(self)@ == inserted(old(self)@, day, count),
            has_day(final(self)@, day),
            count_on(final(self)@, day) == count,
            forall|other: Day|
                other != day ==> has_day(final(self)@, other) == has_day(old(self)@, other)
                    && count_on(final(self)@, other) == count_on(old(self)@, other),
    {
        let found = self.find(day);
        let ghost before = self@;
        match found {
            Some(i) => {
                self.entries.set(i, DayCount { day, count });
            },
            None => {
                self.entries.push(DayCount { day, count });
            },
        }
        proof {
            let after = self@;
            let place: int = match found {
                Some(i) => i as int,
                None => before.len() as int,
            };
            assert(after[place] == DayCount { day, count });
            assert(distinct_days(after)) by {
                assert forall|i: int, j: int| 0 <= i < j < after.len() implies (#[trigger] after[i]).day
                    != (#[trigger] after[j]).day by {
                    if i != place && j != place {
                        assert(before[i].day != before[j].day);
                    } else if i == place {
                        assert(before[j].day != day);
                    } else {
                        assert(before[i].day != day);
                    }
                }
            }
            lemma_position_of_index(after, place);
            assert forall|other: Day| other != day implies has_day(after, other) == has_day(
                before,
                other,
            ) && count_on(after, other) == count_on(before, other) by {
                if has_day(before, other) {
                    let k = choose|k: int| 0 <= k < before.len() && (#[trigger] before[k]).day == other;
                    assert(after[k] == before[k]);
                    lemma_position_of_index(before, k);
                    lemma_position_of_index(after, k);
                }
                if has_day(after, other) {
                    let k = choose|k: int| 0 <= k < after.len() && (#[trigger] after[k]).day == other;
                    assert(k != place);
                    assert(after[k] == before[k]);
                    lemma_position_of_index(before, k);
                    lemma_position_of_index(after, k);
                }
            }
        }
    }

    /// The sum of all counts.
    pub fn total(&self) -> (r: u128)
        ensures
            r as int == total_of(self@),
    {
        let mut sum: u128 = 0;
        let mut i: usize = 0;
        while i < self.entries.len()
            invariant
                i <= self.entries.len(),
                sum as int == total_of(self@.take(i as int)),
                sum <= i * 0xFFFF_FFFF,
            decreases self.entries.len() - i,
        {
            proof {
                assert(self@.take(i + 1).drop_last() =~= self@.take(i as int));
                assert((i + 1) * 0xFFFF_FFFF == i * 0xFFFF_FFFF + 0xFFFF_FFFF) by (nonlinear_arith);
                assert(i * 0xFFFF_FFFF <= 0xFFFF_FFFF_FFFF_FFFF * 0xFFFF_FFFF) by (nonlinear_arith)
                    requires
                        i <= 0xFFFF_FFFF_FFFF_FFFF,
                ;
            }
            sum = sum + self.entries[i].count as u128;
            i += 1;
        }
        proof {
            assert(self@.take(i as int) =~= self@);
        }
        sum
    }

    /// The number of records with a count above zero.
    pub fn active(&self) -> (r: usize)
        ensures
            r as int == active_count(self@),
    {
        let mut active: usize = 0;
        let mut i: usize = 0;
        while i < self.entries.len()
            invariant
                i <= self.entries.len(),
                active as int == active_count(self@.take(i as int)),
                active <= i,
            decreases self.entries.len() - i,
        {
            proof {
                assert(self@.take(i + 1).drop_last() =~= self@.take(i as int));
            }
            if self.entries[i].count > 0 {
                active += 1;
            }
            i += 1;
        }
        proof {
            assert(self@.take(i as int) =~= self@);
        }
        active
    }

    /// The largest count, or zero where there is no record.
    pub fn peak(&self) -> (r: u32)
        ensures
            is_peak(self@, r as int),
    {
        let mut peak: u32 = 0;
        let mut i: usize = 0;
        while i < self.entries.len()
            invariant
                i <= self.entries.len(),
                is_peak(self@.take(i as int), peak as int),
            decreases self.entries.len() - i,
        {
            let ghost before = self@.take(i as int);
            let ghost after = self@.take(i + 1);
            let ghost old_peak = peak;
            if self.entries[i].count > peak {
                peak = self.entries[i].count;
            }
            proof {
                assert(after[i as int] == self@[i as int]);
                assert forall|k: int| 0 <= k < after.len() implies (#[trigger] after[k]).count
                    <= peak by {
                    if k < i {
                        assert(before[k].count <= old_peak);
                    }
                }
                if peak == old_peak && i > 0 {
                    let k = choose|k: int| 0 <= k < before.len() && (#[trigger] before[k]).count == old_peak;
                    assert(after[k].count == peak);
                } else {
                    assert(after[i as int].count == peak);
                }
            }
            i += 1;
        }
        proof {
            assert(self@.take(i as int) =~= self@);
        }
        peak
    }

    /// The earliest and the latest day of the records, where there is any.
    pub fn span(&self) -> (r: Option<(Day, Day)>)
        ensures
            r is Some <==> self@.len() > 0,
            r matches Some((first, last)) ==> is_earliest(self@, first) && is_latest(self@, last),
    {
        if self.entries.len() == 0 {
            return None;
        }
        let mut first: Day = self.entries[0].day;
        let mut last: Day = self.entries[0].day;
        let mut i: usize = 1;
        assert(self@[0].day == first);
        while i < self.entries.len()
            invariant
                1 <= i <= self.entries.len(),
                exists|k: int| 0 <= k < i && (#[trigger] self@[k]).day == first,
                exists|k: int| 0 <= k < i && (#[trigger] self@[k]).day == last,
                forall|k: int| 0 <= k < i ==> first.number <= (#[trigger] self@[k]).day.number,
                forall|k: int| 0 <= k < i ==> last.number >= (#[trigger] self@[k]).day.number,
            decreases self.entries.len() - i,
        {
            let day = self.entries[i].day;
            if day.number < first.number {
                first = day;
            }
            if day.number > last.number {
                last = day;
            }
            i += 1;
        }
        Some((first, last))
    }
}

} // verus!
