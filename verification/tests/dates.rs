use chrono::Datelike;
use gh_heat::date::{month_name, Day, DAY_NUMBER_LIMIT};

fn calendar(number: i32) -> chrono::NaiveDate {
    chrono::NaiveDate::from_num_days_from_ce_opt(number).unwrap()
}

#[test]
fn day_numbers_count_from_the_first_day_of_year_one() {
    assert_eq!(Day::parse("0001-01-01").unwrap().number, 1);
    assert_eq!(Day::parse("1970-01-01").unwrap().number, 719163);
    assert_eq!(Day::parse("2024-01-03").unwrap().number, 738888);
    assert_eq!(Day::parse("0000-01-01").unwrap().number, -365);
}

#[test]
fn parse_rejects_what_is_no_date() {
    assert!(Day::parse("2024-13-45").is_none());
    assert!(Day::parse("2023-02-29").is_none());
    assert!(Day::parse("").is_none());
    assert!(Day::parse("yesterday").is_none());
    assert!(Day::parse("2024-01-03T00:00:00").is_none());
}

#[test]
fn parse_rejects_dates_beyond_the_limit() {
    assert!(Day::parse("+262000-01-01").is_none());
    assert!(Day::parse("-262000-01-01").is_none());
    assert!(Day::parse("9999-12-31").is_some());
}

#[test]
fn from_parsed_keeps_numbers_within_the_limit() {
    assert_eq!(Day::from_parsed(Some(5)), Some(Day { number: 5 }));
    assert_eq!(Day::from_parsed(Some(DAY_NUMBER_LIMIT)), Some(Day { number: DAY_NUMBER_LIMIT }));
    assert_eq!(Day::from_parsed(Some(DAY_NUMBER_LIMIT + 1)), None);
    assert_eq!(Day::from_parsed(Some(-DAY_NUMBER_LIMIT - 1)), None);
    assert_eq!(Day::from_parsed(None), None);
}

#[test]
fn from_number_accepts_exactly_the_limit() {
    assert_eq!(Day::from_number(0), Some(Day { number: 0 }));
    assert_eq!(Day::from_number(-DAY_NUMBER_LIMIT), Some(Day { number: -DAY_NUMBER_LIMIT }));
    assert_eq!(Day::from_number(DAY_NUMBER_LIMIT + 1), None);
    assert_eq!(Day::from_number(i32::MIN), None);
}

#[test]
fn the_calendar_reaches_a_week_beyond_the_limit() {
    assert!(chrono::NaiveDate::from_num_days_from_ce_opt(DAY_NUMBER_LIMIT + 7).is_some());
    assert!(chrono::NaiveDate::from_num_days_from_ce_opt(-DAY_NUMBER_LIMIT - 7).is_some());
    assert_eq!(Day { number: DAY_NUMBER_LIMIT + 7 }.month(), calendar(DAY_NUMBER_LIMIT + 7).month());
    assert_eq!(Day { number: -DAY_NUMBER_LIMIT - 7 }.month(), calendar(-DAY_NUMBER_LIMIT - 7).month());
}

#[test]
fn weekday_agrees_with_the_calendar() {
    let mut starts = vec![-3000, 700_000, 738_000, DAY_NUMBER_LIMIT - 2993, -DAY_NUMBER_LIMIT - 7];
    while let Some(first) = starts.pop() {
        for number in first..first + 3000 {
            let day = Day { number };
            assert_eq!(day.weekday() as u32, calendar(number).weekday().num_days_from_sunday());
            assert_eq!(day.is_sunday(), calendar(number).weekday() == chrono::Weekday::Sun);
            assert_eq!(day.is_saturday(), calendar(number).weekday() == chrono::Weekday::Sat);
        }
    }
}

#[test]
fn weekday_of_known_days() {
    assert_eq!(Day { number: 738888 }.weekday(), 3);
    assert_eq!(Day { number: 738885 }.weekday(), 0);
    assert_eq!(Day { number: 738891 }.weekday(), 6);
    assert_eq!(Day { number: -365 }.weekday(), calendar(-365).weekday().num_days_from_sunday() as u8);
}

#[test]
fn month_of_known_days() {
    assert_eq!(Day { number: 738888 }.month(), 1);
    assert_eq!(Day { number: 738885 }.month(), 12);
    assert_eq!(Day { number: 738945 }.month(), 2);
    assert_eq!(Day { number: 738946 }.month(), 3);
}

#[test]
fn format_writes_year_month_and_day() {
    assert_eq!(Day { number: 738888 }.format(), "2024-01-03");
    assert_eq!(Day { number: 738945 }.format(), "2024-02-29");
    assert_eq!(Day { number: 1 }.format(), "0001-01-01");
}

#[test]
fn parse_and_format_are_inverse_on_a_year() {
    for number in 738886..738886 + 366 {
        let text = Day { number }.format();
        assert_eq!(Day::parse(&text), Some(Day { number }));
    }
}

#[test]
fn week_start_is_the_sunday_on_or_before() {
    assert_eq!(Day { number: 738888 }.week_start(), Day { number: 738885 });
    assert_eq!(Day { number: 738885 }.week_start(), Day { number: 738885 });
    assert_eq!(Day { number: 738891 }.week_start(), Day { number: 738885 });
    assert_eq!(Day { number: -3 }.week_start(), Day { number: -7 });
    assert_eq!(
        Day { number: -DAY_NUMBER_LIMIT }.week_start().weekday(),
        0
    );
}

#[test]
fn month_names_are_three_letters() {
    let names = ["Jan", "Feb", "Mar", "Apr", "May", "Jun", "Jul", "Aug", "Sep", "Oct", "Nov", "Dec"];
    for month in 1..=12u32 {
        assert_eq!(month_name(month), names[month as usize - 1]);
    }
    assert_eq!(month_name(0), "");
    assert_eq!(month_name(13), "");
}
