use gh_heat::date::Day;
use gh_heat::heatmap::{Heatmap, MonthLabel};
use gh_heat::records::{Contributions, DayCount};
use gh_heat::render::{
    border_line, draw_cells, header_line, label_gaps, line_of, range_message, weekday_label,
};
use gh_heat::cell::RenderMode;

fn day(text: &str) -> Day {
    Day::parse(text).unwrap()
}

fn records(entries: &[(&str, u32)]) -> Contributions {
    let mut all = Contributions::new();
    for (date, count) in entries {
        all.insert(day(date), *count);
    }
    all
}

#[test]
fn insert_replaces_the_record_of_a_day() {
    let mut all = Contributions::new();
    assert!(all.is_empty());
    all.insert(day("2024-01-03"), 3);
    all.insert(day("2024-01-05"), 5);
    all.insert(day("2024-01-03"), 9);
    assert_eq!(all.len(), 2);
    assert_eq!(all.entry(0), DayCount { day: day("2024-01-03"), count: 9 });
    assert_eq!(all.entry(1), DayCount { day: day("2024-01-05"), count: 5 });
    assert_eq!(all.get(day("2024-01-03")), Some(9));
    assert_eq!(all.get(day("2024-01-04")), None);
    assert_eq!(all.count_for(day("2024-01-04")), 0);
    assert_eq!(all.count_for(day("2024-01-05")), 5);
}

#[test]
fn span_is_earliest_and_latest() {
    assert_eq!(Contributions::new().span(), None);
    let all = records(&[("2024-01-05", 1), ("2023-06-16", 2), ("2024-02-11", 0)]);
    assert_eq!(all.span(), Some((day("2023-06-16"), day("2024-02-11"))));
}

#[test]
fn summary_of_a_week() {
    let all = records(&[
        ("2024-01-01", 0),
        ("2024-01-02", 1),
        ("2024-01-03", 4),
        ("2024-01-04", 8),
        ("2024-01-05", 12),
        ("2024-01-06", 0),
        ("2024-01-07", 1),
    ]);
    let map = Heatmap::new(all, day("2024-06-15"));
    assert_eq!(map.total_contributions(), 26);
    assert_eq!(map.active_days(), 5);
    assert_eq!(map.max_contributions_in_day(), 12);
    let average = map.total_contributions() as f64 / map.active_days() as f64;
    assert!((average - 5.2).abs() < 1e-9);
}

#[test]
fn summary_without_records() {
    let map = Heatmap::new(Contributions::new(), day("2024-06-15"));
    assert_eq!(map.total_contributions(), 0);
    assert_eq!(map.active_days(), 0);
    assert_eq!(map.max_contributions_in_day(), 0);
}

#[test]
fn total_does_not_wrap() {
    let all = records(&[("2024-01-01", u32::MAX), ("2024-01-02", u32::MAX), ("2024-01-03", 2)]);
    assert_eq!(all.total(), 2 * (u32::MAX as u128) + 2);
    assert_eq!(all.active(), 3);
    assert_eq!(all.peak(), u32::MAX);
}

#[test]
fn range_starts_on_the_sunday_before_the_earliest_day() {
    let map = Heatmap::new(records(&[("2024-02-11", 7), ("2024-01-03", 3)]), day("2024-06-15"));
    assert_eq!(map.start(), day("2023-12-31"));
    assert_eq!(map.end(), day("2024-02-11"));
    assert_eq!(map.start().weekday(), 0);
    assert_eq!(map.contributions().len(), 2);
}

#[test]
fn range_of_a_sunday_starts_on_it() {
    let map = Heatmap::new(records(&[("2024-01-07", 1)]), day("2024-06-15"));
    assert_eq!(map.start(), day("2024-01-07"));
    assert_eq!(map.end(), day("2024-01-07"));
}

#[test]
fn grid_covers_the_range_in_whole_weeks() {
    let map = Heatmap::new(records(&[("2024-02-11", 7), ("2024-01-03", 3)]), day("2024-06-15"));
    let grid = map.create_grid();
    assert_eq!(grid.len(), 7);
    let mut expected = 738885;
    for week in &grid {
        assert_eq!(week.len(), 7);
        assert_eq!(week[0].weekday(), 0);
        for cell in week {
            assert_eq!(cell.number, expected);
            expected += 1;
        }
    }
    assert_eq!(grid[6][0], day("2024-02-11"));
    assert_eq!(grid[6][6].number, 738933);
}

#[test]
fn single_record_still_gives_a_full_week() {
    let map = Heatmap::new(records(&[("2024-01-03", 3)]), day("2024-06-15"));
    let grid = map.create_grid();
    assert_eq!(grid.len(), 1);
    let numbers: Vec<i32> = grid[0].iter().map(|d| d.number).collect();
    assert_eq!(numbers, vec![738885, 738886, 738887, 738888, 738889, 738890, 738891]);
}

#[test]
fn range_ending_on_a_saturday_needs_no_padding() {
    let map = Heatmap::new(records(&[("2024-01-01", 1), ("2024-01-06", 2)]), day("2024-06-15"));
    let grid = map.create_grid();
    assert_eq!(grid.len(), 1);
    assert_eq!(grid[0].len(), 7);
    assert_eq!(grid[0][6], day("2024-01-06"));
}

#[test]
fn no_records_give_one_week_from_today() {
    let map = Heatmap::new(Contributions::new(), day("2024-01-03"));
    assert_eq!(map.start(), day("2024-01-03"));
    assert_eq!(map.end(), day("2024-01-03"));
    let grid = map.create_grid();
    assert_eq!(grid.len(), 1);
    let numbers: Vec<i32> = grid[0].iter().map(|d| d.number).collect();
    assert_eq!(numbers, vec![738888, 738889, 738890, 738891, 738892, 738893, 738894]);
    assert_eq!(map.month_labels(), vec![MonthLabel { position: 0, month: 1 }]);
    assert_eq!(map.border_width(), 14);
}

#[test]
fn no_records_on_a_saturday_give_a_week_of_one_day() {
    let map = Heatmap::new(Contributions::new(), day("2024-01-06"));
    let grid = map.create_grid();
    assert_eq!(grid, vec![vec![day("2024-01-06")]]);
    let rows = map.counts_by_weekday();
    assert_eq!(rows.len(), 7);
    assert_eq!(rows[0], vec![0]);
    for k in 1..7 {
        assert!(rows[k].is_empty());
    }
}

#[test]
fn no_records_on_a_sunday_count_that_sunday() {
    let map = Heatmap::new(Contributions::new(), day("2024-01-07"));
    assert_eq!(map.create_grid().len(), 1);
    assert_eq!(map.month_labels(), vec![MonthLabel { position: 1, month: 1 }]);
    assert_eq!(map.border_width(), 16);
}

#[test]
fn month_labels_stand_where_a_month_ends() {
    let map = Heatmap::new(records(&[("2024-02-11", 7), ("2024-01-03", 3)]), day("2024-06-15"));
    assert_eq!(
        map.month_labels(),
        vec![
            MonthLabel { position: 1, month: 12 },
            MonthLabel { position: 5, month: 1 },
            MonthLabel { position: 7, month: 2 },
        ]
    );
    assert_eq!(map.border_width(), 28);
}

#[test]
fn border_is_as_wide_as_a_long_grid() {
    let map = Heatmap::new(records(&[("2023-06-16", 1), ("2024-06-15", 2)]), day("2024-06-15"));
    let weeks = map.create_grid().len();
    assert_eq!(weeks, 53);
    let last = *map.month_labels().last().unwrap();
    assert_eq!(last, MonthLabel { position: 53, month: 6 });
    assert_eq!(map.border_width(), 4 + 2 * 53 + 10);
}

#[test]
fn counts_by_weekday_follow_the_grid() {
    let map = Heatmap::new(records(&[("2024-02-11", 7), ("2024-01-03", 3)]), day("2024-06-15"));
    let rows = map.counts_by_weekday();
    assert_eq!(rows.len(), 7);
    for row in &rows {
        assert_eq!(row.len(), 7);
    }
    assert_eq!(rows[3][0], 3);
    assert_eq!(rows[0][6], 7);
    let sum: u32 = rows.iter().map(|row| row.iter().sum::<u32>()).sum();
    assert_eq!(sum, 10);
}

#[test]
fn label_gaps_put_each_name_at_its_column() {
    let labels = vec![
        MonthLabel { position: 1, month: 12 },
        MonthLabel { position: 5, month: 1 },
        MonthLabel { position: 7, month: 2 },
    ];
    assert_eq!(label_gaps(&labels), vec![Some(2), Some(5), Some(1)]);
}

#[test]
fn label_gaps_leave_out_a_name_that_would_overlap() {
    let labels = vec![
        MonthLabel { position: 0, month: 1 },
        MonthLabel { position: 1, month: 2 },
        MonthLabel { position: 2, month: 3 },
    ];
    assert_eq!(label_gaps(&labels), vec![Some(0), None, Some(1)]);
    assert_eq!(label_gaps(&Vec::new()), Vec::<Option<usize>>::new());
}

#[test]
fn weekday_rows_name_every_other_day() {
    let labels = ["    ", "Mon ", "    ", "Wed ", "    ", "Fri ", "    "];
    for row in 0..7 {
        assert_eq!(weekday_label(row), labels[row]);
    }
}

#[test]
fn render_lays_out_every_part() {
    let map = Heatmap::new(records(&[("2024-02-11", 7), ("2024-01-03", 3)]), day("2024-06-15"));
    let drawn = map.render(true, false, false);
    assert_eq!(drawn.mode, RenderMode::DarkBlocks);
    assert_eq!(drawn.month_labels, map.month_labels());
    assert_eq!(drawn.header, "      Dec     Jan Feb");
    assert_eq!(drawn.top_border, format!("{}  2023-12-31-2024-02-11", "=".repeat(28)));
    assert_eq!(drawn.bottom_border, "=".repeat(28));
    assert_eq!(drawn.rows, map.counts_by_weekday());
    assert_eq!(drawn.key.len(), 6);
    assert_eq!(drawn.cells.len(), 7);
    assert_eq!(drawn.lines.len(), 7);
    for k in 0..7 {
        assert_eq!(drawn.cells[k].len(), 7);
        assert_eq!(drawn.lines[k], format!("{}{}", weekday_label(k), drawn.cells[k].concat()));
    }
    assert_eq!(drawn.key_cells.len(), 6);
    assert_eq!(drawn.key_line, Some(format!("  Less {} More", drawn.key_cells.concat())));
    let numbers = map.render(true, true, true);
    assert_eq!(numbers.mode, RenderMode::Numbers);
    assert!(numbers.key.is_empty());
    assert!(numbers.key_line.is_none());
    assert_eq!(
        numbers.lines,
        vec![
            "     0 0 0 0 0 0 7",
            "Mon  0 0 0 0 0 0 0",
            "     0 0 0 0 0 0 0",
            "Wed  3 0 0 0 0 0 0",
            "     0 0 0 0 0 0 0",
            "Fri  0 0 0 0 0 0 0",
            "     0 0 0 0 0 0 0",
        ]
    );
}

#[test]
fn line_of_writes_the_cells_one_after_the_other() {
    let cells = vec!["ab".to_string(), "".to_string(), "cd".to_string()];
    assert_eq!(line_of("<", &cells, ">"), "<abcd>");
    assert_eq!(line_of("Mon ", &Vec::new(), ""), "Mon ");
}

#[test]
fn number_cells_are_the_counts() {
    assert_eq!(draw_cells(&vec![0, 12, 5, 100], RenderMode::Numbers), vec![" 0", "12", " 5", "100"]);
    assert_eq!(draw_cells(&vec![0, 12, 5], RenderMode::Symbols).len(), 3);
    assert!(draw_cells(&Vec::new(), RenderMode::DarkBlocks).is_empty());
}

#[test]
fn header_line_names_the_months_at_their_columns() {
    let labels = vec![
        MonthLabel { position: 1, month: 12 },
        MonthLabel { position: 5, month: 1 },
        MonthLabel { position: 7, month: 2 },
    ];
    assert_eq!(header_line(&labels), "      Dec     Jan Feb");
    assert_eq!(header_line(&Vec::new()), "    ");
    let crowded = vec![
        MonthLabel { position: 0, month: 1 },
        MonthLabel { position: 1, month: 2 },
        MonthLabel { position: 2, month: 3 },
    ];
    assert_eq!(header_line(&crowded), "    Jan Mar");
}

#[test]
fn border_line_is_as_wide_as_asked() {
    assert_eq!(border_line(0, ""), "");
    assert_eq!(border_line(3, ""), "===");
    assert_eq!(border_line(5, "  note"), "=====  note");
}

#[test]
fn range_message_names_both_ends() {
    assert_eq!(range_message(day("2023-12-31"), day("2024-02-11")), "  2023-12-31-2024-02-11");
}
