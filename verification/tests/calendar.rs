use skylineg::calendar::{flatten_contributions, Contribution, ContributionDay, ContributionWeek};
use skylineg::errors::FetchError;

fn day(date: &str, count: i64, color: &str) -> ContributionDay {
    ContributionDay {
        date: date.to_string(),
        count,
        color: color.to_string(),
    }
}

fn week_of(days: Vec<ContributionDay>) -> ContributionWeek {
    ContributionWeek { days }
}

fn uniform_week(len: usize, count: i64) -> ContributionWeek {
    let mut days = Vec::new();
    for i in 0..len {
        days.push(day(&format!("2020-01-{:02}", i + 1), count, "#ebedf0"));
    }
    ContributionWeek { days }
}

fn positions(records: &[Contribution]) -> Vec<(u32, u32)> {
    records.iter().map(|r| (r.week, r.day)).collect()
}

#[test]
fn no_user_fails() {
    assert_eq!(
        flatten_contributions(None),
        Err(FetchError::NoUserFound)
    );
}

#[test]
fn empty_calendar_is_valid() {
    let records = flatten_contributions(Some(Vec::new())).unwrap();
    assert!(records.is_empty());
}

#[test]
fn two_weeks_of_seven_zero_days() {
    let weeks = vec![uniform_week(7, 0), uniform_week(7, 0)];
    let records = flatten_contributions(Some(weeks)).unwrap();
    assert_eq!(records.len(), 14);
    let expected: Vec<(u32, u32)> = (0..2u32)
        .flat_map(|w| (0..7u32).map(move |d| (w, d)))
        .collect();
    assert_eq!(positions(&records), expected);
    assert!(records.iter().all(|r| r.count == 0));
}

#[test]
fn counts_and_colors_copied_verbatim() {
    let weeks = vec![week_of(vec![
        day("2020-01-01", 5, "#216e39"),
        day("2020-01-02", 0, "#ebedf0"),
    ])];
    let records = flatten_contributions(Some(weeks)).unwrap();
    assert_eq!(records.len(), 2);
    assert_eq!(records[0].count, 5);
    assert_eq!(records[0].color, "#216e39");
    assert_eq!(records[1].count, 0);
    assert_eq!(records[1].color, "#ebedf0");
}

#[test]
fn order_skips_empty_week() {
    let weeks = vec![
        week_of(vec![day("2020-01-01", 1, "#aaa"), day("2020-01-02", 2, "#bbb")]),
        week_of(Vec::new()),
        week_of(vec![day("2020-01-15", 3, "#ccc")]),
    ];
    let records = flatten_contributions(Some(weeks)).unwrap();
    assert_eq!(positions(&records), vec![(0, 0), (0, 1), (2, 0)]);
}

#[test]
fn seven_day_week_is_accepted() {
    let weeks = vec![uniform_week(7, 1)];
    let records = flatten_contributions(Some(weeks)).unwrap();
    assert_eq!(records.len(), 7);
}

#[test]
fn eighth_day_fails_with_invalid_day() {
    let mut days = Vec::new();
    for i in 0..9 {
        days.push(day(&format!("2020-02-{:02}", i + 1), 1, "#ccc"));
    }
    let err = flatten_contributions(Some(vec![week_of(days)])).unwrap_err();
    assert_eq!(
        err,
        FetchError::InvalidDay {
            day: 8,
            date: "2020-02-08".to_string(),
        }
    );
}

#[test]
fn day_overflow_names_first_offending_week() {
    let weeks = vec![uniform_week(7, 0), uniform_week(8, 0), uniform_week(9, 0)];
    let err = flatten_contributions(Some(weeks)).unwrap_err();
    assert_eq!(
        err,
        FetchError::InvalidDay {
            day: 8,
            date: "2020-01-08".to_string(),
        }
    );
}

#[test]
fn fifty_three_weeks_are_accepted() {
    let weeks: Vec<ContributionWeek> = (0..53).map(|_| uniform_week(1, 0)).collect();
    let records = flatten_contributions(Some(weeks)).unwrap();
    assert_eq!(records.len(), 53);
}

#[test]
fn fifty_fourth_week_fails_with_invalid_week() {
    let weeks: Vec<ContributionWeek> = (0..54).map(|_| uniform_week(1, 0)).collect();
    let err = flatten_contributions(Some(weeks)).unwrap_err();
    assert_eq!(err, FetchError::InvalidWeek { week: 54 });
}

#[test]
fn many_weeks_fail_with_invalid_week() {
    let weeks: Vec<ContributionWeek> = (0..60).map(|_| uniform_week(2, 0)).collect();
    let err = flatten_contributions(Some(weeks)).unwrap_err();
    assert_eq!(err, FetchError::InvalidWeek { week: 54 });
}

#[test]
fn day_overflow_beats_week_overflow() {
    let mut weeks: Vec<ContributionWeek> = (0..60).map(|_| uniform_week(1, 0)).collect();
    weeks[10] = uniform_week(8, 0);
    let err = flatten_contributions(Some(weeks)).unwrap_err();
    assert_eq!(
        err,
        FetchError::InvalidDay {
            day: 8,
            date: "2020-01-08".to_string(),
        }
    );
}

#[test]
fn day_overflow_past_scanned_weeks_is_never_reached() {
    let mut weeks: Vec<ContributionWeek> = (0..60).map(|_| uniform_week(1, 0)).collect();
    weeks[55] = uniform_week(9, 0);
    let err = flatten_contributions(Some(weeks)).unwrap_err();
    assert_eq!(err, FetchError::InvalidWeek { week: 54 });
}
