use bentolife_core::habits::{current_streak, day_number, habit_entity_fields, habit_record_fields, validate_local_date};

#[test]
fn rejects_invalid_checkin_dates() {
    assert!(validate_local_date("2026-02-29").is_err());
    assert!(validate_local_date("2024-02-29").is_ok());
    assert!(validate_local_date("06/03/2026").is_err());
}

#[test]
fn day_numbers_count_from_the_unix_epoch() {
    assert_eq!(day_number("1970-01-01"), Ok(0));
    assert_eq!(day_number("1970-01-02"), Ok(1));
    assert_eq!(day_number("2000-03-01"), Ok(11017));
    assert_eq!(day_number("1969-12-31"), Ok(-1));
    assert_eq!(day_number("2024-02-29").unwrap() + 1, day_number("2024-03-01").unwrap());
    assert_eq!(day_number("2026-13-01").err().as_deref(), Some("Habit check-in date is not a valid calendar date."));
    assert_eq!(day_number("20x6-01-01").err().as_deref(), Some("Habit check-in year must be numeric."));
    assert_eq!(day_number("2026-1-01").err().as_deref(), Some("Habit check-in dates must use YYYY-MM-DD."));
}

#[test]
fn streaks_count_back_from_the_summary_date_or_latest_checkin() {
    let checkins: Vec<String> = ["2026-06-01", "2026-06-02", "2026-06-03", "2026-06-05", "bad"]
        .iter()
        .map(|s| s.to_string())
        .collect();
    assert_eq!(current_streak(&checkins, Some("2026-06-03")), 3);
    assert_eq!(current_streak(&checkins, Some("2026-06-04")), 0);
    assert_eq!(current_streak(&checkins, None), 1);
    assert_eq!(current_streak(&checkins, Some("not a date")), 1);
    assert_eq!(current_streak(&Vec::new(), Some("2026-06-03")), 0);
}

fn lines(s: &str) -> Vec<Vec<char>> {
    s.lines().map(|l| l.chars().collect()).collect()
}

#[test]
fn reads_habit_records_and_entities() {
    let ls = lines("## Read\n- Frequency: Daily\n- Tags: books,  focus ,\n- Mood: good\n### Check-ins\n- 2026-06-02\n- 2026-06-01\n- 2026-06-02\n- someday\n");
    let f = habit_record_fields(&ls, 0, ls.len(), "modules/habits/INDEX.md").expect("habit");
    assert_eq!(f.name, "Read");
    assert_eq!(f.frequency.as_deref(), Some("Daily"));
    assert_eq!(f.tags, vec!["books".to_string(), "focus".to_string()]);
    assert_eq!(f.checkins, vec!["2026-06-01".to_string(), "2026-06-02".to_string()]);
    assert_eq!(f.warnings.len(), 2);
    assert!(f.warnings[0].contains("unknown habit field 'mood'"));
    assert!(f.warnings[1].contains("invalid habit check-in date 'someday'"));

    let e = habit_entity_fields("# Walk\n\n## Notes\nEvery evening.\n\n## Check-ins\n- 2026-06-03\n", "modules/habits/data/walk.md")
        .expect("entity");
    assert_eq!(e.name, "Walk");
    assert_eq!(e.notes.as_deref(), Some("Every evening."));
    assert_eq!(e.checkins, vec!["2026-06-03".to_string()]);
    assert!(habit_entity_fields("no heading\n", "x.md").is_none());
}
