//! Tests for the pure engine pieces: calendar arithmetic, tag
//! normalization, recurrence, and the rollover decision.

use dayrally::dates::{format_date, parse_date, parse_time, Date};
use dayrally::model::{
    normalize_input, normalize_optional_text, normalize_relationship, normalize_reminder_state,
    plan_note_image, workspace_from_settings, Settings, TaskInput,
};
use dayrally::recurrence::{next_occurrence, RecurrenceRule, WeekdayRule};
use dayrally::rollover::should_rollover;
use dayrally::tags::{normalize_tags, normalize_task_tags, parse_tags, trim_text};

fn ymd(y: i64, m: i64, d: i64) -> Date {
    Date { year: y, month: m, day: d }
}

#[test]
fn daily_next_occurrence() {
    let rule = RecurrenceRule::Daily { interval: 1 };
    let start = ymd(2026, 2, 6);
    assert_eq!(next_occurrence(&rule, start), ymd(2026, 2, 7));
}

#[test]
fn weekly_with_weekdays() {
    let rule = RecurrenceRule::Weekly {
        interval: 1,
        weekdays: Some(vec![WeekdayRule::Mon, WeekdayRule::Wed]),
    };
    let start = ymd(2026, 2, 6);
    let next = next_occurrence(&rule, start);
    let wd = dayrally::dates::weekday_index(&next);
    assert!(wd == 0 || wd == 2);
}

#[test]
fn monthly_clamps_to_end_of_month() {
    let rule = RecurrenceRule::Monthly { interval: 1 };
    let start = ymd(2026, 1, 31);
    let next = next_occurrence(&rule, start);
    assert_eq!(next.month, 2);
}

#[test]
fn rollover_for_past_todo() {
    let today = ymd(2026, 2, 6);
    let should = should_rollover("2026-02-05", "todo", today).unwrap();
    assert!(should);
}

#[test]
fn no_rollover_for_done() {
    let today = ymd(2026, 2, 6);
    let should = should_rollover("2026-02-05", "done", today).unwrap();
    assert!(!should);
}

#[test]
fn monthly_january_thirty_first_lands_on_february_twenty_eighth() {
    let rule = RecurrenceRule::Monthly { interval: 1 };
    assert_eq!(next_occurrence(&rule, ymd(2026, 1, 31)), ymd(2026, 2, 28));
}

#[test]
fn monthly_clamps_to_leap_day() {
    let rule = RecurrenceRule::Monthly { interval: 1 };
    assert_eq!(next_occurrence(&rule, ymd(2024, 1, 31)), ymd(2024, 2, 29));
}

#[test]
fn weekly_from_friday_picks_the_next_monday() {
    let rule = RecurrenceRule::Weekly {
        interval: 1,
        weekdays: Some(vec![WeekdayRule::Mon, WeekdayRule::Wed]),
    };
    // 2026-02-06 is a Friday; the next allowed weekday is Monday the 9th
    assert_eq!(dayrally::dates::weekday_index(&ymd(2026, 2, 6)), 4);
    let next = next_occurrence(&rule, ymd(2026, 2, 6));
    assert_eq!(next, ymd(2026, 2, 9));
    assert_eq!(dayrally::dates::weekday_index(&next), 0);
}

#[test]
fn weekly_respects_week_alignment_of_the_interval() {
    // anchor Sunday; the very next Monday is only one week past the
    // anchor's week, so an every-second-week rule skips it
    let rule = RecurrenceRule::Weekly {
        interval: 2,
        weekdays: Some(vec![WeekdayRule::Mon]),
    };
    assert_eq!(dayrally::dates::weekday_index(&ymd(2026, 2, 8)), 6);
    assert_eq!(next_occurrence(&rule, ymd(2026, 2, 8)), ymd(2026, 2, 16));
}

#[test]
fn weekly_same_week_day_counts_as_aligned() {
    // a later weekday of the anchor's own week lies zero weeks past it
    let rule = RecurrenceRule::Weekly {
        interval: 2,
        weekdays: Some(vec![WeekdayRule::Fri]),
    };
    // anchor Wednesday 2026-02-04; Friday the 6th is in the same week
    assert_eq!(next_occurrence(&rule, ymd(2026, 2, 4)), ymd(2026, 2, 6));
}

#[test]
fn weekly_without_weekday_set_falls_back_to_whole_weeks() {
    let rule = RecurrenceRule::Weekly { interval: 2, weekdays: None };
    assert_eq!(next_occurrence(&rule, ymd(2026, 2, 6)), ymd(2026, 2, 20));
}

#[test]
fn daily_long_interval_crosses_month_and_year() {
    let rule = RecurrenceRule::Daily { interval: 30 };
    assert_eq!(next_occurrence(&rule, ymd(2025, 12, 15)), ymd(2026, 1, 14));
}

#[test]
fn normalize_is_case_insensitive_and_keeps_first_casing() {
    let out = normalize_task_tags(&vec!["Work".to_string(), "work".to_string()]);
    assert_eq!(out, vec!["Work".to_string()]);
}

#[test]
fn normalize_twice_equals_normalize_once() {
    let tags = vec![
        "  Home ".to_string(),
        "home".to_string(),
        "".to_string(),
        "Errands".to_string(),
        "ERRANDS".to_string(),
    ];
    let once = normalize_task_tags(&tags);
    let twice = normalize_task_tags(&once);
    assert_eq!(once, twice);
    assert_eq!(once, vec!["Home".to_string(), "Errands".to_string()]);
}

#[test]
fn tags_survive_the_storage_form() {
    let tags = vec!["alpha".to_string(), "beta".to_string()];
    let csv = normalize_tags(&tags);
    assert_eq!(csv, "alpha,beta");
    assert_eq!(parse_tags(&csv), tags);
}

#[test]
fn parse_tags_trims_and_drops_empties() {
    assert_eq!(
        parse_tags(" a , ,b,,  c "),
        vec!["a".to_string(), "b".to_string(), "c".to_string()]
    );
}

#[test]
fn trim_removes_surrounding_whitespace_only() {
    assert_eq!(trim_text("  a b  "), "a b");
    assert_eq!(trim_text("\t\n"), "");
    assert_eq!(trim_text("x"), "x");
}

#[test]
fn dates_parse_and_format() {
    assert_eq!(parse_date("2026-02-06").unwrap(), ymd(2026, 2, 6));
    assert_eq!(format_date(&ymd(2026, 2, 6)), "2026-02-06");
    assert!(parse_date("2026-2-6").is_err());
    assert!(parse_date("2026-13-01").is_err());
    assert!(parse_date("2026-02-30").is_err());
    assert!(parse_date("garbage").is_err());
}

#[test]
fn times_parse_to_minutes() {
    assert_eq!(parse_time("00:00").unwrap(), 0);
    assert_eq!(parse_time("09:30").unwrap(), 570);
    assert_eq!(parse_time("23:59").unwrap(), 1439);
    assert!(parse_time("24:00").is_err());
    assert!(parse_time("9:30").is_err());
}

#[test]
fn leap_year_rules() {
    assert_eq!(next_occurrence(&RecurrenceRule::Daily { interval: 1 }, ymd(2024, 2, 28)),
        ymd(2024, 2, 29));
    assert_eq!(next_occurrence(&RecurrenceRule::Daily { interval: 1 }, ymd(2025, 2, 28)),
        ymd(2025, 3, 1));
    assert_eq!(next_occurrence(&RecurrenceRule::Daily { interval: 1 }, ymd(2000, 2, 28)),
        ymd(2000, 2, 29));
    assert_eq!(next_occurrence(&RecurrenceRule::Daily { interval: 1 }, ymd(1900, 2, 28)),
        ymd(1900, 3, 1));
}

#[test]
fn relationship_values_are_checked() {
    assert_eq!(normalize_relationship(" manager ").unwrap(), "manager");
    assert_eq!(normalize_relationship("peer").unwrap(), "peer");
    assert!(normalize_relationship("friend").is_err());
    assert!(normalize_relationship("").is_err());
}

#[test]
fn reminder_state_depends_on_all_three_inputs() {
    assert_eq!(normalize_reminder_state(false, Some("2026-02-06"), Some("09:00")).unwrap(),
        "idle");
    assert_eq!(normalize_reminder_state(true, Some("2026-02-06"), None).unwrap(), "idle");
    assert_eq!(normalize_reminder_state(true, None, Some("09:00")).unwrap(), "idle");
    assert_eq!(normalize_reminder_state(true, Some("2026-02-06"), Some("09:00")).unwrap(),
        "scheduled");
}

#[test]
fn optional_text_is_trimmed_and_blanks_dropped() {
    assert_eq!(normalize_optional_text(Some("  hi  ".to_string())), Some("hi".to_string()));
    assert_eq!(normalize_optional_text(Some("   ".to_string())), None);
    assert_eq!(normalize_optional_text(None), None);
}

fn plain_input() -> TaskInput {
    TaskInput {
        title: "t".to_string(),
        notes: None,
        tags: vec![],
        target_date: "2026-02-06".to_string(),
        status: "todo".to_string(),
        progress_percent: 0,
        deadline_at: None,
        is_recurring: false,
        recurrence_type: None,
        recurrence_interval: None,
        recurrence_weekdays: None,
        timer_enabled: false,
        timer_minutes: None,
    }
}

#[test]
fn input_normalization_clamps_and_resets() {
    let mut inp = plain_input();
    inp.is_recurring = true;
    inp.recurrence_type = Some("daily".to_string());
    inp.recurrence_interval = Some(0);
    inp.recurrence_weekdays = Some("Mon".to_string());
    inp.timer_enabled = true;
    inp.timer_minutes = None;
    let (rec, rtype, interval, weekdays, timer, minutes, state) = normalize_input(&inp);
    assert_eq!(rec, 1);
    assert_eq!(rtype, Some("daily".to_string()));
    assert_eq!(interval, 1);
    // a weekday set is kept only for weekly rules
    assert_eq!(weekdays, None);
    assert_eq!(timer, 1);
    assert_eq!(minutes, Some(25));
    assert_eq!(state, Some("idle".to_string()));

    let mut weekly = plain_input();
    weekly.is_recurring = true;
    weekly.recurrence_type = Some("weekly".to_string());
    weekly.recurrence_weekdays = Some("Mon,Wed".to_string());
    let (_, _, _, wdays, _, _, _) = normalize_input(&weekly);
    assert_eq!(wdays, Some("Mon,Wed".to_string()));

    let mut off = plain_input();
    off.recurrence_type = Some("daily".to_string());
    off.recurrence_interval = Some(9);
    let (rec2, rtype2, interval2, _, timer2, minutes2, state2) = normalize_input(&off);
    assert_eq!(rec2, 0);
    assert_eq!(rtype2, None);
    assert_eq!(interval2, 1);
    assert_eq!(timer2, 0);
    assert_eq!(minutes2, None);
    assert_eq!(state2, None);
}

#[test]
fn weekday_indexes_round_trip() {
    for i in 0..7 {
        assert_eq!(WeekdayRule::from_weekday(i).to_weekday(), i);
    }
}

#[test]
fn weekday_names_parse_in_order() {
    let days = dayrally::recurrence::parse_weekdays_csv(Some("Mon, Wed ,nope,Sun"));
    assert_eq!(days, vec![WeekdayRule::Mon, WeekdayRule::Wed, WeekdayRule::Sun]);
    assert_eq!(dayrally::recurrence::parse_weekdays_csv(None), vec![]);
}

#[test]
fn workspace_setting_is_required() {
    let none = Settings { workspace_path: None };
    assert!(workspace_from_settings(&none).is_err());
    let some = Settings { workspace_path: Some("/tmp/w".to_string()) };
    assert_eq!(workspace_from_settings(&some).unwrap(), "/tmp/w");
}

#[test]
fn note_image_plan_rejects_empty_and_builds_paths() {
    assert!(plan_note_image("n1", "20260206120000000", 0).is_err());
    let a = plan_note_image("n1", "20260206120000000", 3).unwrap();
    assert_eq!(a.filename, "20260206120000000.png");
    assert_eq!(a.path_relative, "attachments/n1/20260206120000000.png");
}
