use glassui::date::{CalendarTarget, DatePicker, SimpleDate};

#[test]
fn leap_years_and_month_lengths() {
    assert!(SimpleDate::is_leap_year(2024));
    assert!(!SimpleDate::is_leap_year(2023));
    assert!(!SimpleDate::is_leap_year(1900));
    assert!(SimpleDate::is_leap_year(2000));
    assert_eq!(SimpleDate::days_in_month(2024, 2), 29);
    assert_eq!(SimpleDate::days_in_month(2023, 2), 28);
    assert_eq!(SimpleDate::days_in_month(1900, 2), 28);
    assert_eq!(SimpleDate::days_in_month(2024, 4), 30);
    assert_eq!(SimpleDate::days_in_month(2024, 12), 31);
    assert_eq!(SimpleDate::days_in_month(2024, 13), 30);
}

#[test]
fn first_weekdays() {
    // 1 January 1970 was a Thursday, 1 January 2024 a Monday,
    // 1 March 2024 a Friday, 1 February 2000 a Tuesday.
    assert_eq!(SimpleDate::new(1970, 1, 1).first_day_of_month(), 4);
    assert_eq!(SimpleDate::new(2024, 1, 15).first_day_of_month(), 1);
    assert_eq!(SimpleDate::new(2024, 3, 1).first_day_of_month(), 5);
    assert_eq!(SimpleDate::new(2000, 2, 1).first_day_of_month(), 2);
    assert_eq!(SimpleDate::new(2023, 10, 1).first_day_of_month(), 0);
}

#[test]
fn formatting() {
    assert_eq!(SimpleDate::new(2024, 3, 5).format(), "2024-03-05");
    assert_eq!(SimpleDate::new(987, 12, 31).format(), "0987-12-31");
    assert_eq!(SimpleDate::new(12345, 1, 1).format(), "12345-01-01");
    assert_eq!(SimpleDate::new(-5, 1, 2).format(), "-005-01-02");
}

#[test]
fn dates_from_seconds() {
    assert_eq!(SimpleDate::from_unix_secs(0), SimpleDate::new(1970, 1, 1));
    assert_eq!(SimpleDate::from_unix_secs(86_399), SimpleDate::new(1970, 1, 1));
    assert_eq!(SimpleDate::from_unix_secs(86_400 * 31), SimpleDate::new(1970, 2, 1));
    assert_eq!(SimpleDate::from_unix_secs(86_400 * 365), SimpleDate::new(1971, 1, 1));
    assert_eq!(SimpleDate::from_unix_secs(951_782_400), SimpleDate::new(2000, 2, 29));
    assert_eq!(SimpleDate::from_unix_secs(1_709_251_200), SimpleDate::new(2024, 3, 1));
    let today = SimpleDate::today();
    assert!(today.year >= 2024);
    assert!((1..=12).contains(&today.month));
}

#[test]
fn picker_months_and_days() {
    let mut p = DatePicker::new().with_value(SimpleDate::new(2024, 1, 10));
    assert!(p.click(CalendarTarget::Header));
    assert!(p.open);
    assert!(p.click(CalendarTarget::PrevMonth));
    assert_eq!((p.display_month.year, p.display_month.month), (2023, 12));
    assert!(p.click(CalendarTarget::NextMonth));
    assert!(p.click(CalendarTarget::NextMonth));
    assert_eq!((p.display_month.year, p.display_month.month), (2024, 2));
    // February 2024 starts on a Thursday: cell (4, 0) is the 1st
    p.point_at_cell(Some((4, 0)));
    assert_eq!(p.hovered_day, Some(1));
    p.point_at_cell(Some((3, 0)));
    assert_eq!(p.hovered_day, None);
    p.point_at_cell(Some((4, 4)));
    assert_eq!(p.hovered_day, Some(29));
    p.point_at_cell(Some((5, 4)));
    assert_eq!(p.hovered_day, None);
    p.point_at_cell(Some((0, 1)));
    assert_eq!(p.hovered_day, Some(4));
    assert!(p.click(CalendarTarget::Calendar));
    assert_eq!(p.value, SimpleDate::new(2024, 2, 4));
    assert!(!p.open);
    assert!(!p.click(CalendarTarget::Outside));
}

#[test]
fn weekday_of_months_past_december() {
    // month 13 of 2024 is computed as January 2025, a Wednesday
    assert_eq!(SimpleDate::new(2024, 13, 1).first_day_of_month(), 3);
    assert!(SimpleDate::new(-3, 5, 1).first_day_of_month() < 7);
}

#[test]
fn clock_readings() {
    assert_eq!(SimpleDate::from_clock_reading(None), SimpleDate::new(1970, 1, 1));
    assert_eq!(SimpleDate::from_clock_reading(Some(0)), SimpleDate::new(1970, 1, 1));
    assert_eq!(SimpleDate::from_clock_reading(Some(1_709_251_200)), SimpleDate::new(2024, 3, 1));
    assert_eq!(SimpleDate::from_clock_reading(Some(432_000)), SimpleDate::new(1970, 1, 6));
    let picker = DatePicker::default();
    assert_eq!(picker.value, picker.display_month);
    assert!(!picker.open);
}

#[test]
fn time_since_epoch() {
    let ok = std::time::Duration::from_secs(1_709_251_200 + 3_600);
    assert_eq!(SimpleDate::from_time_since_epoch(Ok(ok)), SimpleDate::new(2024, 3, 1));
    let later = std::time::UNIX_EPOCH + std::time::Duration::from_secs(5);
    let before_epoch = std::time::UNIX_EPOCH.duration_since(later);
    assert!(before_epoch.is_err());
    assert_eq!(SimpleDate::from_time_since_epoch(before_epoch), SimpleDate::new(1970, 1, 1));
    let today = SimpleDate::today();
    assert!(today.year >= 2024);
}
