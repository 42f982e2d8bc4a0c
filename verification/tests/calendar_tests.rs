use cantus::calendar::{current_month_grid, month_grid, navigate_month, CalendarDay, CalendarTarget};
use jiff::civil::date;
use jiff::Span;

fn expected_grid(today: (i16, i8, i8), offset: i32) -> (i16, i8, Vec<CalendarDay>) {
    let today = date(today.0, today.1, today.2);
    let month = today.first_of_month().saturating_add(Span::new().months(offset));
    let start = month.saturating_sub(Span::new().days(month.weekday().to_monday_zero_offset()));
    let days = (0..42)
        .map(|index| {
            let day = start.saturating_add(Span::new().days(index));
            CalendarDay { day: day.day(), in_month: day.month() == month.month(), today: day == today }
        })
        .collect();
    (month.year(), month.month(), days)
}

#[test]
fn month_grid_starts_on_monday() {
    // March 2024 starts on a Friday, so the grid opens on Monday 26 February.
    let grid = month_grid((2024, 3, 15), 0);
    assert_eq!((grid.year, grid.month), (2024, 3));
    assert_eq!(grid.days.len(), 42);
    assert_eq!(grid.days[0], CalendarDay { day: 26, in_month: false, today: false });
    assert_eq!(grid.days[4], CalendarDay { day: 1, in_month: true, today: false });
    assert_eq!(grid.days[18], CalendarDay { day: 15, in_month: true, today: true });
    assert_eq!(grid.days[34], CalendarDay { day: 31, in_month: true, today: false });
    assert_eq!(grid.days[35], CalendarDay { day: 1, in_month: false, today: false });
}

#[test]
fn month_grid_matches_the_calendar() {
    for (today, offset) in [
        ((2024, 3, 15), 0),
        ((2024, 3, 15), -1),
        ((2024, 3, 15), 11),
        ((2023, 12, 31), 2),
        ((2000, 2, 29), 1200),
        ((1999, 1, 1), -1200),
        ((9999, 12, 31), 1),
        ((-9999, 1, 1), -1),
        ((-9999, 1, 3), 0),
    ] {
        let grid = month_grid(today, offset);
        let (year, month, days) = expected_grid(today, offset);
        assert_eq!((grid.year, grid.month), (year, month), "{today:?} {offset}");
        assert_eq!(grid.days, days, "{today:?} {offset}");
    }
}

#[test]
fn current_month_has_six_weeks() {
    let grid = current_month_grid(0).expect("the system clock is readable");
    assert_eq!(grid.days.len(), 42);
    assert_eq!(grid.days.iter().filter(|day| day.today).count(), 1);
}

#[test]
fn navigation_steps_and_returns() {
    assert_eq!(navigate_month(0, CalendarTarget::Arrow(1)), (1, 1));
    assert_eq!(navigate_month(3, CalendarTarget::Arrow(-1)), (2, -1));
    assert_eq!(navigate_month(1200, CalendarTarget::Arrow(1)), (1200, 0));
    assert_eq!(navigate_month(-1200, CalendarTarget::Arrow(-1)), (-1200, 0));
    assert_eq!(navigate_month(-5, CalendarTarget::Title), (0, 1));
    assert_eq!(navigate_month(0, CalendarTarget::Title), (0, 0));
}
