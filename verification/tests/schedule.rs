use core::time::Duration;

use waveshare_watch::schedule::wake_schedule;
use waveshare_watch::time_manager::{sleep_duration_until_next, DateTime};

#[test]
fn schedule_selects_925_on_monday() {
    let now = DateTime::new(2026, 5, 4, 9, 20, 0);

    assert_eq!(
        sleep_duration_until_next(now, &wake_schedule()),
        Ok(Some(Duration::from_secs(5 * 60)))
    );
}

#[test]
fn schedule_selects_954_on_tuesday() {
    let now = DateTime::new(2026, 5, 5, 9, 50, 0);

    assert_eq!(
        sleep_duration_until_next(now, &wake_schedule()),
        Ok(Some(Duration::from_secs(4 * 60)))
    );
}

#[test]
fn schedule_uses_working_day_midday_time() {
    let now = DateTime::new(2026, 5, 6, 11, 0, 0);

    assert_eq!(
        sleep_duration_until_next(now, &wake_schedule()),
        Ok(Some(Duration::from_secs(27 * 60)))
    );
}

#[test]
fn schedule_skips_weekend_for_working_day_time() {
    let now = DateTime::new(2026, 5, 9, 17, 0, 0);

    assert_eq!(
        sleep_duration_until_next(now, &wake_schedule()),
        Ok(Some(Duration::from_secs(3 * 60 * 60 + 57 * 60)))
    );
}

#[test]
fn schedule_uses_daily_evening_time_on_sunday() {
    let now = DateTime::new(2026, 5, 10, 20, 50, 0);

    assert_eq!(
        sleep_duration_until_next(now, &wake_schedule()),
        Ok(Some(Duration::from_secs(7 * 60)))
    );
}
