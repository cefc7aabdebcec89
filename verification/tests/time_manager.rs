use core::time::Duration;

use waveshare_watch::time_manager::{
    closest_wake, next_wake, sleep_duration_until_next, weekday_from_date, ClosestWake, DateTime,
    Error, NextWake, TimeRecord, MONDAY, SATURDAY, SECONDS_PER_DAY, SUNDAY, THURSDAY, TUESDAY,
};

#[test]
fn computes_weekday_from_date() {
    assert_eq!(weekday_from_date(2026, 5, 4), Ok(MONDAY));
    assert_eq!(weekday_from_date(1970, 1, 1), Ok(THURSDAY));
    assert_eq!(weekday_from_date(2000, 1, 1), Ok(SATURDAY));
    assert_eq!(weekday_from_date(2024, 2, 29), Ok(THURSDAY));
}

#[test]
fn rejects_invalid_dates_and_times() {
    assert_eq!(weekday_from_date(2026, 2, 29), Err(Error::InvalidDate));

    let record = TimeRecord::new(24, 0, [MONDAY, 0, 0, 0, 0, 0, 0]);
    let now = DateTime::new(2026, 5, 4, 8, 0, 0);
    assert_eq!(
        sleep_duration_until_next(now, &[record]),
        Err(Error::InvalidTime)
    );

    let record = TimeRecord::new(8, 0, [8, 0, 0, 0, 0, 0, 0]);
    assert_eq!(
        sleep_duration_until_next(now, &[record]),
        Err(Error::InvalidWeekday(8))
    );
}

#[test]
fn returns_none_when_no_active_weekdays_exist() {
    let now = DateTime::new(2026, 5, 4, 8, 0, 0);
    let record = TimeRecord::new(9, 0, [0; 7]);
    assert_eq!(sleep_duration_until_next(now, &[record]), Ok(None));
}

#[test]
fn selects_same_day_future_time() {
    let now = DateTime::new(2026, 5, 4, 8, 15, 30);
    let record = TimeRecord::new(8, 20, [MONDAY, 0, 0, 0, 0, 0, 0]);
    assert_eq!(
        sleep_duration_until_next(now, &[record]),
        Ok(Some(Duration::from_secs(4 * 60 + 30)))
    );
}

#[test]
fn exact_current_minute_is_due_when_seconds_are_zero() {
    let now = DateTime::new(2026, 5, 4, 8, 15, 0);
    let record = TimeRecord::new(8, 15, [MONDAY, 0, 0, 0, 0, 0, 0]);
    assert_eq!(
        sleep_duration_until_next(now, &[record]),
        Ok(Some(Duration::from_secs(0)))
    );
}

#[test]
fn current_minute_has_passed_when_seconds_are_nonzero() {
    let now = DateTime::new(2026, 5, 4, 8, 15, 1);
    let record = TimeRecord::new(8, 15, [MONDAY, 0, 0, 0, 0, 0, 0]);
    assert_eq!(
        sleep_duration_until_next(now, &[record]),
        Ok(Some(Duration::from_secs(7 * SECONDS_PER_DAY - 1)))
    );
}

#[test]
fn wraps_to_next_week_when_today_time_passed() {
    let now = DateTime::new(2026, 5, 4, 8, 16, 0);
    let record = TimeRecord::new(8, 15, [MONDAY, 0, 0, 0, 0, 0, 0]);
    assert_eq!(
        sleep_duration_until_next(now, &[record]),
        Ok(Some(Duration::from_secs(7 * SECONDS_PER_DAY - 60)))
    );
}

#[test]
fn selects_closest_record_across_all_records_and_days() {
    let now = DateTime::new(2026, 5, 4, 23, 55, 0);
    let records = [
        TimeRecord::new(7, 0, [TUESDAY, 0, 0, 0, 0, 0, 0]),
        TimeRecord::new(23, 58, [MONDAY, 0, 0, 0, 0, 0, 0]),
        TimeRecord::new(0, 1, [TUESDAY, 0, 0, 0, 0, 0, 0]),
    ];

    assert_eq!(
        sleep_duration_until_next(now, &records),
        Ok(Some(Duration::from_secs(3 * 60)))
    );
}

#[test]
fn next_wake_returns_selected_time_record() {
    let now = DateTime::new(2026, 5, 4, 23, 55, 0);
    let records = [
        TimeRecord::new(7, 0, [TUESDAY, 0, 0, 0, 0, 0, 0]),
        TimeRecord::new(23, 58, [MONDAY, 0, 0, 0, 0, 0, 0]),
    ];

    assert_eq!(
        next_wake(now, &records),
        Ok(Some(NextWake {
            duration: Duration::from_secs(3 * 60),
            hour: 23,
            minute: 58,
            weekday: MONDAY,
        }))
    );
}

#[test]
fn closest_wake_selects_near_future_entry() {
    let now = DateTime::new(2026, 5, 4, 9, 23, 30);
    let record = TimeRecord::new(9, 25, [MONDAY, 0, 0, 0, 0, 0, 0]);

    assert_eq!(
        closest_wake(now, &[record]),
        Ok(Some(ClosestWake {
            difference: Duration::from_secs(90),
            hour: 9,
            minute: 25,
            weekday: MONDAY,
            is_future: true,
        }))
    );
}

#[test]
fn closest_wake_selects_near_past_entry() {
    let now = DateTime::new(2026, 5, 4, 9, 26, 30);
    let record = TimeRecord::new(9, 25, [MONDAY, 0, 0, 0, 0, 0, 0]);

    assert_eq!(
        closest_wake(now, &[record]),
        Ok(Some(ClosestWake {
            difference: Duration::from_secs(90),
            hour: 9,
            minute: 25,
            weekday: MONDAY,
            is_future: false,
        }))
    );
}

#[test]
fn closest_wake_considers_previous_week() {
    let now = DateTime::new(2026, 5, 4, 0, 1, 0);
    let record = TimeRecord::new(23, 59, [SUNDAY, 0, 0, 0, 0, 0, 0]);

    assert_eq!(
        closest_wake(now, &[record]),
        Ok(Some(ClosestWake {
            difference: Duration::from_secs(2 * 60),
            hour: 23,
            minute: 59,
            weekday: SUNDAY,
            is_future: false,
        }))
    );
}

#[test]
fn ignores_empty_weekday_slots() {
    let now = DateTime::new(2026, 5, 4, 23, 55, 0);
    let record = TimeRecord::new(0, 1, [0, 0, TUESDAY, 0, 0, 0, 0]);
    assert_eq!(
        sleep_duration_until_next(now, &[record]),
        Ok(Some(Duration::from_secs(6 * 60)))
    );
}

#[test]
fn invalid_time_reported_in_first_year() {
    let now = DateTime::new(i32::MIN, 1, 1, 24, 0, 0);
    let records = [TimeRecord::new(7, 0, [MONDAY, 0, 0, 0, 0, 0, 0])];
    assert_eq!(next_wake(now, &records), Err(Error::InvalidTime));
    assert_eq!(closest_wake(now, &records), Err(Error::InvalidTime));
    assert_eq!(sleep_duration_until_next(now, &records), Err(Error::InvalidTime));
}

#[test]
fn closest_wake_no_further_than_next_wake() {
    let now = DateTime::new(2026, 5, 4, 12, 0, 0);
    let records = [
        TimeRecord::new(11, 0, [MONDAY, 0, 0, 0, 0, 0, 0]),
        TimeRecord::new(8, 0, [TUESDAY, 0, 0, 0, 0, 0, 0]),
    ];
    assert_eq!(
        closest_wake(now, &records),
        Ok(Some(ClosestWake {
            difference: Duration::from_secs(3600),
            hour: 11,
            minute: 0,
            weekday: MONDAY,
            is_future: false,
        }))
    );
    assert_eq!(
        next_wake(now, &records),
        Ok(Some(NextWake { duration: Duration::from_secs(72000), hour: 8, minute: 0, weekday: TUESDAY }))
    );
    assert_eq!(closest_wake(now, &[]), Ok(None));
    assert_eq!(next_wake(now, &[]), Ok(None));
}
