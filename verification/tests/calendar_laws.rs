use core::time::Duration;

use waveshare_watch::time_manager::{
    closest_wake, days_in_month, is_leap_year, next_wake, ClosestWake, DateTime, Error, NextWake,
    TimeRecord, FRIDAY, MONDAY, SECONDS_PER_DAY, SUNDAY, THURSDAY, TUESDAY, WEDNESDAY,
};
use waveshare_watch::time_manager::weekday_from_date;
use waveshare_watch::watch::days_to_date;

#[test]
fn days_to_date_counts_from_epoch() {
    assert_eq!(days_to_date(0), (1970, 1, 1));
    assert_eq!(days_to_date(59), (1970, 3, 1));
    assert_eq!(days_to_date(364), (1970, 12, 31));
    assert_eq!(days_to_date(365), (1971, 1, 1));
    assert_eq!(days_to_date(10957), (2000, 1, 1));
    assert_eq!(days_to_date(11016), (2000, 2, 29));
    assert_eq!(days_to_date(20577), (2026, 5, 4));
}

#[test]
fn days_to_date_negative_counts() {
    assert_eq!(days_to_date(-1), (1970, 1, 0));
    assert_eq!(days_to_date(-5), (1970, 1, (-4i32) as u32));
}

#[test]
fn weekday_of_counted_day_follows_thursday_epoch() {
    for n in (0..40000).step_by(97) {
        let (y, m, d) = days_to_date(n);
        let expected = ((n + 3) % 7 + 1) as u8;
        assert_eq!(weekday_from_date(y as i32, m as u8, d as u8), Ok(expected));
    }
}

#[test]
fn weekday_advances_to_next_day() {
    assert_eq!(weekday_from_date(2024, 2, 29), Ok(THURSDAY));
    assert_eq!(weekday_from_date(2024, 3, 1), Ok(FRIDAY));
    assert_eq!(weekday_from_date(2023, 12, 31), Ok(SUNDAY));
    assert_eq!(weekday_from_date(2024, 1, 1), Ok(MONDAY));
    assert_eq!(weekday_from_date(1999, 12, 31), Ok(FRIDAY));
}

#[test]
fn leap_years_and_month_lengths() {
    assert!(is_leap_year(2000));
    assert!(!is_leap_year(1900));
    assert!(is_leap_year(2024));
    assert!(!is_leap_year(2023));
    assert!(is_leap_year(-4));
    assert_eq!(days_in_month(2024, 2), Some(29));
    assert_eq!(days_in_month(2023, 2), Some(28));
    assert_eq!(days_in_month(2023, 4), Some(30));
    assert_eq!(days_in_month(2023, 12), Some(31));
    assert_eq!(days_in_month(2023, 13), None);
    assert_eq!(days_in_month(2023, 0), None);
}

#[test]
fn each_error_variant_is_reported() {
    let record = TimeRecord::new(9, 0, [MONDAY, 0, 0, 0, 0, 0, 0]);
    assert_eq!(
        next_wake(DateTime::new(2026, 13, 1, 0, 0, 0), &[record]),
        Err(Error::InvalidDate)
    );
    assert_eq!(
        next_wake(DateTime::new(2026, 5, 4, 0, 0, 60), &[record]),
        Err(Error::InvalidTime)
    );
    let bad = TimeRecord::new(9, 0, [MONDAY, 0, 0, 9, 0, 0, 0]);
    assert_eq!(
        closest_wake(DateTime::new(2026, 5, 4, 0, 0, 0), &[record, bad]),
        Err(Error::InvalidWeekday(9))
    );
}

#[test]
fn first_invalid_record_decides_the_error() {
    let now = DateTime::new(2026, 5, 4, 8, 0, 0);
    let records = [
        TimeRecord::new(9, 0, [MONDAY, 0, 0, 0, 0, 0, 0]),
        TimeRecord::new(25, 0, [MONDAY, 0, 0, 0, 0, 0, 0]),
        TimeRecord::new(9, 0, [10, 0, 0, 0, 0, 0, 0]),
    ];
    assert_eq!(next_wake(now, &records), Err(Error::InvalidTime));
    // an invalid date is reported before any record is looked at
    assert_eq!(
        next_wake(DateTime::new(2026, 2, 30, 8, 0, 0), &records),
        Err(Error::InvalidDate)
    );
}

#[test]
fn next_wake_waits_less_than_a_week() {
    let now = DateTime::new(2026, 5, 6, 12, 0, 0);
    let record = TimeRecord::new(11, 59, [WEDNESDAY, 0, 0, 0, 0, 0, 0]);
    assert_eq!(
        next_wake(now, &[record]),
        Ok(Some(NextWake {
            duration: Duration::from_secs(7 * SECONDS_PER_DAY - 60),
            hour: 11,
            minute: 59,
            weekday: WEDNESDAY,
        }))
    );
}

#[test]
fn forward_and_backward_cover_a_week() {
    let now = DateTime::new(2026, 5, 4, 9, 26, 30);
    let record = TimeRecord::new(9, 25, [MONDAY, 0, 0, 0, 0, 0, 0]);
    let forward = next_wake(now, &[record]).unwrap().unwrap().duration;
    let closest = closest_wake(now, &[record]).unwrap().unwrap();
    assert!(!closest.is_future);
    assert_eq!(forward + closest.difference, Duration::from_secs(7 * SECONDS_PER_DAY));
}

#[test]
fn closest_wake_is_within_half_a_week() {
    // Thursday 20:00 is 3 days 11 hours ahead of Monday 09:00 but 3 days 13 hours behind
    let now = DateTime::new(2026, 5, 4, 9, 0, 0);
    let record = TimeRecord::new(20, 0, [THURSDAY, 0, 0, 0, 0, 0, 0]);
    let closest = closest_wake(now, &[record]).unwrap().unwrap();
    assert!(closest.is_future);
    assert_eq!(closest.difference, Duration::from_secs(3 * SECONDS_PER_DAY + 11 * 3600));
    let record = TimeRecord::new(8, 0, [FRIDAY, 0, 0, 0, 0, 0, 0]);
    let closest = closest_wake(now, &[record]).unwrap().unwrap();
    assert!(!closest.is_future);
    assert_eq!(closest.difference, Duration::from_secs(3 * SECONDS_PER_DAY + 1 * 3600));
}

#[test]
fn ties_go_to_the_first_slot_visited() {
    let now = DateTime::new(2026, 5, 4, 9, 0, 0);
    let ahead = TimeRecord::new(9, 2, [MONDAY, 0, 0, 0, 0, 0, 0]);
    let behind = TimeRecord::new(8, 58, [MONDAY, 0, 0, 0, 0, 0, 0]);
    assert_eq!(
        closest_wake(now, &[ahead, behind]),
        Ok(Some(ClosestWake {
            difference: Duration::from_secs(120),
            hour: 9,
            minute: 2,
            weekday: MONDAY,
            is_future: true,
        }))
    );
    assert_eq!(
        closest_wake(now, &[behind, ahead]),
        Ok(Some(ClosestWake {
            difference: Duration::from_secs(120),
            hour: 8,
            minute: 58,
            weekday: MONDAY,
            is_future: false,
        }))
    );
}

#[test]
fn wake_exists_exactly_when_a_weekday_is_enabled() {
    let now = DateTime::new(2026, 5, 4, 9, 0, 0);
    let off = TimeRecord::new(9, 30, [0; 7]);
    assert_eq!(next_wake(now, &[off, off]), Ok(None));
    assert_eq!(closest_wake(now, &[off]), Ok(None));
    assert_eq!(next_wake(now, &[]), Ok(None));
    let on = TimeRecord::new(9, 30, [0, 0, 0, 0, 0, 0, TUESDAY]);
    assert_eq!(
        next_wake(now, &[off, on]),
        Ok(Some(NextWake {
            duration: Duration::from_secs(SECONDS_PER_DAY + 30 * 60),
            hour: 9,
            minute: 30,
            weekday: TUESDAY,
        }))
    );
}
